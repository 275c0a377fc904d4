//! A small fixed catalog for trying the views without a library on disk.
use vstd::prelude::*;

use crate::library::{Album, Artist, Catalog, Track};

verus! {

/// A track known only by its number, title and duration.
pub open spec fn plain_track(t: Track, number: u8, title: Seq<char>, duration_secs: u32) -> bool {
    &&& t.number == number
    &&& t.title@ == title
    &&& t.duration_secs == duration_secs
    &&& t.duration_millis is None
    &&& t.bitrate_kbps is None
    &&& t.codec is None
    &&& t.path@ == Seq::<char>::empty()
    &&& t.track_artist is None
    &&& t.artist is None
    &&& t.year is None
    &&& t.genre is None
    &&& t.embedded_cover is None
}

/// An album known only by its title, year and tracks (and their total
/// length).
pub open spec fn plain_album(a: Album, title: Seq<char>, year: u16, n_tracks: nat, total: u32) -> bool {
    &&& a.title@ == title
    &&& a.year == year
    &&& a.tracks.len() == n_tracks
    &&& a.genre is None
    &&& a.path@ == Seq::<char>::empty()
    &&& a.total_duration_secs == total
    &&& a.cover is None
}

/// The mock catalog: two artists, three albums, seven tracks.
pub open spec fn is_mock_catalog(c: Catalog) -> bool {
    let a = c.artists@;
    &&& a.len() == 2
    &&& a[0].name@ == "Étoiles Polaires"@
    &&& a[0].genre is None
    &&& a[0].albums.len() == 2
    &&& plain_album(a[0].albums@[0], "Lueurs Nordiques"@, 2021, 3, 643)
    &&& plain_track(a[0].albums@[0].tracks@[0], 1, "Halo"@, 213)
    &&& plain_track(a[0].albums@[0].tracks@[1], 2, "Aurore"@, 189)
    &&& plain_track(a[0].albums@[0].tracks@[2], 3, "Constellations"@, 241)
    &&& plain_album(a[0].albums@[1], "Marées Lunaires"@, 2024, 2, 404)
    &&& plain_track(a[0].albums@[1].tracks@[0], 1, "Gravité Douce"@, 206)
    &&& plain_track(a[0].albums@[1].tracks@[1], 2, "Résonance"@, 198)
    &&& a[1].name@ == "Velours Analogiques"@
    &&& a[1].genre is None
    &&& a[1].albums.len() == 1
    &&& plain_album(a[1].albums@[0], "Polaroids"@, 2019, 2, 407)
    &&& plain_track(a[1].albums@[0].tracks@[0], 1, "Instantané"@, 175)
    &&& plain_track(a[1].albums@[0].tracks@[1], 2, "Développer"@, 232)
}

fn track(number: u8, title: &str, duration_secs: u32) -> (t: Track)
    ensures
        plain_track(t, number, title@, duration_secs),
{
    Track {
        number,
        title: title.to_owned(),
        duration_secs,
        duration_millis: None,
        bitrate_kbps: None,
        codec: None,
        path: String::new(),
        track_artist: None,
        artist: None,
        year: None,
        genre: None,
        embedded_cover: None,
    }
}

fn album(title: &str, year: u16, tracks: Vec<Track>, total: u32) -> (a: Album)
    ensures
        plain_album(a, title@, year, tracks.len() as nat, total),
        a.tracks@ == tracks@,
{
    Album {
        title: title.to_owned(),
        year,
        tracks,
        genre: None,
        path: String::new(),
        total_duration_secs: total,
        cover: None,
    }
}

/// The mock catalog.
pub fn build_mock_catalog() -> (c: Catalog)
    ensures
        is_mock_catalog(c),
{
    let mut first: Vec<Track> = Vec::new();
    first.push(track(1, "Halo", 213));
    first.push(track(2, "Aurore", 189));
    first.push(track(3, "Constellations", 241));
    let mut second: Vec<Track> = Vec::new();
    second.push(track(1, "Gravité Douce", 206));
    second.push(track(2, "Résonance", 198));
    let mut third: Vec<Track> = Vec::new();
    third.push(track(1, "Instantané", 175));
    third.push(track(2, "Développer", 232));
    let mut albums_a: Vec<Album> = Vec::new();
    albums_a.push(album("Lueurs Nordiques", 2021, first, 643));
    albums_a.push(album("Marées Lunaires", 2024, second, 404));
    let mut albums_b: Vec<Album> = Vec::new();
    albums_b.push(album("Polaroids", 2019, third, 407));
    let mut artists: Vec<Artist> = Vec::new();
    artists.push(Artist { name: "Étoiles Polaires".to_owned(), albums: albums_a, genre: None });
    artists.push(Artist { name: "Velours Analogiques".to_owned(), albums: albums_b, genre: None });
    Catalog { artists }
}

} // verus!
