use grape::library::album::{
    add_album_to_artists, apply_album_genre, apply_album_genre_if_missing, apply_metadata_override,
    artist_name_for_tracks, assemble_album, first_track_artist, dominant_genre, dominant_track_artist, dominant_year,
    first_embedded_cover, merge_album_online_metadata, merge_genre, merge_year, resolve_album_year,
    total_duration_secs,
};
use grape::library::catalog::check_album_cover;
use grape::library::online::{OnlineMetadata, UserMetadataOverride};
use grape::library::{Album, Artist, Catalog, CoverArt, EmbeddedCover, FolderSummary, GenreSummary, Track};
use grape::mock_catalog::build_mock_catalog;

fn track(number: u8, title: &str, genre: Option<&str>, artist: Option<&str>, year: Option<u16>) -> Track {
    Track {
        number,
        title: title.to_string(),
        duration_secs: 100 + number as u32,
        duration_millis: None,
        bitrate_kbps: None,
        codec: None,
        path: format!("/lib/{title}.mp3"),
        track_artist: artist.map(|a| a.to_string()),
        artist: None,
        year,
        genre: genre.map(|g| g.to_string()),
        embedded_cover: None,
    }
}

fn album(title: &str, year: u16, tracks: Vec<Track>) -> Album {
    Album {
        title: title.to_string(),
        year,
        tracks,
        genre: None,
        path: format!("/lib/{title}"),
        total_duration_secs: 0,
        cover: None,
    }
}

#[test]
fn empty_catalog_has_nothing() {
    let c = Catalog::empty();
    assert!(c.artists.is_empty());
    assert!(c.genres().is_empty());
    assert!(c.folders().is_empty());
    assert!(c.first_track().is_none());
}

#[test]
fn mock_catalog_shape() {
    let c = build_mock_catalog();
    assert_eq!(c.artists.len(), 2);
    assert_eq!(c.artists[0].name, "Étoiles Polaires");
    assert_eq!(c.artists[0].albums[1].title, "Marées Lunaires");
    assert_eq!(c.artists[1].albums[0].tracks[1].title, "Développer");
    assert_eq!(c.artists[1].albums[0].tracks[1].duration_secs, 232);
    let (a, b, t) = c.first_track().expect("first track");
    assert_eq!(a.name, "Étoiles Polaires");
    assert_eq!(b.title, "Lueurs Nordiques");
    assert_eq!(t.title, "Halo");
}

#[test]
fn mock_catalog_genres_are_unknown() {
    let c = build_mock_catalog();
    assert_eq!(c.genres(), vec![GenreSummary { name: "Unknown".to_string(), track_count: 7 }]);
}

#[test]
fn genres_count_each_named_genre_sorted_case_insensitively() {
    let tracks = vec![
        track(1, "a", Some("rock; Pop"), None, None),
        track(2, "b", Some("Jazz"), None, None),
        track(3, "c", None, None, None),
        track(4, "d", Some(" ; "), None, None),
        track(5, "e", Some("Pop/jazz"), None, None),
    ];
    let c = Catalog {
        artists: vec![Artist { name: "X".to_string(), albums: vec![album("A", 0, tracks)], genre: None }],
    };
    let g = c.genres();
    let names: Vec<&str> = g.iter().map(|s| s.name.as_str()).collect();
    let counts: Vec<usize> = g.iter().map(|s| s.track_count).collect();
    assert_eq!(names, vec!["Jazz", "jazz", "Pop", "rock", "Unknown"]);
    assert_eq!(counts, vec![1, 1, 2, 1, 2]);
}

#[test]
fn folders_name_artist_year_and_title() {
    let c = build_mock_catalog();
    let expected = vec![
        FolderSummary { name: "Étoiles Polaires/2021 - Lueurs Nordiques".to_string(), track_count: 3 },
        FolderSummary { name: "Étoiles Polaires/2024 - Marées Lunaires".to_string(), track_count: 2 },
        FolderSummary { name: "Velours Analogiques/2019 - Polaroids".to_string(), track_count: 2 },
    ];
    assert_eq!(c.folders(), expected);
    let small = Catalog {
        artists: vec![Artist {
            name: "Y".to_string(),
            albums: vec![album("Old", 42, vec![track(1, "t", None, None, None)]), album("Empty", 2000, vec![]), album("NoYear", 0, vec![track(1, "u", None, None, None)])],
            genre: None,
        }],
    };
    let names: Vec<String> = small.folders().into_iter().map(|f| f.name).collect();
    assert_eq!(names, vec!["Y/0042 - Old".to_string(), "Y/NoYear".to_string()]);
}

#[test]
fn prune_drops_covers_whose_file_is_missing() {
    let mut c = build_mock_catalog();
    c.artists[0].albums[0].cover = Some(CoverArt {
        source_path: "/nowhere/cover.jpg".to_string(),
        cached_path: "/nowhere/at/all/cover.jpg".to_string(),
        modified_secs: 1,
    });
    let here = "/".to_string();
    c.artists[1].albums[0].cover = Some(CoverArt {
        source_path: here.clone(),
        cached_path: here,
        modified_secs: 2,
    });
    c.prune_missing_cover_art();
    assert!(c.artists[0].albums[0].cover.is_none());
    assert!(c.artists[1].albums[0].cover.is_some());
    assert_eq!(c.artists[0].albums[0].tracks.len(), 3);
}

#[test]
fn check_album_cover_keeps_or_drops() {
    let mut a = album("A", 0, vec![]);
    a.cover = Some(CoverArt { source_path: "s".to_string(), cached_path: "c".to_string(), modified_secs: 0 });
    check_album_cover(&mut a, true);
    assert!(a.cover.is_some());
    check_album_cover(&mut a, false);
    assert!(a.cover.is_none());
}

#[test]
fn dominant_values_of_tracks() {
    let tracks = vec![
        track(1, "a", Some("Rock; Pop"), Some("Daft Punk"), Some(1997)),
        track(2, "b", Some("Rock"), Some("daft punk"), Some(1997)),
        track(3, "c", None, Some("Thomas"), Some(2001)),
    ];
    assert_eq!(dominant_genre(&tracks), Some("Rock".to_string()));
    assert_eq!(dominant_year(&tracks), Some(1997));
    assert_eq!(resolve_album_year(0, &tracks), 1997);
    assert_eq!(resolve_album_year(2005, &tracks), 2005);
    assert_eq!(dominant_track_artist(&tracks), Some("Daft Punk".to_string()));
    assert_eq!(artist_name_for_tracks(&tracks), "Daft Punk");
    assert_eq!(total_duration_secs(&tracks), 101 + 102 + 103);
    let none = vec![track(1, "a", None, None, None)];
    assert_eq!(dominant_genre(&none), None);
    assert_eq!(dominant_year(&none), None);
    assert_eq!(resolve_album_year(0, &none), 0);
    assert_eq!(artist_name_for_tracks(&none), "Unknown Artist");
}

#[test]
fn first_embedded_cover_skips_empty_pictures() {
    let mut a = track(1, "a", None, None, None);
    a.embedded_cover = Some(EmbeddedCover { mime_type: None, data: vec![] });
    let mut b = track(2, "b", None, None, None);
    b.embedded_cover = Some(EmbeddedCover { mime_type: Some("image/png".to_string()), data: vec![1, 2] });
    assert_eq!(first_embedded_cover(&vec![a.clone(), b]), Some(1));
    assert_eq!(first_embedded_cover(&vec![a]), None);
}

#[test]
fn assemble_album_resolves_year_genre_duration() {
    let tracks = vec![track(1, "a", Some("Jazz"), None, Some(1959)), track(2, "b", Some("Jazz"), None, None)];
    let a = assemble_album("Kind of Blue".to_string(), 0, tracks, "/lib/k".to_string(), None);
    assert_eq!(a.year, 1959);
    assert_eq!(a.genre, Some("Jazz".to_string()));
    assert_eq!(a.total_duration_secs, 203);
    assert_eq!(a.path, "/lib/k");
}

#[test]
fn add_album_groups_by_artist_name() {
    let mut artists: Vec<Artist> = Vec::new();
    add_album_to_artists(&mut artists, "A".to_string(), album("One", 0, vec![track(1, "x", Some("Rock"), None, None)]));
    add_album_to_artists(&mut artists, "B".to_string(), album("Two", 0, vec![track(1, "y", Some("Pop"), None, None)]));
    add_album_to_artists(
        &mut artists,
        "A".to_string(),
        album("Three", 0, vec![track(1, "z", Some("Jazz"), None, None), track(2, "w", Some("Jazz"), None, None)]),
    );
    assert_eq!(artists.len(), 2);
    assert_eq!(artists[0].albums.len(), 2);
    assert_eq!(artists[0].genre, Some("Jazz".to_string()));
    assert_eq!(artists[1].name, "B");
    assert_eq!(artists[1].genre, Some("Pop".to_string()));
}

#[test]
fn album_genre_edits() {
    let mut a = album("A", 0, vec![track(1, "x", Some("Rock"), None, None), track(2, "y", None, None, None)]);
    apply_album_genre_if_missing(&mut a, "Jazz");
    assert_eq!(a.genre, Some("Jazz".to_string()));
    assert_eq!(a.tracks[0].genre, Some("Rock".to_string()));
    assert_eq!(a.tracks[1].genre, Some("Jazz".to_string()));
    apply_album_genre(&mut a, Some("Soul".to_string()));
    assert!(a.tracks.iter().all(|t| t.genre == Some("Soul".to_string())));
    apply_album_genre(&mut a, None);
    assert!(a.genre.is_none() && a.tracks.iter().all(|t| t.genre.is_none()));
}

#[test]
fn user_override_locks_genre_and_year() {
    let mut a = album("A", 1990, vec![track(1, "x", Some("Rock"), None, None)]);
    let edit = UserMetadataOverride {
        genre: Some("Blues".to_string()),
        year: None,
        genre_overridden: true,
        year_overridden: true,
        edited_at: 5,
    };
    let locks = apply_metadata_override(&mut a, &Some(edit.clone()));
    assert!(locks.genre && locks.year);
    assert_eq!(a.year, 0);
    assert_eq!(a.tracks[0].genre, Some("Blues".to_string()));

    let mut b = album("B", 1990, vec![track(1, "x", None, None, None)]);
    let online = OnlineMetadata { genre: Some("Jazz".to_string()), year: Some(1959), cover: None, cover_checked: true };
    merge_album_online_metadata(&mut b, &Some(edit), &online, true);
    assert_eq!(b.genre, Some("Blues".to_string()));
    assert_eq!(b.year, 0);
}

#[test]
fn online_metadata_merges_without_user_edit() {
    let online = OnlineMetadata { genre: Some("Jazz".to_string()), year: Some(1959), cover: None, cover_checked: true };
    let mut confirmed = album("C", 1990, vec![track(1, "x", Some("Rock"), None, None)]);
    confirmed.genre = Some("Rock".to_string());
    merge_album_online_metadata(&mut confirmed, &None, &online, true);
    assert_eq!(confirmed.genre, Some("Jazz".to_string()));
    assert_eq!(confirmed.tracks[0].genre, Some("Jazz".to_string()));
    assert_eq!(confirmed.year, 1959);

    let mut tentative = album("D", 0, vec![track(1, "x", Some("Rock"), None, None), track(2, "y", None, None, None)]);
    merge_album_online_metadata(&mut tentative, &None, &online, false);
    assert_eq!(tentative.genre, Some("Jazz".to_string()));
    assert_eq!(tentative.tracks[0].genre, Some("Rock".to_string()));
    assert_eq!(tentative.tracks[1].genre, Some("Jazz".to_string()));
    assert_eq!(tentative.year, 1959);

    let mut kept = album("E", 1990, vec![]);
    kept.genre = Some("Rock".to_string());
    merge_album_online_metadata(&mut kept, &None, &online, false);
    assert_eq!(kept.genre, Some("Rock".to_string()));
    assert_eq!(kept.year, 1990);
}

#[test]
fn merge_rules() {
    assert_eq!(merge_genre(Some("A".to_string()), Some("B".to_string()), true), Some("B".to_string()));
    assert_eq!(merge_genre(Some("A".to_string()), Some("B".to_string()), false), Some("A".to_string()));
    assert_eq!(merge_genre(None, Some("B".to_string()), false), Some("B".to_string()));
    assert_eq!(merge_genre(Some("A".to_string()), None, true), Some("A".to_string()));
    assert_eq!(merge_year(1990, Some(2001), true), 2001);
    assert_eq!(merge_year(1990, Some(0), true), 1990);
    assert_eq!(merge_year(1990, Some(2001), false), 1990);
    assert_eq!(merge_year(0, Some(2001), false), 2001);
    assert_eq!(merge_year(0, None, false), 0);
}

#[test]
fn artist_tag_with_several_names_counts_its_first() {
    let tracks = vec![
        track(1, "Intro", None, Some("Artiste; Autre"), None),
        track(2, "Suite", None, Some("Artiste; Autre"), None),
    ];
    assert_eq!(artist_name_for_tracks(&tracks), "Artiste");
    assert_eq!(first_track_artist(&tracks[0]), Some("Artiste".to_string()));
    assert_eq!(first_track_artist(&track(3, "x", None, Some(" / ; "), None)), None);
    let mixed = vec![
        track(1, "a", None, Some(" Beta | Alpha"), None),
        track(2, "b", None, Some("alpha/Beta"), None),
        track(3, "c", None, Some("ALPHA"), None),
    ];
    assert_eq!(artist_name_for_tracks(&mixed), "alpha");
}

#[test]
fn prune_checks_the_cached_file_not_the_source() {
    let mut c = build_mock_catalog();
    c.artists[0].albums[0].cover = Some(CoverArt {
        source_path: "/".to_string(),
        cached_path: "/nowhere/at/all/cached.jpg".to_string(),
        modified_secs: 1,
    });
    c.prune_missing_cover_art();
    assert!(c.artists[0].albums[0].cover.is_none());
}

#[test]
fn cover_files_and_prune_covers() {
    let mut c = build_mock_catalog();
    c.artists[0].albums[0].cover = Some(CoverArt {
        source_path: "s".to_string(),
        cached_path: "c0".to_string(),
        modified_secs: 1,
    });
    c.artists[1].albums[0].cover = Some(CoverArt {
        source_path: "s".to_string(),
        cached_path: "c1".to_string(),
        modified_secs: 1,
    });
    let files = c.cover_files();
    assert_eq!(files.len(), c.artists.len());
    assert_eq!(files[0][0], Some("c0".to_string()));
    assert_eq!(files[1][0], Some("c1".to_string()));
    assert_eq!(files[0].len(), c.artists[0].albums.len());
    let mut present: Vec<Vec<bool>> = files.iter().map(|row| vec![true; row.len()]).collect();
    present[0][0] = false;
    c.prune_covers(&present);
    assert!(c.artists[0].albums[0].cover.is_none());
    assert!(c.artists[1].albums[0].cover.is_some());
}
