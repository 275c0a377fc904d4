//! What the catalog offers the views: its genres with their track counts,
//! its album folders, its first track, and covers whose cached file is gone.
use vstd::prelude::*;

use crate::library::album::track_genre_tokens;
use crate::library::names::split_genre_field;
use crate::library::sorting::{is_order_of, sort_order, sorted_by};
use crate::library::tally::{count_of, find_key, lemma_count_push, tally_add, tally_ok, views};
use crate::library::{Album, Artist, Catalog, FolderSummary, GenreSummary, Track};
use crate::paths::path_exists;
use crate::text::{chars_of, lowercase, seq_lt, string_from_chars, to_lowercase};
use crate::ui::cells::{decimal, push_chars, push_decimal, push_str};

verus! {

/// The genres a track counts for: those of its genre field, or `Unknown`
/// when it names none.
pub open spec fn catalog_track_tokens(t: Track) -> Seq<Seq<char>> {
    if track_genre_tokens(t).len() == 0 {
        seq!["Unknown"@]
    } else {
        track_genre_tokens(t)
    }
}

pub open spec fn tracks_tokens(ts: Seq<Track>) -> Seq<Seq<char>>
    decreases ts.len(),
{
    if ts.len() == 0 {
        Seq::empty()
    } else {
        tracks_tokens(ts.drop_last()) + catalog_track_tokens(ts.last())
    }
}

pub open spec fn albums_tokens(albums: Seq<Album>) -> Seq<Seq<char>>
    decreases albums.len(),
{
    if albums.len() == 0 {
        Seq::empty()
    } else {
        albums_tokens(albums.drop_last()) + tracks_tokens(albums.last().tracks@)
    }
}

/// Every genre that every track of the catalog counts for, with repetitions.
pub open spec fn catalog_tokens(artists: Seq<Artist>) -> Seq<Seq<char>>
    decreases artists.len(),
{
    if artists.len() == 0 {
        Seq::empty()
    } else {
        catalog_tokens(artists.drop_last()) + albums_tokens(artists.last().albums@)
    }
}

/// Each genre once, with the number of times it is counted, ordered by the
/// lower-case form of its name.
pub open spec fn genres_listed(tokens: Seq<Seq<char>>, r: Seq<GenreSummary>) -> bool {
    &&& forall|i: int|
        0 <= i < r.len() ==> #[trigger] r[i].track_count == count_of(tokens, r[i].name@) && tokens.contains(
            r[i].name@,
        )
    &&& forall|x: Seq<char>| tokens.contains(x) ==> exists|i: int| 0 <= i < r.len() && #[trigger] r[i].name@ == x
    &&& forall|i: int, j: int| 0 <= i < j < r.len() ==> r[i].name@ != r[j].name@
    &&& forall|i: int, j: int|
        0 <= i < j < r.len() ==> !seq_lt(lowercase(#[trigger] r[j].name@), lowercase(#[trigger] r[i].name@))
}

/// `{:04}`: at least four digits, zeros in front.
pub open spec fn four_digits(n: nat) -> Seq<char> {
    let d = decimal(n);
    if d.len() >= 4 {
        d
    } else {
        Seq::new((4 - d.len()) as nat, |_i: int| '0') + d
    }
}

/// The folder name of an album: `2003 - Title`, or the bare title without
/// a year.
pub open spec fn album_folder(a: Album) -> Seq<char> {
    if a.year > 0 {
        four_digits(a.year as nat) + " - "@ + a.title@
    } else {
        a.title@
    }
}

/// The folders of the catalog: `Artist/2003 - Album` with its track count,
/// for every album that has tracks, in catalog order.
pub open spec fn folder_names(artists: Seq<Artist>) -> Seq<(Seq<char>, usize)>
    decreases artists.len(),
{
    if artists.len() == 0 {
        Seq::empty()
    } else {
        folder_names(artists.drop_last()) + artist_folder_names(artists.last(), artists.last().albums@)
    }
}

pub open spec fn artist_folder_names(artist: Artist, albums: Seq<Album>) -> Seq<(Seq<char>, usize)>
    decreases albums.len(),
{
    if albums.len() == 0 {
        Seq::empty()
    } else {
        let before = artist_folder_names(artist, albums.drop_last());
        let a = albums.last();
        if a.tracks.len() == 0 {
            before
        } else {
            before.push((artist.name@ + seq!['/'] + album_folder(a), a.tracks.len()))
        }
    }
}

pub open spec fn summaries(r: Seq<FolderSummary>) -> Seq<(Seq<char>, usize)> {
    r.map_values(|f: FolderSummary| (f.name@, f.track_count))
}

/// The first track of the first album of the first artist, if there is one.
pub open spec fn first_of(artists: Seq<Artist>) -> Option<(Artist, Album, Track)> {
    if artists.len() > 0 && artists[0].albums.len() > 0 && artists[0].albums@[0].tracks.len() > 0 {
        Some((artists[0], artists[0].albums@[0], artists[0].albums@[0].tracks@[0]))
    } else {
        None
    }
}

/// The cover of an album after the check of its cached file: kept when the
/// file is there, dropped when it is not.
pub open spec fn cover_checked(old: Album, new: Album, present: bool) -> bool {
    &&& new.title == old.title
    &&& new.year == old.year
    &&& new.tracks == old.tracks
    &&& new.genre == old.genre
    &&& new.path == old.path
    &&& new.total_duration_secs == old.total_duration_secs
    &&& new.cover == (if old.cover is Some && !present {
        None
    } else {
        old.cover
    })
}

/// The same album, but for a cover that may have been dropped.
pub open spec fn album_pruned(a: Album, b: Album) -> bool {
    &&& b.title == a.title
    &&& b.year == a.year
    &&& b.tracks == a.tracks
    &&& b.genre == a.genre
    &&& b.path == a.path
    &&& b.total_duration_secs == a.total_duration_secs
    &&& (b.cover == a.cover || b.cover is None)
}

/// The same artist, but for album covers that may have been dropped.
pub open spec fn artist_pruned(a: Artist, b: Artist) -> bool {
    &&& b.name == a.name
    &&& b.genre == a.genre
    &&& b.albums.len() == a.albums.len()
    &&& forall|j: int| 0 <= j < a.albums.len() ==> album_pruned(a.albums@[j], #[trigger] b.albums@[j])
}

/// The cached file of an album's cover, if it has one.
pub open spec fn cover_file(a: Album) -> Option<Seq<char>> {
    match a.cover {
        Some(c) => Some(c.cached_path@),
        None => None,
    }
}

pub open spec fn opt_view(o: Option<String>) -> Option<Seq<char>> {
    match o {
        Some(s) => Some(s@),
        None => None,
    }
}

/// Each album of the artist after the check of its cover, `present[j]` being
/// the answer for album `j`.
pub open spec fn artist_checked(old: Artist, new: Artist, present: Seq<bool>) -> bool {
    &&& new.name == old.name
    &&& new.genre == old.genre
    &&& new.albums.len() == old.albums.len()
    &&& forall|j: int|
        0 <= j < old.albums.len() ==> cover_checked(old.albums@[j], #[trigger] new.albums@[j], present[j])
}

/// Every album of the catalog after the check of its cover, `present[i][j]`
/// being the answer for album `j` of artist `i`.
pub open spec fn covers_checked(old: Seq<Artist>, new: Seq<Artist>, present: Seq<Seq<bool>>) -> bool {
    &&& new.len() == old.len()
    &&& present.len() == old.len()
    &&& forall|i: int| 0 <= i < old.len() ==> (#[trigger] present[i]).len() == old[i].albums.len()
    &&& forall|i: int| 0 <= i < old.len() ==> artist_checked(old[i], #[trigger] new[i], present[i])
}

/// The answers, row by row.
pub open spec fn rows(v: Seq<Vec<bool>>) -> Seq<Seq<bool>> {
    v.map_values(|r: Vec<bool>| r@)
}

proof fn lemma_checked_is_pruned(old: Seq<Artist>, new: Seq<Artist>, present: Seq<Seq<bool>>)
    requires
        covers_checked(old, new, present),
    ensures
        covers_pruned(old, new),
{
    assert forall|i: int| 0 <= i < old.len() implies artist_pruned(old[i], #[trigger] new[i]) by {
        assert(artist_checked(old[i], new[i], present[i]));
        assert forall|j: int| 0 <= j < old[i].albums.len() implies album_pruned(
            old[i].albums@[j],
            #[trigger] new[i].albums@[j],
        ) by {
            assert(cover_checked(old[i].albums@[j], new[i].albums@[j], present[i][j]));
        }
    }
}

/// The same catalog, but for covers that may have been dropped.
pub open spec fn covers_pruned(old: Seq<Artist>, new: Seq<Artist>) -> bool {
    &&& new.len() == old.len()
    &&& forall|i: int| 0 <= i < old.len() ==> artist_pruned(old[i], #[trigger] new[i])
}

/// Keeps the cover of an album when its cached file is `present`, and drops
/// it otherwise.
pub fn check_album_cover(album: &mut Album, present: bool)
    ensures
        cover_checked(*old(album), *final(album), present),
{
    if album.cover.is_some() && !present {
        album.cover = None;
    }
}

/// Adds the genres one track counts for to a tally.
fn tally_track(
    t: &Track,
    keys: &mut Vec<Vec<char>>,
    counts: &mut Vec<usize>,
    Ghost(seen): Ghost<Seq<Seq<char>>>,
)
    requires
        tally_ok(seen, views(old(keys)@), old(counts)@),
        seen.len() + catalog_track_tokens(*t).len() < usize::MAX,
    ensures
        tally_ok(seen + catalog_track_tokens(*t), views(final(keys)@), final(counts)@),
{
    let parts: Vec<String> = match &t.genre {
        Some(g) => split_genre_field(g.as_str()),
        None => Vec::new(),
    };
    let ghost toks = parts@.map_values(|p: String| p@);
    proof {
        assert(toks =~= track_genre_tokens(*t));
    }
    if parts.len() == 0 {
        let mut x: Vec<char> = Vec::new();
        push_str(&mut x, "Unknown");
        tally_add(keys, counts, x, Ghost(seen));
        proof {
            assert(x@ =~= "Unknown"@);
            assert(seen.push(x@) =~= seen + catalog_track_tokens(*t));
        }
    } else {
        let mut k: usize = 0;
        let ghost mut cur = seen;
        while k < parts.len()
            invariant
                k <= parts.len(),
                toks == parts@.map_values(|p: String| p@),
                cur == seen + toks.take(k as int),
                tally_ok(cur, views(keys@), counts@),
                toks == catalog_track_tokens(*t),
                seen.len() + toks.len() < usize::MAX,
            decreases parts.len() - k,
        {
            let x = chars_of(parts[k].as_str());
            tally_add(keys, counts, x, Ghost(cur));
            proof {
                assert(toks[k as int] == x@);
                assert(seen + toks.take(k + 1) =~= (seen + toks.take(k as int)).push(x@));
                cur = cur.push(x@);
            }
            k = k + 1;
        }
        proof {
            assert(toks.take(parts.len() as int) =~= toks);
        }
    }
}

proof fn lemma_tracks_tokens_prefix(ts: Seq<Track>, n: int)
    requires
        0 <= n <= ts.len(),
    ensures
        tracks_tokens(ts.take(n)).len() <= tracks_tokens(ts).len(),
    decreases ts.len() - n,
{
    if n < ts.len() {
        lemma_tracks_tokens_prefix(ts, n + 1);
        assert(ts.take(n + 1).drop_last() =~= ts.take(n));
    } else {
        assert(ts.take(n) =~= ts);
    }
}

proof fn lemma_albums_tokens_prefix(albums: Seq<Album>, n: int)
    requires
        0 <= n <= albums.len(),
    ensures
        albums_tokens(albums.take(n)).len() <= albums_tokens(albums).len(),
    decreases albums.len() - n,
{
    if n < albums.len() {
        lemma_albums_tokens_prefix(albums, n + 1);
        assert(albums.take(n + 1).drop_last() =~= albums.take(n));
    } else {
        assert(albums.take(n) =~= albums);
    }
}

proof fn lemma_catalog_tokens_prefix(artists: Seq<Artist>, n: int)
    requires
        0 <= n <= artists.len(),
    ensures
        catalog_tokens(artists.take(n)).len() <= catalog_tokens(artists).len(),
    decreases artists.len() - n,
{
    if n < artists.len() {
        lemma_catalog_tokens_prefix(artists, n + 1);
        assert(artists.take(n + 1).drop_last() =~= artists.take(n));
    } else {
        assert(artists.take(n) =~= artists);
    }
}

fn tally_tracks(
    ts: &Vec<Track>,
    keys: &mut Vec<Vec<char>>,
    counts: &mut Vec<usize>,
    Ghost(seen): Ghost<Seq<Seq<char>>>,
)
    requires
        tally_ok(seen, views(old(keys)@), old(counts)@),
        seen.len() + tracks_tokens(ts@).len() < usize::MAX,
    ensures
        tally_ok(seen + tracks_tokens(ts@), views(final(keys)@), final(counts)@),
{
    let mut i: usize = 0;
    let ghost mut cur = seen;
    assert(ts@.take(0) =~= Seq::<Track>::empty());
    assert(seen + tracks_tokens(Seq::<Track>::empty()) =~= seen);
    while i < ts.len()
        invariant
            i <= ts.len(),
            cur == seen + tracks_tokens(ts@.take(i as int)),
            tally_ok(cur, views(keys@), counts@),
            seen.len() + tracks_tokens(ts@).len() < usize::MAX,
        decreases ts.len() - i,
    {
        proof {
            lemma_tracks_tokens_prefix(ts@, i + 1);
            assert(ts@.take(i + 1).drop_last() =~= ts@.take(i as int));
        }
        tally_track(&ts[i], keys, counts, Ghost(cur));
        proof {
            cur = cur + catalog_track_tokens(ts@[i as int]);
        }
        i = i + 1;
        proof {
            assert(cur =~= seen + tracks_tokens(ts@.take(i as int)));
        }
    }
    assert(ts@.take(ts.len() as int) =~= ts@);
}

fn tally_albums(
    albums: &Vec<Album>,
    keys: &mut Vec<Vec<char>>,
    counts: &mut Vec<usize>,
    Ghost(seen): Ghost<Seq<Seq<char>>>,
)
    requires
        tally_ok(seen, views(old(keys)@), old(counts)@),
        seen.len() + albums_tokens(albums@).len() < usize::MAX,
    ensures
        tally_ok(seen + albums_tokens(albums@), views(final(keys)@), final(counts)@),
{
    let mut i: usize = 0;
    let ghost mut cur = seen;
    assert(albums@.take(0) =~= Seq::<Album>::empty());
    assert(seen + albums_tokens(Seq::<Album>::empty()) =~= seen);
    while i < albums.len()
        invariant
            i <= albums.len(),
            cur == seen + albums_tokens(albums@.take(i as int)),
            tally_ok(cur, views(keys@), counts@),
            seen.len() + albums_tokens(albums@).len() < usize::MAX,
        decreases albums.len() - i,
    {
        proof {
            lemma_albums_tokens_prefix(albums@, i + 1);
            assert(albums@.take(i + 1).drop_last() =~= albums@.take(i as int));
        }
        tally_tracks(&albums[i].tracks, keys, counts, Ghost(cur));
        proof {
            cur = cur + tracks_tokens(albums@[i as int].tracks@);
        }
        i = i + 1;
        proof {
            assert(cur =~= seen + albums_tokens(albums@.take(i as int)));
        }
    }
    assert(albums@.take(albums.len() as int) =~= albums@);
}

/// Lower-case forms of the keys.
fn lower_keys(keys: &Vec<Vec<char>>) -> (low: Vec<Vec<char>>)
    ensures
        low.len() == keys.len(),
        forall|j: int| 0 <= j < keys.len() ==> (#[trigger] low@[j])@ == lowercase(keys@[j]@),
{
    let mut low: Vec<Vec<char>> = Vec::new();
    let mut j: usize = 0;
    while j < keys.len()
        invariant
            j <= keys.len(),
            low.len() == j,
            forall|k: int| 0 <= k < j ==> (#[trigger] low@[k])@ == lowercase(keys@[k]@),
        decreases keys.len() - j,
    {
        let s = string_from_chars(&keys[j]);
        let l = to_lowercase(s.as_str());
        low.push(chars_of(l.as_str()));
        j = j + 1;
    }
    low
}

fn push_four_digits(out: &mut Vec<char>, n: u16)
    ensures
        final(out)@ == old(out)@ + four_digits(n as nat),
{
    let d = crate::ui::cells::decimal_chars(n as u64);
    let mut k = d.len();
    assert(old(out)@ + Seq::new(0, |_i: int| '0') =~= old(out)@);
    while k < 4
        invariant
            d.len() <= k,
            k <= 4 || k == d.len(),
            d@ == decimal(n as nat),
            out@ == old(out)@ + Seq::new((k - d.len()) as nat, |_i: int| '0'),
        decreases 4 - k,
    {
        out.push('0');
        k = k + 1;
        assert(out@ =~= old(out)@ + Seq::new((k - d.len()) as nat, |_i: int| '0'));
    }
    push_chars(out, &d);
    assert(final(out)@ =~= old(out)@ + four_digits(n as nat));
}

impl Catalog {
    pub fn empty() -> (r: Self)
        ensures
            r.artists@.len() == 0,
    {
        Catalog { artists: Vec::new() }
    }

    /// The genres of the catalog with their track counts (see
    /// `genres_listed`). Each track counts once for each genre its field
    /// names, or once for `Unknown`.
    pub fn genres(&self) -> (r: Vec<GenreSummary>)
        requires
            catalog_tokens(self.artists@).len() < usize::MAX,
        ensures
            genres_listed(catalog_tokens(self.artists@), r@),
    {
        let mut keys: Vec<Vec<char>> = Vec::new();
        let mut counts: Vec<usize> = Vec::new();
        let ghost mut seen = Seq::<Seq<char>>::empty();
        let mut i: usize = 0;
        assert(self.artists@.take(0) =~= Seq::<Artist>::empty());
        while i < self.artists.len()
            invariant
                i <= self.artists.len(),
                seen == catalog_tokens(self.artists@.take(i as int)),
                tally_ok(seen, views(keys@), counts@),
                catalog_tokens(self.artists@).len() < usize::MAX,
            decreases self.artists.len() - i,
        {
            proof {
                assert(self.artists@.take(i + 1).drop_last() =~= self.artists@.take(i as int));
                lemma_catalog_tokens_prefix(self.artists@, i + 1);
            }
            tally_albums(&self.artists[i].albums, &mut keys, &mut counts, Ghost(seen));
            proof {
                seen = seen + albums_tokens(self.artists@[i as int].albums@);
            }
            i = i + 1;
        }
        assert(self.artists@.take(self.artists.len() as int) =~= self.artists@);
        let ghost tokens = seen;
        let ghost ks = views(keys@);
        let low = lower_keys(&keys);
        let order = sort_order(&low);
        let ghost lows = views(low@);
        let mut r: Vec<GenreSummary> = Vec::new();
        let mut k: usize = 0;
        while k < order.len()
            invariant
                tokens == catalog_tokens(self.artists@),
                tally_ok(tokens, ks, counts@),
                ks == views(keys@),
                lows == views(low@),
                low.len() == keys.len(),
                forall|j: int| 0 <= j < keys.len() ==> (#[trigger] low@[j])@ == lowercase(keys@[j]@),
                is_order_of(order@, keys.len() as int),
                sorted_by(lows, order@),
                k <= order.len(),
                r.len() == k,
                forall|m: int|
                    0 <= m < k ==> (#[trigger] r@[m]).name@ == ks[order@[m] as int] && r@[m].track_count
                        == counts@[order@[m] as int],
            decreases order.len() - k,
        {
            let j = order[k];
            let name = string_from_chars(&keys[j]);
            r.push(GenreSummary { name, track_count: counts[j] });
            k = k + 1;
        }
        proof {
            assert forall|m: int| 0 <= m < r.len() implies #[trigger] r@[m].track_count == count_of(
                tokens,
                r@[m].name@,
            ) && tokens.contains(r@[m].name@) by {
                assert(ks[order@[m] as int] == keys@[order@[m] as int]@);
            }
            assert forall|x: Seq<char>| tokens.contains(x) implies exists|m: int|
                0 <= m < r.len() && #[trigger] r@[m].name@ == x by {
                assert(ks.contains(x));
                let j = choose|j: int| 0 <= j < ks.len() && ks[j] == x;
                assert(order@.contains(j as usize));
                let m = choose|m: int| 0 <= m < order@.len() && order@[m] == j as usize;
                assert(r@[m].name@ == x);
            }
            assert forall|a: int, b: int| 0 <= a < b < r.len() implies r@[a].name@ != r@[b].name@ by {
                assert(order@[a] != order@[b]);
            }
            assert forall|a: int, b: int| 0 <= a < b < r.len() implies !seq_lt(
                lowercase(#[trigger] r@[b].name@),
                lowercase(#[trigger] r@[a].name@),
            ) by {
                assert(lows[order@[a] as int] == low@[order@[a] as int]@);
                assert(lows[order@[b] as int] == low@[order@[b] as int]@);
                assert(!seq_lt(lows[order@[b] as int], lows[order@[a] as int]));
            }
        }
        r
    }

    /// The album folders of the catalog with their track counts.
    pub fn folders(&self) -> (r: Vec<FolderSummary>)
        ensures
            summaries(r@) == folder_names(self.artists@),
    {
        let mut r: Vec<FolderSummary> = Vec::new();
        let mut i: usize = 0;
        assert(self.artists@.take(0) =~= Seq::<Artist>::empty());
        assert(summaries(r@) =~= Seq::<(Seq<char>, usize)>::empty());
        while i < self.artists.len()
            invariant
                i <= self.artists.len(),
                summaries(r@) == folder_names(self.artists@.take(i as int)),
            decreases self.artists.len() - i,
        {
            let artist = &self.artists[i];
            let ghost base = summaries(r@);
            let mut j: usize = 0;
            assert(artist.albums@.take(0) =~= Seq::<Album>::empty());
            while j < artist.albums.len()
                invariant
                    artist == &self.artists@[i as int],
                    j <= artist.albums.len(),
                    summaries(r@) == base + artist_folder_names(*artist, artist.albums@.take(j as int)),
                decreases artist.albums.len() - j,
            {
                let album = &artist.albums[j];
                proof {
                    assert(artist.albums@.take(j + 1).drop_last() =~= artist.albums@.take(j as int));
                }
                if album.tracks.len() > 0 {
                    let mut name: Vec<char> = Vec::new();
                    push_str(&mut name, artist.name.as_str());
                    name.push('/');
                    if album.year > 0 {
                        push_four_digits(&mut name, album.year);
                        push_str(&mut name, " - ");
                        push_str(&mut name, album.title.as_str());
                    } else {
                        push_str(&mut name, album.title.as_str());
                    }
                    let ghost before = r@;
                    r.push(FolderSummary { name: string_from_chars(&name), track_count: album.tracks.len() });
                    proof {
                        assert(name@ =~= artist.name@ + seq!['/'] + crate::library::catalog::album_folder(*album));
                        assert(summaries(r@) =~= summaries(before).push((name@, album.tracks.len())));
                    }
                }
                j = j + 1;
                proof {
                    assert(summaries(r@) =~= base + artist_folder_names(*artist, artist.albums@.take(j as int)));
                }
            }
            proof {
                assert(artist.albums@.take(artist.albums.len() as int) =~= artist.albums@);
                assert(self.artists@.take(i + 1).drop_last() =~= self.artists@.take(i as int));
            }
            i = i + 1;
        }
        assert(self.artists@.take(self.artists.len() as int) =~= self.artists@);
        r
    }

    /// The first track of the catalog, with its artist and album.
    pub fn first_track(&self) -> (r: Option<(&Artist, &Album, &Track)>)
        ensures
            match first_of(self.artists@) {
                Some((a, b, t)) => r == Some((&a, &b, &t)),
                None => r is None,
            },
    {
        if self.artists.len() == 0 {
            return None;
        }
        let artist = &self.artists[0];
        if artist.albums.len() == 0 {
            return None;
        }
        let album = &artist.albums[0];
        if album.tracks.len() == 0 {
            return None;
        }
        Some((artist, album, &album.tracks[0]))
    }

    /// The cached file of each album's cover, artist by artist and album by
    /// album (`None` for an album without a cover): the files whose presence
    /// decides which covers are kept.
    pub fn cover_files(&self) -> (r: Vec<Vec<Option<String>>>)
        ensures
            r.len() == self.artists.len(),
            forall|i: int|
                0 <= i < r.len() ==> (#[trigger] r@[i]).len() == self.artists@[i].albums.len() && forall|j: int|
                    0 <= j < r@[i].len() ==> opt_view(#[trigger] r@[i]@[j]) == cover_file(
                        self.artists@[i].albums@[j],
                    ),
    {
        let mut r: Vec<Vec<Option<String>>> = Vec::new();
        let mut i: usize = 0;
        while i < self.artists.len()
            invariant
                i <= self.artists.len(),
                r.len() == i,
                forall|a: int|
                    0 <= a < i ==> (#[trigger] r@[a]).len() == self.artists@[a].albums.len() && forall|j: int|
                        0 <= j < r@[a].len() ==> opt_view(#[trigger] r@[a]@[j]) == cover_file(
                            self.artists@[a].albums@[j],
                        ),
            decreases self.artists.len() - i,
        {
            let albums = &self.artists[i].albums;
            let mut row: Vec<Option<String>> = Vec::new();
            let mut j: usize = 0;
            while j < albums.len()
                invariant
                    j <= albums.len(),
                    row.len() == j,
                    forall|b: int| 0 <= b < j ==> opt_view(#[trigger] row@[b]) == cover_file(albums@[b]),
                decreases albums.len() - j,
            {
                let f = match &albums[j].cover {
                    Some(c) => Some(c.cached_path.clone()),
                    None => None,
                };
                row.push(f);
                j = j + 1;
            }
            r.push(row);
            i = i + 1;
        }
        r
    }

    /// Keeps or drops each album's cover as `present` says of its cached file
    /// (one answer per album, artist by artist).
    pub fn prune_covers(&mut self, present: &Vec<Vec<bool>>)
        requires
            present.len() == old(self).artists.len(),
            forall|i: int|
                0 <= i < present.len() ==> (#[trigger] present@[i]).len() == old(self).artists@[i].albums.len(),
        ensures
            covers_checked(old(self).artists@, final(self).artists@, rows(present@)),
    {
        let ghost start = self.artists@;
        let mut i: usize = 0;
        while i < self.artists.len()
            invariant
                i <= self.artists.len() == start.len() == present.len(),
                forall|a: int| 0 <= a < present.len() ==> (#[trigger] present@[a]).len() == start[a].albums.len(),
                forall|k: int| i <= k < start.len() ==> #[trigger] self.artists@[k] == start[k],
                forall|k: int| 0 <= k < i ==> artist_checked(start[k], #[trigger] self.artists@[k], present@[k]@),
            decreases self.artists.len() - i,
        {
            let ghost prev = self.artists@;
            let mut artist = self.artists.remove(i);
            let ghost a0 = artist;
            let row = &present[i];
            let mut j: usize = 0;
            while j < artist.albums.len()
                invariant
                    j <= artist.albums.len() == a0.albums.len() == row.len(),
                    artist.name == a0.name,
                    artist.genre == a0.genre,
                    forall|k: int| j <= k < a0.albums.len() ==> #[trigger] artist.albums@[k] == a0.albums@[k],
                    forall|k: int|
                        0 <= k < j ==> cover_checked(a0.albums@[k], #[trigger] artist.albums@[k], row@[k]),
                decreases artist.albums.len() - j,
            {
                let mut album = artist.albums.remove(j);
                check_album_cover(&mut album, row[j]);
                artist.albums.insert(j, album);
                j = j + 1;
            }
            self.artists.insert(i, artist);
            proof {
                assert(artist_checked(a0, artist, present@[i as int]@));
                assert forall|k: int| 0 <= k < i + 1 implies artist_checked(
                    start[k],
                    #[trigger] self.artists@[k],
                    present@[k]@,
                ) by {
                    if k < i {
                        assert(self.artists@[k] == prev[k]);
                    }
                }
            }
            i = i + 1;
        }
        proof {
            let ps = rows(present@);
            assert forall|a: int| 0 <= a < start.len() implies (#[trigger] ps[a]).len() == start[a].albums.len() by {
                assert(ps[a] == present@[a]@);
            }
            assert forall|a: int| 0 <= a < start.len() implies artist_checked(start[a], #[trigger] self.artists@[a], ps[a]) by {
                assert(ps[a] == present@[a]@);
            }
        }
    }

    /// Drops the covers whose cached file is missing on disk: each cover's
    /// `cached_path` (see `cover_files`) is asked of the file system, and the
    /// answers are handed to `prune_covers`.
    pub fn prune_missing_cover_art(&mut self)
        ensures
            exists|present: Seq<Seq<bool>>| #[trigger] covers_checked(old(self).artists@, final(self).artists@, present),
            covers_pruned(old(self).artists@, final(self).artists@),
    {
        let ghost start = self.artists@;
        let files = self.cover_files();
        let mut present: Vec<Vec<bool>> = Vec::new();
        let mut i: usize = 0;
        while i < files.len()
            invariant
                i <= files.len() == self.artists.len(),
                self.artists@ == start,
                forall|a: int|
                    0 <= a < files.len() ==> (#[trigger] files@[a]).len() == self.artists@[a].albums.len(),
                present.len() == i,
                forall|a: int| 0 <= a < i ==> (#[trigger] present@[a]).len() == files@[a].len(),
            decreases files.len() - i,
        {
            let row_files = &files[i];
            let mut row: Vec<bool> = Vec::new();
            let mut j: usize = 0;
            while j < row_files.len()
                invariant
                    j <= row_files.len(),
                    row.len() == j,
                decreases row_files.len() - j,
            {
                let here = match &row_files[j] {
                    Some(path) => path_exists(path.as_str()),
                    None => true,
                };
                row.push(here);
                j = j + 1;
            }
            present.push(row);
            i = i + 1;
        }
        self.prune_covers(&present);
        proof {
            assert(covers_checked(start, self.artists@, rows(present@)));
            lemma_checked_is_pruned(start, self.artists@, rows(present@));
        }
    }
}

} // verus!
