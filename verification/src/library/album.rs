//! Album-level decisions: dominant genre, year and artist of a set of tracks,
//! album assembly, grouping albums under artists, user edits and online
//! metadata merging.
use vstd::prelude::*;

use crate::library::names::{split_genre_field, split_genres};
use crate::library::online::{OnlineMetadata, UserMetadataOverride};
use crate::library::tally::{
    count_of, find_key, index_of_max, is_most_frequent, lemma_count_bound, lemma_count_contains,
    lemma_count_push, lemma_tally_empty, lemma_tally_max, tally_add, tally_ok, views,
};
use crate::library::{Album, Artist, CoverArt, MetadataLocks, Track};
use crate::text::{chars_of, lowercase, string_from_chars, to_lowercase};

verus! {

pub fn clone_opt_string(o: &Option<String>) -> (r: Option<String>)
    ensures
        r == *o,
{
    match o {
        Some(s) => Some(s.clone()),
        None => None,
    }
}

/// The genres of a track's genre field (none without a field).
pub open spec fn track_genre_tokens(t: Track) -> Seq<Seq<char>> {
    match t.genre {
        Some(g) => split_genres(g@),
        None => Seq::empty(),
    }
}

/// Every genre named by the tracks, in order, with repetitions.
pub open spec fn genre_tokens(ts: Seq<Track>) -> Seq<Seq<char>>
    decreases ts.len(),
{
    if ts.len() == 0 {
        Seq::empty()
    } else {
        genre_tokens(ts.drop_last()) + track_genre_tokens(ts.last())
    }
}

/// Every genre named by the tracks of the albums.
pub open spec fn albums_genre_tokens(albums: Seq<Album>) -> Seq<Seq<char>>
    decreases albums.len(),
{
    if albums.len() == 0 {
        Seq::empty()
    } else {
        albums_genre_tokens(albums.drop_last()) + genre_tokens(albums.last().tracks@)
    }
}

/// `r` is a most frequent value of `tokens`, or `None` when there is none.
pub open spec fn dominant(tokens: Seq<Seq<char>>, r: Option<String>) -> bool {
    match r {
        None => tokens.len() == 0,
        Some(g) => is_most_frequent(tokens, g@),
    }
}

/// Adds the genres of `tracks` to a tally.
fn tally_track_genres(
    tracks: &Vec<Track>,
    keys: &mut Vec<Vec<char>>,
    counts: &mut Vec<usize>,
    Ghost(seen): Ghost<Seq<Seq<char>>>,
)
    requires
        tally_ok(seen, views(old(keys)@), old(counts)@),
        seen.len() + genre_tokens(tracks@).len() < usize::MAX,
    ensures
        tally_ok(seen + genre_tokens(tracks@), views(final(keys)@), final(counts)@),
{
    let mut i: usize = 0;
    let ghost mut cur = seen;
    assert(tracks@.take(0) =~= Seq::<Track>::empty());
    assert(seen + genre_tokens(Seq::<Track>::empty()) =~= seen);
    while i < tracks.len()
        invariant
            i <= tracks.len(),
            cur == seen + genre_tokens(tracks@.take(i as int)),
            tally_ok(cur, views(keys@), counts@),
            seen.len() + genre_tokens(tracks@).len() < usize::MAX,
        decreases tracks.len() - i,
    {
        proof {
            lemma_genre_tokens_prefix(tracks@, i as int + 1);
            assert(tracks@.take(i + 1).drop_last() =~= tracks@.take(i as int));
        }
        match &tracks[i].genre {
            Some(g) => {
                let parts = split_genre_field(g.as_str());
                let ghost toks = parts@.map_values(|p: String| p@);
                let mut k: usize = 0;
                let ghost base = cur;
                while k < parts.len()
                    invariant
                        k <= parts.len(),
                        toks == parts@.map_values(|p: String| p@),
                        cur == base + toks.take(k as int),
                        tally_ok(cur, views(keys@), counts@),
                        base + toks =~= seen + genre_tokens(tracks@.take(i + 1)),
                        base.len() + toks.len() <= seen.len() + genre_tokens(tracks@).len(),
                        seen.len() + genre_tokens(tracks@).len() < usize::MAX,
                    decreases parts.len() - k,
                {
                    let x = chars_of(parts[k].as_str());
                    tally_add(keys, counts, x, Ghost(cur));
                    proof {
                        assert(toks[k as int] == x@);
                        assert(base + toks.take(k + 1) =~= (base + toks.take(k as int)).push(x@));
                        cur = cur.push(x@);
                    }
                    k = k + 1;
                }
                proof {
                    assert(toks.take(parts.len() as int) =~= toks);
                }
            },
            None => {
                proof {
                    assert(cur + Seq::<Seq<char>>::empty() =~= cur);
                }
            },
        }
        i = i + 1;
        proof {
            assert(cur =~= seen + genre_tokens(tracks@.take(i as int)));
        }
    }
    assert(tracks@.take(tracks.len() as int) =~= tracks@);
}

pub proof fn lemma_genre_tokens_prefix(ts: Seq<Track>, n: int)
    requires
        0 <= n <= ts.len(),
    ensures
        genre_tokens(ts.take(n)).len() <= genre_tokens(ts).len(),
    decreases ts.len() - n,
{
    if n < ts.len() {
        lemma_genre_tokens_prefix(ts, n + 1);
        assert(ts.take(n + 1).drop_last() =~= ts.take(n));
    } else {
        assert(ts.take(n) =~= ts);
    }
}

/// The most frequent key of a tally, as a string.
fn tally_best(keys: &Vec<Vec<char>>, counts: &Vec<usize>, Ghost(seen): Ghost<Seq<Seq<char>>>) -> (r: Option<String>)
    requires
        tally_ok(seen, views(keys@), counts@),
    ensures
        dominant(seen, r),
{
    if keys.len() == 0 {
        proof {
            lemma_tally_empty(seen, views(keys@), counts@);
        }
        None
    } else {
        let b = index_of_max(counts);
        proof {
            lemma_tally_max(seen, views(keys@), counts@, b as int);
        }
        Some(string_from_chars(&keys[b]))
    }
}

/// The most frequent genre named by the tracks.
pub fn dominant_genre(tracks: &Vec<Track>) -> (r: Option<String>)
    requires
        genre_tokens(tracks@).len() < usize::MAX,
    ensures
        dominant(genre_tokens(tracks@), r),
{
    let mut keys: Vec<Vec<char>> = Vec::new();
    let mut counts: Vec<usize> = Vec::new();
    let ghost empty = Seq::<Seq<char>>::empty();
    assert(tally_ok(empty, views(keys@), counts@));
    tally_track_genres(tracks, &mut keys, &mut counts, Ghost(empty));
    assert(empty + genre_tokens(tracks@) =~= genre_tokens(tracks@));
    tally_best(&keys, &counts, Ghost(genre_tokens(tracks@)))
}

pub proof fn lemma_albums_genre_tokens_prefix(albums: Seq<Album>, n: int)
    requires
        0 <= n <= albums.len(),
    ensures
        albums_genre_tokens(albums.take(n)).len() <= albums_genre_tokens(albums).len(),
    decreases albums.len() - n,
{
    if n < albums.len() {
        lemma_albums_genre_tokens_prefix(albums, n + 1);
        assert(albums.take(n + 1).drop_last() =~= albums.take(n));
    } else {
        assert(albums.take(n) =~= albums);
    }
}

/// The most frequent genre named by the tracks of the albums.
pub fn dominant_genre_of_albums(albums: &Vec<Album>) -> (r: Option<String>)
    requires
        albums_genre_tokens(albums@).len() < usize::MAX,
    ensures
        dominant(albums_genre_tokens(albums@), r),
{
    let mut keys: Vec<Vec<char>> = Vec::new();
    let mut counts: Vec<usize> = Vec::new();
    let ghost mut seen = Seq::<Seq<char>>::empty();
    let mut i: usize = 0;
    assert(albums@.take(0) =~= Seq::<Album>::empty());
    while i < albums.len()
        invariant
            i <= albums.len(),
            seen == albums_genre_tokens(albums@.take(i as int)),
            tally_ok(seen, views(keys@), counts@),
            albums_genre_tokens(albums@).len() < usize::MAX,
        decreases albums.len() - i,
    {
        proof {
            assert(albums@.take(i + 1).drop_last() =~= albums@.take(i as int));
            lemma_albums_genre_tokens_prefix(albums@, i + 1);
        }
        tally_track_genres(&albums[i].tracks, &mut keys, &mut counts, Ghost(seen));
        proof {
            seen = seen + genre_tokens(albums@[i as int].tracks@);
        }
        i = i + 1;
    }
    assert(albums@.take(albums.len() as int) =~= albums@);
    tally_best(&keys, &counts, Ghost(seen))
}

/// Years (> 0) that the tracks' tags name, in order.
pub open spec fn year_tokens(ts: Seq<Track>) -> Seq<u16>
    decreases ts.len(),
{
    if ts.len() == 0 {
        Seq::empty()
    } else {
        year_tokens(ts.drop_last()) + match ts.last().year {
            Some(y) if y > 0 => seq![y],
            _ => Seq::empty(),
        }
    }
}

proof fn lemma_year_tokens_len(ts: Seq<Track>)
    ensures
        year_tokens(ts).len() <= ts.len(),
    decreases ts.len(),
{
    if ts.len() > 0 {
        lemma_year_tokens_len(ts.drop_last());
    }
}

/// The most frequent year named by the tracks, if any.
pub fn dominant_year(tracks: &Vec<Track>) -> (r: Option<u16>)
    ensures
        match r {
            None => year_tokens(tracks@).len() == 0,
            Some(y) => is_most_frequent(year_tokens(tracks@), y),
        },
{
    let mut years: Vec<u16> = Vec::new();
    let mut counts: Vec<usize> = Vec::new();
    let mut i: usize = 0;
    let ghost mut seen = Seq::<u16>::empty();
    assert(tracks@.take(0) =~= Seq::<Track>::empty());
    while i < tracks.len()
        invariant
            i <= tracks.len(),
            seen == year_tokens(tracks@.take(i as int)),
            seen.len() <= i,
            years.len() == counts.len(),
            forall|a: int, b: int| 0 <= a < b < years.len() ==> years@[a] != years@[b],
            forall|a: int| 0 <= a < years.len() ==> #[trigger] counts@[a] == count_of(seen, years@[a]),
            forall|a: int| 0 <= a < years.len() ==> seen.contains(#[trigger] years@[a]),
            forall|y: u16| seen.contains(y) ==> #[trigger] years@.contains(y),
        decreases tracks.len() - i,
    {
        proof {
            assert(tracks@.take(i + 1).drop_last() =~= tracks@.take(i as int));
        }
        match tracks[i].year {
            Some(y) if y > 0 => {
                let ghost s2 = seen.push(y);
                proof {
                    assert(year_tokens(tracks@.take(i + 1)) =~= s2);
                    assert forall|x: u16| #[trigger] count_of(s2, x) == count_of(seen, x) + if y == x { 1nat } else { 0nat } by {
                        lemma_count_push(seen, y, x);
                    }
                }
                let mut k: usize = 0;
                while k < years.len() && years[k] != y
                    invariant
                        k <= years.len(),
                        forall|a: int| 0 <= a < k ==> years@[a] != y,
                    decreases years.len() - k,
                {
                    k = k + 1;
                }
                if k < years.len() {
                    proof {
                        lemma_count_bound(seen, y);
                    }
                    let c = counts[k] + 1;
                    counts.set(k, c);
                    proof {
                        assert forall|a: int| 0 <= a < years.len() implies s2.contains(#[trigger] years@[a]) by {
                            assert(seen.contains(years@[a]));
                            let m = choose|m: int| 0 <= m < seen.len() && seen[m] == years@[a];
                            assert(s2[m] == years@[a]);
                        }
                        assert forall|x: u16| s2.contains(x) implies #[trigger] years@.contains(x) by {
                            let m = choose|m: int| 0 <= m < s2.len() && s2[m] == x;
                            if m < seen.len() {
                                assert(seen[m] == x);
                                assert(seen.contains(x));
                            } else {
                                assert(years@[k as int] == x);
                            }
                        }
                    }
                } else {
                    proof {
                        lemma_count_contains(seen, y);
                        if seen.contains(y) {
                            assert(years@.contains(y));
                        }
                    }
                    let ghost oy = years@;
                    years.push(y);
                    counts.push(1);
                    proof {
                        assert forall|a: int| 0 <= a < years.len() implies s2.contains(#[trigger] years@[a]) by {
                            if a < years.len() - 1 {
                                assert(seen.contains(years@[a]));
                                let m = choose|m: int| 0 <= m < seen.len() && seen[m] == years@[a];
                                assert(s2[m] == years@[a]);
                            } else {
                                assert(s2[seen.len() as int] == y);
                            }
                        }
                        assert forall|x: u16| s2.contains(x) implies #[trigger] years@.contains(x) by {
                            let m = choose|m: int| 0 <= m < s2.len() && s2[m] == x;
                            if m < seen.len() {
                                assert(seen[m] == x);
                                assert(seen.contains(x));
                                assert(oy.contains(x));
                                let q = choose|q: int| 0 <= q < oy.len() && oy[q] == x;
                                assert(years@[q] == x);
                            } else {
                                assert(years@[years.len() - 1] == x);
                            }
                        }
                        assert forall|a: int| 0 <= a < years.len() implies #[trigger] counts@[a] == count_of(s2, years@[a]) by {
                            if a < years.len() - 1 {
                                assert(years@[a] != y);
                            }
                        }
                    }
                }
                proof {
                    seen = s2;
                }
            },
            _ => {
                proof {
                    assert(year_tokens(tracks@.take(i + 1)) =~= seen);
                }
            },
        }
        i = i + 1;
    }
    assert(tracks@.take(tracks.len() as int) =~= tracks@);
    if years.len() == 0 {
        proof {
            if seen.len() > 0 {
                assert(seen.contains(seen[0]));
                assert(years@.contains(seen[0]));
            }
        }
        None
    } else {
        let b = index_of_max(&counts);
        proof {
            assert forall|x: u16| #[trigger] count_of(seen, x) <= count_of(seen, years@[b as int]) by {
                lemma_count_contains(seen, x);
                if seen.contains(x) {
                    assert(years@.contains(x));
                    let m = choose|m: int| 0 <= m < years.len() && years@[m] == x;
                    assert(counts@[m] <= counts@[b as int]);
                }
            }
        }
        Some(years[b])
    }
}

/// The album year: the folder's year when it has one, else the most frequent
/// tagged year, else 0.
pub open spec fn resolved_year_ok(folder_year: u16, tracks: Seq<Track>, r: u16) -> bool {
    if folder_year > 0 {
        r == folder_year
    } else if year_tokens(tracks).len() == 0 {
        r == 0
    } else {
        is_most_frequent(year_tokens(tracks), r)
    }
}

pub fn resolve_album_year(year: u16, tracks: &Vec<Track>) -> (r: u16)
    ensures
        resolved_year_ok(year, tracks@, r),
{
    if year > 0 {
        return year;
    }
    match dominant_year(tracks) {
        Some(y) => y,
        None => year,
    }
}

/// The artist a track counts for: the first name of its artist tag, which
/// may list several names split as a genre field is (`;`, `/`, `\`, `,`,
/// `|`, trimmed, blanks dropped); none when the tag names nobody.
pub open spec fn track_artist_token(t: Track) -> Seq<Seq<char>> {
    match t.track_artist {
        Some(a) => if split_genres(a@).len() > 0 {
            seq![split_genres(a@)[0]]
        } else {
            Seq::empty()
        },
        None => Seq::empty(),
    }
}

/// Track artists named by the tracks, in order.
pub open spec fn artist_tokens(ts: Seq<Track>) -> Seq<Seq<char>>
    decreases ts.len(),
{
    if ts.len() == 0 {
        Seq::empty()
    } else {
        artist_tokens(ts.drop_last()) + track_artist_token(ts.last())
    }
}

/// The first name of a track's artist tag (see `track_artist_token`).
pub fn first_track_artist(t: &Track) -> (r: Option<String>)
    ensures
        match r {
            Some(a) => track_artist_token(*t) == seq![a@],
            None => track_artist_token(*t) == Seq::<Seq<char>>::empty(),
        },
{
    match &t.track_artist {
        Some(a) => {
            let parts = split_genre_field(a.as_str());
            if parts.len() > 0 {
                proof {
                    assert(parts@.map_values(|g: String| g@)[0] == parts@[0]@);
                }
                Some(parts[0].clone())
            } else {
                None
            }
        },
        None => None,
    }
}

/// Every token lower-cased.
pub open spec fn lowercase_all(toks: Seq<Seq<char>>) -> Seq<Seq<char>> {
    toks.map_values(|a: Seq<char>| lowercase(a))
}

/// `toks[q]` is `n` and no earlier token equals `n` case aside.
pub open spec fn first_spelling(toks: Seq<Seq<char>>, q: int, n: Seq<char>) -> bool {
    &&& 0 <= q < toks.len()
    &&& toks[q] == n
    &&& forall|j: int| 0 <= j < q ==> lowercase(#[trigger] toks[j]) != lowercase(n)
}

/// `n` is the first spelling of an artist whose name, case aside, is most
/// frequent among the tracks.
pub open spec fn dominant_artist_ok(ts: Seq<Track>, r: Option<String>) -> bool {
    &&& r is None ==> artist_tokens(ts).len() == 0
    &&& r matches Some(n) ==> dominant_artist_is(ts, n@)
}

/// `n` is a first spelling of an artist whose name, case aside, is most
/// frequent among the tracks.
pub open spec fn dominant_artist_is(ts: Seq<Track>, n: Seq<char>) -> bool {
    &&& exists|i: int| #[trigger] first_spelling(artist_tokens(ts), i, n)
    &&& is_most_frequent(lowercase_all(artist_tokens(ts)), lowercase(n))
}

proof fn lemma_artist_tokens_len(ts: Seq<Track>)
    ensures
        artist_tokens(ts).len() <= ts.len(),
    decreases ts.len(),
{
    if ts.len() > 0 {
        lemma_artist_tokens_len(ts.drop_last());
    }
}

/// The track artist, case aside, that most tracks name (first spelling kept).
pub fn dominant_track_artist(tracks: &Vec<Track>) -> (r: Option<String>)
    ensures
        dominant_artist_ok(tracks@, r),
{
    let mut keys: Vec<Vec<char>> = Vec::new();
    let mut names: Vec<Vec<char>> = Vec::new();
    let mut counts: Vec<usize> = Vec::new();
    let ghost mut toks = Seq::<Seq<char>>::empty();
    let ghost mut seen = Seq::<Seq<char>>::empty();
    let ghost mut pos = Seq::<int>::empty();
    let mut i: usize = 0;
    assert(tracks@.take(0) =~= Seq::<Track>::empty());
    while i < tracks.len()
        invariant
            i <= tracks.len(),
            toks == artist_tokens(tracks@.take(i as int)),
            seen == lowercase_all(toks),
            toks.len() <= i,
            tally_ok(seen, views(keys@), counts@),
            names.len() == keys.len(),
            forall|a: int| 0 <= a < keys.len() ==> #[trigger] keys@[a]@ == lowercase(names@[a]@),
            pos.len() == names.len(),
            forall|a: int| 0 <= a < names.len() ==> #[trigger] first_spelling(toks, pos[a], names@[a]@),
        decreases tracks.len() - i,
    {
        proof {
            assert(tracks@.take(i + 1).drop_last() =~= tracks@.take(i as int));
        }
        let first = first_track_artist(&tracks[i]);
        match first {
            Some(a) => {
                let lower = to_lowercase(a.as_str());
                let key = chars_of(lower.as_str());
                let ghost t2 = toks.push(a@);
                let ghost s2 = seen.push(key@);
                proof {
                    assert(artist_tokens(tracks@.take(i + 1)) =~= t2);
                    assert(lowercase_all(t2) =~= s2);
                    lemma_count_bound(seen, key@);
                }
                let ghost old_keys = views(keys@);
                let ghost kv = key@;
                let found = find_key(&keys, &key);
                let known = found.is_some();
                proof {
                    if !known {
                        assert(!old_keys.contains(kv)) by {
                            if old_keys.contains(kv) {
                                let m = choose|m: int| 0 <= m < old_keys.len() && old_keys[m] == kv;
                                assert(keys@[m]@ == kv);
                            }
                        }
                    } else {
                        let f = found.unwrap() as int;
                        assert(old_keys[f] == kv);
                    }
                }
                let ghost old_names = names@;
                tally_add(&mut keys, &mut counts, key, Ghost(seen));
                if !known {
                    let nm = chars_of(a.as_str());
                    names.push(nm);
                }
                proof {
                    let nk = views(keys@);
                    assert forall|m: int| 0 <= m < keys.len() implies #[trigger] keys@[m]@ == lowercase(names@[m]@) by {
                        if m < old_keys.len() {
                            assert(nk[m] == old_keys[m]);
                        } else {
                            assert(nk[m] == kv);
                        }
                    }
                    let new_pos = if known { pos } else { pos.push(toks.len() as int) };
                    assert forall|m: int| 0 <= m < names.len() implies #[trigger] first_spelling(t2, new_pos[m], names@[m]@) by {
                        if m < old_keys.len() {
                            assert(names@[m] == old_names[m]);
                            assert(new_pos[m] == pos[m]);
                            assert(first_spelling(toks, pos[m], old_names[m]@));
                            let q = pos[m];
                            assert(t2[q] == names@[m]@);
                            assert forall|j: int| 0 <= j < q implies lowercase(#[trigger] t2[j]) != lowercase(names@[m]@) by {
                                assert(t2[j] == toks[j]);
                            }
                        } else {
                            let q = toks.len() as int;
                            assert(new_pos[m] == q);
                            assert(t2[q] == names@[m]@);
                            assert forall|j: int| 0 <= j < q implies lowercase(#[trigger] t2[j]) != lowercase(names@[m]@) by {
                                assert(t2[j] == toks[j]);
                                assert(seen[j] == lowercase(toks[j]));
                                assert(seen.contains(seen[j]));
                                assert(old_keys.contains(seen[j]));
                            }
                        }
                    }
                    pos = new_pos;
                }
                proof {
                    toks = t2;
                    seen = s2;
                }
            },
            None => {
                proof {
                    assert(artist_tokens(tracks@.take(i + 1)) =~= toks);
                }
            },
        }
        i = i + 1;
    }
    assert(tracks@.take(tracks.len() as int) =~= tracks@);
    if keys.len() == 0 {
        proof {
            lemma_tally_empty(seen, views(keys@), counts@);
            assert(toks.len() == seen.len());
            assert(dominant_artist_ok(tracks@, None));
        }
        None
    } else {
        let b = index_of_max(&counts);
        proof {
            lemma_tally_max(seen, views(keys@), counts@, b as int);
            assert(views(keys@)[b as int] == lowercase(names@[b as int]@));
            assert(names@[b as int] == names@[b as int]);
            let q = pos[b as int];
            assert(first_spelling(toks, q, names@[b as int]@));
            assert(first_spelling(artist_tokens(tracks@), q, names@[b as int]@));
            assert(seen == lowercase_all(artist_tokens(tracks@)));
        }
        let r = string_from_chars(&names[b]);
        proof {
            let q = pos[b as int];
            assert(r@ == names@[b as int]@);
            assert(first_spelling(artist_tokens(tracks@), q, r@));
            assert(is_most_frequent(lowercase_all(artist_tokens(tracks@)), lowercase(r@)));
            assert(exists|i: int| #[trigger] first_spelling(artist_tokens(tracks@), i, r@));
            assert(dominant_artist_is(tracks@, r@));
        }
        Some(r)
    }
}

/// The artist an album is filed under: the dominant track artist, else
/// `Unknown Artist`.
pub open spec fn artist_name_ok(ts: Seq<Track>, r: Seq<char>) -> bool {
    if artist_tokens(ts).len() == 0 {
        r == crate::library::unknown_artist_name()
    } else {
        dominant_artist_is(ts, r)
    }
}

/// Name of the artist that a set of tracks is filed under.
pub fn artist_name_for_tracks(tracks: &Vec<Track>) -> (r: String)
    ensures
        artist_name_ok(tracks@, r@),
{
    match dominant_track_artist(tracks) {
        Some(n) => n,
        None => String::from_str("Unknown Artist"),
    }
}

/// Sum of the tracks' durations in seconds.
pub open spec fn total_secs(ts: Seq<Track>) -> nat
    decreases ts.len(),
{
    if ts.len() == 0 {
        0
    } else {
        total_secs(ts.drop_last()) + ts.last().duration_secs as nat
    }
}

proof fn lemma_total_secs_mono(ts: Seq<Track>, n: int)
    requires
        0 <= n <= ts.len(),
    ensures
        total_secs(ts.take(n)) <= total_secs(ts),
    decreases ts.len() - n,
{
    if n < ts.len() {
        lemma_total_secs_mono(ts, n + 1);
        assert(ts.take(n + 1).drop_last() =~= ts.take(n));
    } else {
        assert(ts.take(n) =~= ts);
    }
}

/// Total duration of an album's tracks.
pub fn total_duration_secs(tracks: &Vec<Track>) -> (r: u32)
    requires
        total_secs(tracks@) <= u32::MAX,
    ensures
        r == total_secs(tracks@),
{
    let mut sum: u32 = 0;
    let mut i: usize = 0;
    assert(tracks@.take(0) =~= Seq::<Track>::empty());
    while i < tracks.len()
        invariant
            i <= tracks.len(),
            sum == total_secs(tracks@.take(i as int)),
            total_secs(tracks@) <= u32::MAX,
        decreases tracks.len() - i,
    {
        proof {
            assert(tracks@.take(i + 1).drop_last() =~= tracks@.take(i as int));
            lemma_total_secs_mono(tracks@, i + 1);
        }
        sum = sum + tracks[i].duration_secs;
        i = i + 1;
    }
    assert(tracks@.take(tracks.len() as int) =~= tracks@);
    sum
}

/// A track carries a usable embedded cover.
pub open spec fn has_embedded_cover(t: Track) -> bool {
    t.embedded_cover matches Some(c) && c.data.len() > 0
}

/// Index of the first track whose embedded cover is not empty.
pub fn first_embedded_cover(tracks: &Vec<Track>) -> (r: Option<usize>)
    ensures
        match r {
            Some(i) => i < tracks.len() && has_embedded_cover(tracks@[i as int]) && forall|j: int|
                0 <= j < i ==> !has_embedded_cover(#[trigger] tracks@[j]),
            None => forall|j: int| 0 <= j < tracks.len() ==> !has_embedded_cover(#[trigger] tracks@[j]),
        },
{
    let mut i: usize = 0;
    while i < tracks.len()
        invariant
            i <= tracks.len(),
            forall|j: int| 0 <= j < i ==> !has_embedded_cover(#[trigger] tracks@[j]),
        decreases tracks.len() - i,
    {
        match &tracks[i].embedded_cover {
            Some(c) => {
                if c.data.len() > 0 {
                    return Some(i);
                }
            },
            None => {},
        }
        i = i + 1;
    }
    None
}

/// An album built from scanned tracks: year from the folder name or the
/// tags, dominant tagged genre, total duration.
pub open spec fn assembled(
    title: String,
    folder_year: u16,
    tracks: Seq<Track>,
    path: String,
    cover: Option<CoverArt>,
    r: Album,
) -> bool {
    &&& r.title == title
    &&& resolved_year_ok(folder_year, tracks, r.year)
    &&& r.tracks@ == tracks
    &&& dominant(genre_tokens(tracks), r.genre)
    &&& r.path == path
    &&& r.total_duration_secs == total_secs(tracks)
    &&& r.cover == cover
}

/// Builds an album from its scanned tracks.
pub fn assemble_album(
    title: String,
    folder_year: u16,
    tracks: Vec<Track>,
    path: String,
    cover: Option<CoverArt>,
) -> (r: Album)
    requires
        genre_tokens(tracks@).len() < usize::MAX,
        total_secs(tracks@) <= u32::MAX,
    ensures
        assembled(title, folder_year, tracks@, path, cover, r),
{
    let year = resolve_album_year(folder_year, &tracks);
    let genre = dominant_genre(&tracks);
    let total = total_duration_secs(&tracks);
    Album { title, year, tracks, genre, path, total_duration_secs: total, cover }
}

/// `t` with its genre replaced.
pub open spec fn with_genre(t: Track, g: Option<String>) -> Track {
    Track { genre: g, ..t }
}

/// What a genre edit does to each track.
pub enum GenreEdit {
    /// Nothing changes.
    Keep,
    /// The album and every track get this genre.
    SetAll(Option<String>),
    /// The album gets this genre; tracks without one get it too.
    FillMissing(String),
}

pub open spec fn edit_track(t: Track, e: GenreEdit) -> Track {
    match e {
        GenreEdit::Keep => t,
        GenreEdit::SetAll(g) => with_genre(t, g),
        GenreEdit::FillMissing(g) => if t.genre is None {
            with_genre(t, Some(g))
        } else {
            t
        },
    }
}

pub open spec fn edit_album_genre(g: Option<String>, e: GenreEdit) -> Option<String> {
    match e {
        GenreEdit::Keep => g,
        GenreEdit::SetAll(n) => n,
        GenreEdit::FillMissing(n) => Some(n),
    }
}

pub open spec fn edit_tracks(ts: Seq<Track>, e: GenreEdit) -> Seq<Track> {
    ts.map_values(|t: Track| edit_track(t, e))
}

/// `new` is `old` after the genre edit `e`, with the given year.
pub open spec fn album_edited(old: Album, new: Album, e: GenreEdit, year: u16) -> bool {
    &&& new.title == old.title
    &&& new.year == year
    &&& new.tracks@ == edit_tracks(old.tracks@, e)
    &&& new.genre == edit_album_genre(old.genre, e)
    &&& new.path == old.path
    &&& new.total_duration_secs == old.total_duration_secs
    &&& new.cover == old.cover
}

fn edit_track_genre(t: &mut Track, e: &GenreEdit)
    ensures
        *final(t) == edit_track(*old(t), *e),
{
    match e {
        GenreEdit::Keep => {},
        GenreEdit::SetAll(g) => {
            t.genre = clone_opt_string(g);
        },
        GenreEdit::FillMissing(g) => {
            if t.genre.is_none() {
                t.genre = Some(g.clone());
            }
        },
    }
}

/// Applies a genre edit to an album and its tracks.
fn apply_genre_edit(album: &mut Album, e: &GenreEdit)
    ensures
        album_edited(*old(album), *final(album), *e, old(album).year),
{
    let mut src: Vec<Track> = Vec::new();
    std::mem::swap(&mut src, &mut album.tracks);
    let ghost orig = src@;
    assert(orig.len() == src.len());
    let mut out: Vec<Track> = Vec::new();
    let mut k: usize = 0;
    while src.len() > 0
        invariant
            k + src.len() == orig.len(),
            orig.len() <= usize::MAX,
            src@ == orig.skip(k as int),
            out@ == edit_tracks(orig.take(k as int), *e),
        decreases src.len(),
    {
        let mut t = src.remove(0);
        edit_track_genre(&mut t, e);
        out.push(t);
        proof {
            assert(orig.skip(k as int)[0] == orig[k as int]);
            assert(orig.skip(k + 1) =~= orig.skip(k as int).remove(0));
            assert(edit_tracks(orig.take(k + 1), *e) =~= edit_tracks(orig.take(k as int), *e).push(
                edit_track(orig[k as int], *e),
            ));
        }
        k = k + 1;
    }
    assert(orig.take(k as int) =~= orig);
    album.tracks = out;
    album.genre = match e {
        GenreEdit::Keep => clone_opt_string(&album.genre),
        GenreEdit::SetAll(g) => clone_opt_string(g),
        GenreEdit::FillMissing(g) => Some(g.clone()),
    };
}

/// Sets the album genre and the genre of every track.
pub fn apply_album_genre(album: &mut Album, genre: Option<String>)
    ensures
        album_edited(*old(album), *final(album), GenreEdit::SetAll(genre), old(album).year),
{
    apply_genre_edit(album, &GenreEdit::SetAll(genre));
}

/// Sets the album genre, and the genre of tracks that have none.
pub fn apply_album_genre_if_missing(album: &mut Album, genre: &str)
    ensures
        exists|g: String|
            #![trigger album_edited(*old(album), *final(album), GenreEdit::FillMissing(g), old(album).year)]
            g@ == genre@ && album_edited(*old(album), *final(album), GenreEdit::FillMissing(g), old(album).year),
{
    let g = String::from_str(genre);
    let e = GenreEdit::FillMissing(g);
    apply_genre_edit(album, &e);
}

/// `i` is the first artist with this name.
pub open spec fn first_named(artists: Seq<Artist>, name: Seq<char>, i: int) -> bool {
    &&& 0 <= i < artists.len()
    &&& artists[i].name@ == name
    &&& forall|j: int| 0 <= j < i ==> (#[trigger] artists[j]).name@ != name
}

pub open spec fn none_named(artists: Seq<Artist>, name: Seq<char>) -> bool {
    forall|j: int| 0 <= j < artists.len() ==> (#[trigger] artists[j]).name@ != name
}

/// Files an album under an artist: appended to the first artist of that name
/// (whose genre becomes the dominant genre of all its tracks), or to a new
/// artist appended at the end.
pub open spec fn album_filed(old: Seq<Artist>, new: Seq<Artist>, name: String, album: Album) -> bool {
    if none_named(old, name@) {
        &&& new.len() == old.len() + 1
        &&& forall|j: int| 0 <= j < old.len() ==> #[trigger] new[j] == old[j]
        &&& new.last().name == name
        &&& new.last().albums@ == seq![album]
        &&& dominant(genre_tokens(album.tracks@), new.last().genre)
    } else {
        exists|i: int|
            #![trigger first_named(old, name@, i)]
            first_named(old, name@, i) && new.len() == old.len() && (forall|j: int|
                0 <= j < old.len() && j != i ==> #[trigger] new[j] == old[j]) && new[i].name
                == old[i].name && new[i].albums@ == old[i].albums@.push(album) && dominant(
                albums_genre_tokens(new[i].albums@),
                new[i].genre,
            )
    }
}

proof fn lemma_albums_genre_tokens_push(albums: Seq<Album>, a: Album)
    ensures
        albums_genre_tokens(albums.push(a)) == albums_genre_tokens(albums) + genre_tokens(a.tracks@),
{
    assert(albums.push(a).drop_last() =~= albums);
}

/// Files an album under the artist of the given name.
pub fn add_album_to_artists(artists: &mut Vec<Artist>, artist_name: String, album: Album)
    requires
        forall|j: int|
            0 <= j < old(artists).len() ==> albums_genre_tokens(#[trigger] old(artists)@[j].albums@).len()
                + genre_tokens(album.tracks@).len() < usize::MAX,
        genre_tokens(album.tracks@).len() < usize::MAX,
    ensures
        album_filed(old(artists)@, final(artists)@, artist_name, album),
{
    let mut i: usize = 0;
    while i < artists.len()
        invariant
            i <= artists.len(),
            forall|j: int| 0 <= j < i ==> (#[trigger] artists@[j]).name@ != artist_name@,
        ensures
            i <= artists.len(),
            forall|j: int| 0 <= j < i ==> (#[trigger] artists@[j]).name@ != artist_name@,
            i < artists.len() ==> artists@[i as int].name@ == artist_name@,
        decreases artists.len() - i,
    {
        if artists[i].name == artist_name {
            break;
        }
        i = i + 1;
    }
    if i < artists.len() {
        let ghost before = artists@;
        proof {
            assert(first_named(before, artist_name@, i as int));
            lemma_albums_genre_tokens_push(before[i as int].albums@, album);
        }
        let mut a = artists.remove(i);
        a.albums.push(album);
        a.genre = dominant_genre_of_albums(&a.albums);
        artists.insert(i, a);
        proof {
            assert(!none_named(before, artist_name@)) by {
                assert(before[i as int].name@ == artist_name@);
            }
            assert forall|j: int| 0 <= j < before.len() && j != i implies #[trigger] artists@[j] == before[j] by {
                if j < i {
                    assert(artists@[j] == before[j]);
                } else {
                    assert(artists@[j] == before[j]);
                }
            }
        }
    } else {
        let ghost before = artists@;
        let genre = dominant_genre(&album.tracks);
        let mut albums: Vec<Album> = Vec::new();
        albums.push(album);
        artists.push(Artist { name: artist_name, albums, genre });
        proof {
            assert(albums@ =~= seq![album]);
            assert forall|j: int| 0 <= j < before.len() implies #[trigger] artists@[j] == before[j] by {}
        }
    }
}

/// Locks from a user edit, applied to an album: an edited genre replaces the
/// album's and every track's; an edited year replaces the year (0 when unset).
pub open spec fn override_applied(old: Album, new: Album, o: Option<UserMetadataOverride>, locks: MetadataLocks) -> bool {
    match o {
        None => new == old && locks == MetadataLocks { genre: false, year: false },
        Some(m) => {
            &&& locks.genre == m.genre_overridden
            &&& locks.year == m.year_overridden
            &&& album_edited(
                old,
                new,
                if m.genre_overridden {
                    GenreEdit::SetAll(m.genre)
                } else {
                    GenreEdit::Keep
                },
                if m.year_overridden {
                    match m.year {
                        Some(y) => y,
                        None => 0,
                    }
                } else {
                    old.year
                },
            )
        },
    }
}

/// Applies the user's edit of an album's genre and year, if any.
pub fn apply_metadata_override(album: &mut Album, user_override: &Option<UserMetadataOverride>) -> (locks: MetadataLocks)
    ensures
        override_applied(*old(album), *final(album), *user_override, locks),
{
    let mut locks = MetadataLocks { genre: false, year: false };
    match user_override {
        Some(m) => {
            if m.genre_overridden {
                locks.genre = true;
                apply_album_genre(album, clone_opt_string(&m.genre));
            } else {
                apply_genre_edit(album, &GenreEdit::Keep);
            }
            if m.year_overridden {
                album.year = match m.year {
                    Some(y) => y,
                    None => 0,
                };
                locks.year = true;
            }
        },
        None => {},
    }
    locks
}

/// Genre from a merge of the album's genre with an online one: the online
/// genre wins when the enrichment is confirmed, else it only fills a gap.
pub open spec fn spec_merge_genre(current: Option<String>, online: Option<String>, confirmed: bool) -> Option<String> {
    if confirmed {
        match online {
            Some(g) => Some(g),
            None => current,
        }
    } else {
        match current {
            Some(g) => Some(g),
            None => online,
        }
    }
}

/// Year from a merge of the album's year with an online one: a known online
/// year wins when the enrichment is confirmed, else it only fills a gap.
pub open spec fn spec_merge_year(current: u16, online: Option<u16>, confirmed: bool) -> u16 {
    if confirmed {
        match online {
            Some(y) if y > 0 => y,
            _ => current,
        }
    } else if current > 0 {
        current
    } else {
        match online {
            Some(y) => y,
            None => 0,
        }
    }
}

pub fn merge_genre(current: Option<String>, online: Option<String>, confirmed: bool) -> (r: Option<String>)
    ensures
        r == spec_merge_genre(current, online, confirmed),
{
    if confirmed {
        match online {
            Some(g) => Some(g),
            None => current,
        }
    } else {
        match current {
            Some(g) => Some(g),
            None => online,
        }
    }
}

pub fn merge_year(current: u16, online: Option<u16>, confirmed: bool) -> (r: u16)
    ensures
        r == spec_merge_year(current, online, confirmed),
{
    if confirmed {
        match online {
            Some(y) if y > 0 => y,
            _ => current,
        }
    } else if current > 0 {
        current
    } else {
        match online {
            Some(y) => y,
            None => 0,
        }
    }
}

/// The genre edit that online metadata brings to an album (after the user's
/// edit, which locks the genre when it sets one).
pub open spec fn online_genre_edit(album_genre: Option<String>, online: Option<String>, confirmed: bool) -> GenreEdit {
    match spec_merge_genre(album_genre, online, confirmed) {
        Some(g) => if confirmed {
            GenreEdit::SetAll(Some(g))
        } else if album_genre is None {
            GenreEdit::FillMissing(g)
        } else {
            GenreEdit::Keep
        },
        None => GenreEdit::Keep,
    }
}

/// Merges online metadata into an album. A user edit (`user_override`) is
/// applied first and locks what it sets; the online genre and year then fill
/// in or replace the rest as `spec_merge_genre` and `spec_merge_year` say.
pub fn merge_album_online_metadata(
    album: &mut Album,
    user_override: &Option<UserMetadataOverride>,
    metadata: &OnlineMetadata,
    enrichment_confirmed: bool,
)
    ensures
        exists|mid: Album, locks: MetadataLocks|
            #![trigger override_applied(*old(album), mid, *user_override, locks)]
            override_applied(*old(album), mid, *user_override, locks) && album_edited(
                mid,
                *final(album),
                if locks.genre {
                    GenreEdit::Keep
                } else {
                    online_genre_edit(mid.genre, metadata.genre, enrichment_confirmed)
                },
                if !locks.year && spec_merge_year(mid.year, metadata.year, enrichment_confirmed) > 0 {
                    spec_merge_year(mid.year, metadata.year, enrichment_confirmed)
                } else {
                    mid.year
                },
            ),
{
    let locks = apply_metadata_override(album, user_override);
    let ghost mid = *album;
    if !locks.genre {
        let merged = merge_genre(clone_opt_string(&album.genre), clone_opt_string(&metadata.genre), enrichment_confirmed);
        match merged {
            Some(genre) => {
                if enrichment_confirmed {
                    apply_genre_edit(album, &GenreEdit::SetAll(Some(genre)));
                } else if album.genre.is_none() {
                    apply_genre_edit(album, &GenreEdit::FillMissing(genre));
                } else {
                    apply_genre_edit(album, &GenreEdit::Keep);
                }
            },
            None => {
                apply_genre_edit(album, &GenreEdit::Keep);
            },
        }
    } else {
        apply_genre_edit(album, &GenreEdit::Keep);
    }
    if !locks.year {
        let merged_year = merge_year(album.year, metadata.year, enrichment_confirmed);
        if merged_year > 0 {
            album.year = merged_year;
        }
    }
    proof {
        assert(override_applied(*old(album), mid, *user_override, locks));
    }
}

/// A user's edit wins over online metadata: when the user set the genre,
/// the merged album and every one of its tracks have that genre; when the
/// user set the year, the album has that year (0 when cleared).
pub proof fn lemma_user_edit_wins(
    old: Album,
    mid: Album,
    fin: Album,
    m: UserMetadataOverride,
    metadata: OnlineMetadata,
    confirmed: bool,
    locks: MetadataLocks,
)
    requires
        override_applied(old, mid, Some(m), locks),
        album_edited(
            mid,
            fin,
            if locks.genre {
                GenreEdit::Keep
            } else {
                online_genre_edit(mid.genre, metadata.genre, confirmed)
            },
            if !locks.year && spec_merge_year(mid.year, metadata.year, confirmed) > 0 {
                spec_merge_year(mid.year, metadata.year, confirmed)
            } else {
                mid.year
            },
        ),
    ensures
        m.genre_overridden ==> fin.genre == m.genre && forall|i: int|
            0 <= i < fin.tracks.len() ==> (#[trigger] fin.tracks@[i]).genre == m.genre,
        m.year_overridden ==> fin.year == (match m.year {
            Some(y) => y,
            None => 0,
        }),
{
    if m.genre_overridden {
        assert forall|i: int| 0 <= i < fin.tracks.len() implies (#[trigger] fin.tracks@[i]).genre == m.genre by {
            assert(fin.tracks@ == edit_tracks(mid.tracks@, GenreEdit::Keep));
            assert(mid.tracks@ == edit_tracks(old.tracks@, GenreEdit::SetAll(m.genre)));
        }
    }
}

} // verus!
