//! The lists the views show, taken from the catalog: artists, genres and
//! albums with their ids, filtered by the search query and ordered by name.
use vstd::prelude::*;

use crate::library::catalog::{catalog_tokens, genres_listed};
use crate::library::sorting::{is_order_of, sort_order, sorted_by};
use crate::library::tally::views;
use crate::library::{Album as LibraryAlbum, Artist as LibraryArtist, Catalog};
use crate::text::chars_of;
use crate::ui::search::{normalize_text, normalized, normalized_contains, normalized_query, occurs_in};
use crate::ui::state::{Album, Artist, Genre};

verus! {

/// The keys of the given positions.
pub open spec fn keys_at(items: Seq<usize>, keys: Seq<Seq<char>>) -> Seq<Seq<char>> {
    items.map_values(|i: usize| keys[i as int])
}

/// `r` is `items` ordered by `keys` (the key of each item, in the same
/// order), stably.
pub open spec fn ordered_as(items: Seq<usize>, keys: Seq<Seq<char>>, r: Seq<usize>) -> bool {
    exists|order: Seq<usize>|
        #![trigger is_order_of(order, items.len() as int)]
        is_order_of(order, items.len() as int) && sorted_by(keys, order) && r.len() == items.len() && forall|k: int|
            0 <= k < r.len() ==> #[trigger] r[k] == items[order[k] as int]
}

/// The artists of the catalog, numbered in order.
pub fn artists_from_catalog(catalog: &Catalog) -> (r: Vec<Artist>)
    ensures
        r.len() == catalog.artists.len(),
        forall|i: int| 0 <= i < r.len() ==> (#[trigger] r@[i]).id == i && r@[i].name == catalog.artists@[i].name,
{
    let mut r: Vec<Artist> = Vec::new();
    let mut i: usize = 0;
    while i < catalog.artists.len()
        invariant
            i <= catalog.artists.len(),
            r.len() == i,
            forall|k: int| 0 <= k < i ==> (#[trigger] r@[k]).id == k && r@[k].name == catalog.artists@[k].name,
        decreases catalog.artists.len() - i,
    {
        r.push(Artist { id: i, name: catalog.artists[i].name.clone() });
        i = i + 1;
    }
    r
}

/// Positions of the names that match the query (all of them without one).
pub open spec fn matching(names: Seq<Seq<char>>, query: Option<Seq<char>>) -> Seq<usize>
    decreases names.len(),
{
    if names.len() == 0 {
        Seq::empty()
    } else {
        let before = matching(names.drop_last(), query);
        let keep = match query {
            Some(q) => occurs_in(q, normalized(names.last())),
            None => true,
        };
        if keep {
            before.push((names.len() - 1) as usize)
        } else {
            before
        }
    }
}

pub open spec fn query_of(query: Seq<char>) -> Option<Seq<char>> {
    if crate::text::trim(query).len() == 0 {
        None
    } else {
        Some(normalized(crate::text::trim(query)))
    }
}

pub open spec fn normalized_names(names: Seq<Seq<char>>) -> Seq<Seq<char>> {
    names.map_values(|n: Seq<char>| normalized(n))
}

proof fn lemma_matching_bounds(names: Seq<Seq<char>>, query: Option<Seq<char>>)
    ensures
        forall|k: int| 0 <= k < matching(names, query).len() ==> #[trigger] matching(names, query)[k] < names.len(),
        matching(names, query).len() <= names.len(),
    decreases names.len(),
{
    if names.len() > 0 {
        lemma_matching_bounds(names.drop_last(), query);
    }
}

/// Whether a name is listed for a search query: always for a blank query;
/// else when the query, trimmed and normalized, occurs in the normalized
/// name (so case and accents do not matter).
pub open spec fn search_hit(query: Seq<char>, name: Seq<char>) -> bool {
    crate::text::trim(query).len() == 0 || occurs_in(normalized(crate::text::trim(query)), normalized(name))
}

proof fn lemma_matching_members(names: Seq<Seq<char>>, query: Seq<char>)
    requires
        names.len() <= usize::MAX,
    ensures
        forall|j: int|
            0 <= j < names.len() ==> (matching(names, query_of(query)).contains(j as usize) <==> search_hit(
                query,
                #[trigger] names[j],
            )),
    decreases names.len(),
{
    if names.len() > 0 {
        let d = names.drop_last();
        lemma_matching_members(d, query);
        lemma_matching_bounds(d, query_of(query));
        let before = matching(d, query_of(query));
        let m = matching(names, query_of(query));
        let last = (names.len() - 1) as usize;
        assert forall|j: int| 0 <= j < names.len() implies (m.contains(j as usize) <==> search_hit(
            query,
            #[trigger] names[j],
        )) by {
            if j < names.len() - 1 {
                assert(names[j] == d[j]);
                if m.contains(j as usize) {
                    let k = choose|k: int| 0 <= k < m.len() && m[k] == j as usize;
                    if k < before.len() {
                        assert(before[k] == m[k]);
                    }
                }
                if before.contains(j as usize) {
                    let k = choose|k: int| 0 <= k < before.len() && before[k] == j as usize;
                    assert(m[k] == before[k]);
                }
            } else {
                if m.contains(j as usize) {
                    let k = choose|k: int| 0 <= k < m.len() && m[k] == j as usize;
                    if k < before.len() {
                        assert(before[k] < d.len());
                    }
                }
                if search_hit(query, names[j]) {
                    assert(m[before.len() as int] == last);
                }
            }
        }
    }
}

/// The search lists exactly the names the query hits: a position is among
/// the listed ones if and only if `search_hit` holds of its name, and every
/// listed position is one of the names.
pub proof fn lemma_filter_lists_hits(names: Seq<Seq<char>>, query: Seq<char>, p: Seq<usize>)
    requires
        names.len() <= usize::MAX,
        filter_order(names, query, p),
    ensures
        forall|k: int| 0 <= k < p.len() ==> #[trigger] p[k] < names.len(),
        forall|i: int| 0 <= i < names.len() ==> (p.contains(i as usize) <==> search_hit(query, #[trigger] names[i])),
{
    let items = matching(names, query_of(query));
    lemma_matching_bounds(names, query_of(query));
    lemma_matching_members(names, query);
    let keys = keys_at(items, normalized_names(names));
    let order = choose|order: Seq<usize>|
        #![trigger is_order_of(order, items.len() as int)]
        is_order_of(order, items.len() as int) && sorted_by(keys, order) && p.len() == items.len() && forall|k: int|
            0 <= k < p.len() ==> #[trigger] p[k] == items[order[k] as int];
    assert forall|k: int| 0 <= k < p.len() implies #[trigger] p[k] < names.len() by {
        assert(order[k] < items.len());
    }
    assert forall|i: int| 0 <= i < names.len() implies (p.contains(i as usize) <==> search_hit(
        query,
        #[trigger] names[i],
    )) by {
        if p.contains(i as usize) {
            let k = choose|k: int| 0 <= k < p.len() && p[k] == i as usize;
            assert(order[k] < items.len());
            assert(items[order[k] as int] == i as usize);
            assert(items.contains(i as usize));
        }
        if items.contains(i as usize) {
            let m = choose|m: int| 0 <= m < items.len() && items[m] == i as usize;
            assert(order.contains(m as usize));
            let k = choose|k: int| 0 <= k < order.len() && order[k] == m as usize;
            assert(order[k] as int == m);
            assert(p[k] == items[m]);
            assert(p.contains(i as usize));
        }
    }
}

/// Positions of the names to list: those matching the search query, ordered
/// by their normalized form (equal forms keep their order).
fn filtered_positions(names: &Vec<String>, query: &str) -> (r: Vec<usize>)
    ensures
        ordered_as(
            matching(names@.map_values(|n: String| n@), query_of(query@)),
            keys_at(
                matching(names@.map_values(|n: String| n@), query_of(query@)),
                normalized_names(names@.map_values(|n: String| n@)),
            ),
            r@,
        ),
        forall|i: int| 0 <= i < names.len() ==> (r@.contains(i as usize) <==> search_hit(query@, #[trigger] names@[i]@)),
{
    let ghost ns = names@.map_values(|n: String| n@);
    let q = normalized_query(query);
    let ghost qs = query_of(query@);
    proof {
        match &q {
            Some(x) => assert(qs == Some(x@)),
            None => assert(qs is None),
        }
    }
    let mut kept: Vec<usize> = Vec::new();
    let mut i: usize = 0;
    proof {
        assert(ns.take(0) =~= Seq::<Seq<char>>::empty());
    }
    while i < names.len()
        invariant
            i <= names.len(),
            ns == names@.map_values(|n: String| n@),
            match q {
                Some(x) => qs == Some(x@),
                None => qs is None,
            },
            kept@ == matching(ns.take(i as int), qs),
        decreases names.len() - i,
    {
        proof {
            assert(ns.take(i + 1).drop_last() =~= ns.take(i as int));
            assert(ns.take(i + 1).last() == names@[i as int]@);
        }
        let keep = match &q {
            Some(x) => normalized_contains(x.as_str(), names[i].as_str()),
            None => true,
        };
        if keep {
            kept.push(i);
        }
        i = i + 1;
    }
    proof {
        assert(ns.take(names.len() as int) =~= ns);
        lemma_matching_bounds(ns, qs);
    }
    let mut keys: Vec<Vec<char>> = Vec::new();
    let mut k: usize = 0;
    while k < kept.len()
        invariant
            k <= kept.len(),
            kept@ == matching(ns, qs),
            forall|m: int| 0 <= m < kept.len() ==> #[trigger] kept@[m] < names.len(),
            ns == names@.map_values(|n: String| n@),
            keys.len() == k,
            forall|m: int| 0 <= m < k ==> (#[trigger] keys@[m])@ == normalized(ns[kept@[m] as int]),
        decreases kept.len() - k,
    {
        let n = normalize_text(names[kept[k]].as_str());
        keys.push(chars_of(n.as_str()));
        k = k + 1;
    }
    let order = sort_order(&keys);
    let mut r: Vec<usize> = Vec::new();
    let mut m: usize = 0;
    while m < order.len()
        invariant
            m <= order.len(),
            is_order_of(order@, keys.len() as int),
            keys.len() == kept.len(),
            r.len() == m,
            forall|j: int| 0 <= j < m ==> #[trigger] r@[j] == kept@[order@[j] as int],
        decreases order.len() - m,
    {
        r.push(kept[order[m]]);
        m = m + 1;
    }
    proof {
        let nn = normalized_names(ns);
        let kk = views(keys@);
        assert(kk =~= keys_at(kept@, nn)) by {
            assert forall|j: int| 0 <= j < kk.len() implies kk[j] == keys_at(kept@, nn)[j] by {
                assert(kk[j] == keys@[j]@);
                assert(nn[kept@[j] as int] == normalized(ns[kept@[j] as int]));
            }
        }
        assert(is_order_of(order@, kept@.len() as int));
        assert(filter_order(ns, query@, r@));
        lemma_filter_lists_hits(ns, query@, r@);
        assert forall|i: int| 0 <= i < names.len() implies (r@.contains(i as usize) <==> search_hit(
            query@,
            #[trigger] names@[i]@,
        )) by {
            assert(ns[i] == names@[i]@);
        }
    }
    r
}

pub open spec fn artist_names(a: Seq<LibraryArtist>) -> Seq<Seq<char>> {
    a.map_values(|x: LibraryArtist| x.name@)
}

/// `p` lists the positions of the names that match the query, ordered by
/// normalized name (equal names keep their order).
pub open spec fn filter_order(names: Seq<Seq<char>>, query: Seq<char>, p: Seq<usize>) -> bool {
    ordered_as(matching(names, query_of(query)), keys_at(matching(names, query_of(query)), normalized_names(names)), p)
}

/// The artists to list: those whose name matches the search query, ordered
/// by normalized name; each keeps the id of its place in the catalog.
pub fn filtered_artists(catalog: &Catalog, query: &str) -> (r: Vec<Artist>)
    ensures
        exists|p: Seq<usize>|
            #![trigger filter_order(artist_names(catalog.artists@), query@, p)]
            filter_order(artist_names(catalog.artists@), query@, p) && r.len() == p.len() && forall|k: int|
                0 <= k < r.len() ==> (#[trigger] r@[k]).id == p[k] && p[k] < catalog.artists.len()
                    && r@[k].name == catalog.artists@[p[k] as int].name,
        forall|i: int|
            0 <= i < catalog.artists.len() ==> ((exists|k: int| 0 <= k < r.len() && (#[trigger] r@[k]).id == i)
                <==> search_hit(query@, catalog.artists@[i].name@)),
{
    let mut names: Vec<String> = Vec::new();
    let mut i: usize = 0;
    while i < catalog.artists.len()
        invariant
            i <= catalog.artists.len(),
            names.len() == i,
            forall|k: int| 0 <= k < i ==> #[trigger] names@[k] == catalog.artists@[k].name,
        decreases catalog.artists.len() - i,
    {
        names.push(catalog.artists[i].name.clone());
        i = i + 1;
    }
    proof {
        assert(names@.map_values(|n: String| n@) =~= artist_names(catalog.artists@));
    }
    let pos = filtered_positions(&names, query);
    proof {
        let ns = names@.map_values(|n: String| n@);
        lemma_matching_bounds(ns, query_of(query@));
        let order = choose|order: Seq<usize>|
            is_order_of(order, matching(ns, query_of(query@)).len() as int) && sorted_by(
                keys_at(matching(ns, query_of(query@)), normalized_names(ns)),
                order,
            ) && pos@.len() == matching(ns, query_of(query@)).len() && forall|k: int|
                0 <= k < pos@.len() ==> #[trigger] pos@[k] == matching(ns, query_of(query@))[order[k] as int];
        assert forall|k: int| 0 <= k < pos@.len() implies #[trigger] pos@[k] < names.len() by {
            assert(order[k] < matching(ns, query_of(query@)).len());
        }
    }
    let mut r: Vec<Artist> = Vec::new();
    let mut k: usize = 0;
    while k < pos.len()
        invariant
            k <= pos.len(),
            names.len() == catalog.artists.len(),
            forall|m: int| 0 <= m < names.len() ==> #[trigger] names@[m] == catalog.artists@[m].name,
            forall|m: int| 0 <= m < pos.len() ==> #[trigger] pos@[m] < names.len(),
            r.len() == k,
            forall|m: int|
                0 <= m < k ==> (#[trigger] r@[m]).id == pos@[m] && r@[m].name == catalog.artists@[pos@[m] as int].name,
        decreases pos.len() - k,
    {
        let j = pos[k];
        r.push(Artist { id: j, name: names[j].clone() });
        k = k + 1;
    }
    proof {
        assert(filter_order(artist_names(catalog.artists@), query@, pos@));
        assert forall|i: int|
            0 <= i < catalog.artists.len() implies ((exists|k: int| 0 <= k < r.len() && (#[trigger] r@[k]).id == i)
            <==> search_hit(query@, catalog.artists@[i].name@)) by {
            assert(names@[i]@ == catalog.artists@[i].name@);
            if pos@.contains(i as usize) {
                let k = choose|k: int| 0 <= k < pos@.len() && pos@[k] == i as usize;
                assert(r@[k].id == i);
            }
            if exists|k: int| 0 <= k < r.len() && (#[trigger] r@[k]).id == i {
                let k = choose|k: int| 0 <= k < r.len() && (#[trigger] r@[k]).id == i;
                assert(pos@[k] == i as usize);
                assert(pos@.contains(i as usize));
            }
        }
    }
    r
}

/// The genres of the catalog, numbered in order (see `Catalog::genres`).
pub fn genres_from_catalog(catalog: &Catalog) -> (r: Vec<Genre>)
    requires
        catalog_tokens(catalog.artists@).len() < usize::MAX,
    ensures
        exists|gs: Seq<crate::library::GenreSummary>|
            #![trigger genres_listed(catalog_tokens(catalog.artists@), gs)]
            genres_listed(catalog_tokens(catalog.artists@), gs) && r.len() == gs.len() && forall|k: int|
                0 <= k < r.len() ==> (#[trigger] r@[k]).id == k && r@[k].name == gs[k].name && r@[k].track_count
                    == gs[k].track_count,
{
    let gs = catalog.genres();
    let mut r: Vec<Genre> = Vec::new();
    let mut k: usize = 0;
    while k < gs.len()
        invariant
            k <= gs.len(),
            r.len() == k,
            forall|m: int|
                0 <= m < k ==> (#[trigger] r@[m]).id == m && r@[m].name == gs@[m].name && r@[m].track_count
                    == gs@[m].track_count,
        decreases gs.len() - k,
    {
        r.push(Genre { id: k, name: gs[k].name.clone(), track_count: gs[k].track_count });
        k = k + 1;
    }
    r
}

/// Positions (artist, album) of the albums of the catalog, in order.
pub open spec fn album_positions(artists: Seq<LibraryArtist>) -> Seq<(int, int)>
    decreases artists.len(),
{
    if artists.len() == 0 {
        Seq::empty()
    } else {
        album_positions(artists.drop_last()) + Seq::new(
            artists.last().albums.len() as nat,
            |j: int| ((artists.len() - 1) as int, j),
        )
    }
}

proof fn lemma_album_positions_valid(artists: Seq<LibraryArtist>)
    ensures
        forall|k: int|
            0 <= k < album_positions(artists).len() ==> 0 <= (#[trigger] album_positions(artists)[k]).0
                < artists.len() && 0 <= album_positions(artists)[k].1 < artists[album_positions(artists)[k].0].albums.len(),
    decreases artists.len(),
{
    if artists.len() > 0 {
        let d = artists.drop_last();
        lemma_album_positions_valid(d);
        let p = album_positions(artists);
        let q = album_positions(d);
        assert forall|k: int| 0 <= k < p.len() implies 0 <= (#[trigger] p[k]).0 < artists.len() && 0 <= p[k].1
            < artists[p[k].0].albums.len() by {
            if k < q.len() {
                assert(p[k] == q[k]);
                assert(d[q[k].0] == artists[q[k].0]);
            }
        }
    }
}

/// The album row of the catalog at (artist, album).
pub open spec fn album_row(artists: Seq<LibraryArtist>, id: int, pos: (int, int), r: Album) -> bool {
    let artist = artists[pos.0];
    let album = artist.albums@[pos.1];
    &&& r.id == id
    &&& r.title == album.title
    &&& r.artist == artist.name
    &&& r.year == (if album.year == 0 {
        None
    } else {
        Some(album.year as u32)
    })
    &&& r.cover_path == (match album.cover {
        Some(c) => Some(c.cached_path),
        None => None,
    })
}

fn album_row_of(artist: &LibraryArtist, album: &LibraryAlbum, id: usize) -> (r: Album)
    ensures
        r.id == id,
        r.title == album.title,
        r.artist == artist.name,
        r.year == (if album.year == 0 {
            None
        } else {
            Some(album.year as u32)
        }),
        r.cover_path == (match album.cover {
            Some(c) => Some(c.cached_path),
            None => None,
        }),
{
    Album {
        id,
        title: album.title.clone(),
        artist: artist.name.clone(),
        year: if album.year == 0 {
            None
        } else {
            Some(album.year as u32)
        },
        cover_path: match &album.cover {
            Some(c) => Some(c.cached_path.clone()),
            None => None,
        },
    }
}

/// The albums of the catalog, numbered in order across artists.
pub fn albums_from_catalog(catalog: &Catalog) -> (r: Vec<Album>)
    ensures
        r.len() == album_positions(catalog.artists@).len(),
        forall|k: int| 0 <= k < r.len() ==> album_row(catalog.artists@, k, album_positions(catalog.artists@)[k], #[trigger] r@[k]),
{
    let ghost arts = catalog.artists@;
    let mut r: Vec<Album> = Vec::new();
    let mut i: usize = 0;
    assert(arts.take(0) =~= Seq::<LibraryArtist>::empty());
    while i < catalog.artists.len()
        invariant
            i <= catalog.artists.len(),
            arts == catalog.artists@,
            r.len() == album_positions(arts.take(i as int)).len(),
            forall|k: int| 0 <= k < r.len() ==> album_row(arts, k, album_positions(arts.take(i as int))[k], #[trigger] r@[k]),
            forall|k: int| 0 <= k < album_positions(arts.take(i as int)).len() ==> (#[trigger] album_positions(arts.take(i as int))[k]).0 < i,
        decreases catalog.artists.len() - i,
    {
        let artist = &catalog.artists[i];
        let ghost before = album_positions(arts.take(i as int));
        let ghost after = album_positions(arts.take(i + 1));
        proof {
            assert(arts.take(i + 1).drop_last() =~= arts.take(i as int));
            assert(after == before + Seq::new(artist.albums.len() as nat, |j: int| (i as int, j)));
        }
        let mut j: usize = 0;
        while j < artist.albums.len()
            invariant
                j <= artist.albums.len(),
                artist == &arts[i as int],
                arts == catalog.artists@,
                r.len() == before.len() + j,
                after == before + Seq::new(artist.albums.len() as nat, |j: int| (i as int, j)),
                forall|k: int| 0 <= k < r.len() ==> album_row(arts, k, after[k], #[trigger] r@[k]),
            decreases artist.albums.len() - j,
        {
            let id = r.len();
            let row = album_row_of(artist, &artist.albums[j], id);
            proof {
                assert(after[id as int] == (i as int, j as int));
            }
            r.push(row);
            j = j + 1;
        }
        proof {
            assert forall|k: int| 0 <= k < after.len() implies (#[trigger] after[k]).0 < i + 1 by {
                if k < before.len() {
                    assert(after[k] == before[k]);
                }
            }
        }
        i = i + 1;
    }
    assert(arts.take(arts.len() as int) =~= arts);
    r
}

/// The (artist, album) position of the album with this id.
pub fn album_entry_by_id(catalog: &Catalog, album_id: usize) -> (r: Option<(usize, usize)>)
    ensures
        match r {
            Some((a, b)) => album_id < album_positions(catalog.artists@).len() && album_positions(catalog.artists@)[album_id as int] == (a as int, b as int),
            None => album_id >= album_positions(catalog.artists@).len(),
        },
{
    let ghost arts = catalog.artists@;
    let mut id: usize = 0;
    let mut i: usize = 0;
    assert(arts.take(0) =~= Seq::<LibraryArtist>::empty());
    while i < catalog.artists.len()
        invariant
            i <= catalog.artists.len(),
            arts == catalog.artists@,
            id == album_positions(arts.take(i as int)).len(),
            id <= album_id,
        decreases catalog.artists.len() - i,
    {
        let ghost before = album_positions(arts.take(i as int));
        proof {
            assert(arts.take(i + 1).drop_last() =~= arts.take(i as int));
            lemma_album_positions_prefix(arts, i + 1);
        }
        let n = catalog.artists[i].albums.len();
        if album_id - id < n {
            let j = album_id - id;
            proof {
                let after = album_positions(arts.take(i + 1));
                assert(after[album_id as int] == (i as int, j as int));
            }
            return Some((i, j));
        }
        id = id + n;
        i = i + 1;
    }
    assert(arts.take(arts.len() as int) =~= arts);
    None
}

proof fn lemma_album_positions_prefix(arts: Seq<LibraryArtist>, n: int)
    requires
        0 <= n <= arts.len(),
    ensures
        forall|k: int| 0 <= k < album_positions(arts.take(n)).len() ==> album_positions(arts.take(n))[k] == #[trigger] album_positions(arts)[k],
        album_positions(arts.take(n)).len() <= album_positions(arts).len(),
    decreases arts.len() - n,
{
    if n < arts.len() {
        lemma_album_positions_prefix(arts, n + 1);
        assert(arts.take(n + 1).drop_last() =~= arts.take(n));
    } else {
        assert(arts.take(n) =~= arts);
    }
}

pub open spec fn summary_names(gs: Seq<crate::library::GenreSummary>) -> Seq<Seq<char>> {
    gs.map_values(|g: crate::library::GenreSummary| g.name@)
}

/// The genres to list: those whose name matches the search query, ordered
/// by normalized name; each keeps the id of its place in the genre list.
pub fn filtered_genres(catalog: &Catalog, query: &str) -> (r: Vec<Genre>)
    requires
        catalog_tokens(catalog.artists@).len() < usize::MAX,
    ensures
        exists|gs: Seq<crate::library::GenreSummary>, p: Seq<usize>|
            #![trigger genres_listed(catalog_tokens(catalog.artists@), gs), filter_order(summary_names(gs), query@, p)]
            genres_listed(catalog_tokens(catalog.artists@), gs) && filter_order(summary_names(gs), query@, p)
                && r.len() == p.len() && forall|k: int|
                0 <= k < r.len() ==> (#[trigger] r@[k]).id == p[k] && p[k] < gs.len() && r@[k].name == gs[p[k] as int].name
                    && r@[k].track_count == gs[p[k] as int].track_count,
{
    let gs = catalog.genres();
    let mut names: Vec<String> = Vec::new();
    let mut i: usize = 0;
    while i < gs.len()
        invariant
            i <= gs.len(),
            names.len() == i,
            forall|k: int| 0 <= k < i ==> #[trigger] names@[k] == gs@[k].name,
        decreases gs.len() - i,
    {
        names.push(gs[i].name.clone());
        i = i + 1;
    }
    proof {
        assert(names@.map_values(|n: String| n@) =~= summary_names(gs@));
    }
    let pos = filtered_positions(&names, query);
    proof {
        let ns = names@.map_values(|n: String| n@);
        lemma_matching_bounds(ns, query_of(query@));
        let order = choose|order: Seq<usize>|
            is_order_of(order, matching(ns, query_of(query@)).len() as int) && sorted_by(
                keys_at(matching(ns, query_of(query@)), normalized_names(ns)),
                order,
            ) && pos@.len() == matching(ns, query_of(query@)).len() && forall|k: int|
                0 <= k < pos@.len() ==> #[trigger] pos@[k] == matching(ns, query_of(query@))[order[k] as int];
        assert forall|k: int| 0 <= k < pos@.len() implies #[trigger] pos@[k] < names.len() by {
            assert(order[k] < matching(ns, query_of(query@)).len());
        }
    }
    let mut r: Vec<Genre> = Vec::new();
    let mut k: usize = 0;
    while k < pos.len()
        invariant
            k <= pos.len(),
            names.len() == gs.len(),
            forall|m: int| 0 <= m < pos.len() ==> #[trigger] pos@[m] < names.len(),
            r.len() == k,
            forall|m: int|
                0 <= m < k ==> (#[trigger] r@[m]).id == pos@[m] && r@[m].name == gs@[pos@[m] as int].name
                    && r@[m].track_count == gs@[pos@[m] as int].track_count,
        decreases pos.len() - k,
    {
        let j = pos[k];
        r.push(Genre { id: j, name: gs[j].name.clone(), track_count: gs[j].track_count });
        k = k + 1;
    }
    proof {
        assert(filter_order(summary_names(gs@), query@, pos@));
        assert(genres_listed(catalog_tokens(catalog.artists@), gs@));
    }
    r
}

} // verus!
