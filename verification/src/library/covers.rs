//! Album covers: which image of a folder is the cover, where a cover is
//! cached, and whether an album takes its cover from a track, from the cache
//! or from its folder.
use vstd::prelude::*;

use crate::library::album::{first_embedded_cover, has_embedded_cover};
use crate::library::cache::{hash_path_and_time, hex, hex_string, std_hash_path_secs};
use crate::library::names::{
    cover_rank, cover_rank_of, embedded_cover_extension, file_extension, is_image_file, is_image_name,
    spec_embedded_cover_extension,
};
use crate::library::{CoverArt, Track};
use crate::paths::{file_name_of, file_name_of_path, join, join_path};
use crate::text::{chars_less, chars_of, lemma_seq_lt_irreflexive, lemma_seq_lt_total, lemma_seq_lt_trans, seq_lt, string_from_chars};
use crate::ui::cells::{push_chars, push_str};

verus! {

/// `Path::extension` of a path.
pub open spec fn path_extension(p: Seq<char>) -> Option<Seq<char>> {
    match file_name_of_path(p) {
        Some(n) => file_extension(n),
        None => None,
    }
}

/// The name of a cached cover: the hexadecimal hash of the source path and
/// its modification time, a dot, the extension.
pub open spec fn cover_cache_name(path: Seq<char>, modified_secs: u64, extension: Seq<char>) -> Seq<char> {
    hex(std_hash_path_secs(path, modified_secs) as nat) + seq!['.'] + extension
}

pub fn cache_cover_filename_with_extension(path: &str, modified_secs: u64, extension: &str) -> (r: String)
    ensures
        r@ == cover_cache_name(path@, modified_secs, extension@),
{
    let h = hash_path_and_time(path, modified_secs);
    let hs = hex_string(h);
    let mut v = chars_of(hs.as_str());
    v.push('.');
    push_str(&mut v, extension);
    string_from_chars(&v)
}

/// The name of a cached copy of a cover file, with the file's own extension
/// (`img` when it has none).
pub fn cache_cover_filename(path: &str, modified_secs: u64) -> (r: String)
    ensures
        r@ == cover_cache_name(
            path@,
            modified_secs,
            match path_extension(path@) {
                Some(e) => e,
                None => "img"@,
            },
        ),
{
    let ext: String = match file_name_of(path) {
        Some(name) => {
            let v = chars_of(name.as_str());
            match crate::library::names::extension_bounds(&v) {
                Some(i) => crate::text::string_of_range(&v, i, v.len()),
                None => "img".to_owned(),
            }
        },
        None => "img".to_owned(),
    };
    cache_cover_filename_with_extension(path, modified_secs, ext.as_str())
}

/// `(rank, name)` of `a` comes no later than that of `b`.
pub open spec fn cover_no_later(a: Seq<char>, b: Seq<char>) -> bool {
    cover_rank(a) < cover_rank(b) || (cover_rank(a) == cover_rank(b) && !seq_lt(b, a))
}

/// The cover of a folder among the names of its files: an image whose
/// (rank, name) is the least; none without images.
pub open spec fn is_best_cover(names: Seq<Seq<char>>, r: Option<usize>) -> bool {
    match r {
        Some(i) => {
            &&& i < names.len()
            &&& is_image_name(names[i as int])
            &&& forall|j: int|
                0 <= j < names.len() && is_image_name(#[trigger] names[j]) ==> cover_no_later(names[i as int], names[j])
        },
        None => forall|j: int| 0 <= j < names.len() ==> !is_image_name(#[trigger] names[j]),
    }
}

/// Picks the cover among the files of a folder (their names).
pub fn pick_cover_file(names: &Vec<String>) -> (r: Option<usize>)
    ensures
        is_best_cover(names@.map_values(|n: String| n@), r),
{
    let ghost ns = names@.map_values(|n: String| n@);
    let mut best: Option<usize> = None;
    let mut best_rank: usize = 0;
    let mut best_name: Vec<char> = Vec::new();
    let mut i: usize = 0;
    while i < names.len()
        invariant
            i <= names.len(),
            ns == names@.map_values(|n: String| n@),
            match best {
                Some(b) => {
                    &&& b < i
                    &&& is_image_name(ns[b as int])
                    &&& best_rank == cover_rank(ns[b as int])
                    &&& best_name@ == ns[b as int]
                    &&& forall|j: int| 0 <= j < i && is_image_name(#[trigger] ns[j]) ==> cover_no_later(ns[b as int], ns[j])
                },
                None => forall|j: int| 0 <= j < i ==> !is_image_name(#[trigger] ns[j]),
            },
        decreases names.len() - i,
    {
        let name = names[i].as_str();
        proof {
            assert(ns[i as int] == names@[i as int]@);
        }
        if is_image_file(name) {
            let rank = cover_rank_of(name);
            let v = chars_of(name);
            let better = match best {
                None => true,
                Some(_) => rank < best_rank || (rank == best_rank && chars_less(&v, &best_name)),
            };
            if better {
                proof {
                    if let Some(b) = best {
                        assert forall|j: int| 0 <= j < i + 1 && is_image_name(#[trigger] ns[j]) implies cover_no_later(ns[i as int], ns[j]) by {
                            if j < i {
                                assert(cover_no_later(ns[b as int], ns[j]));
                                if cover_rank(ns[i as int]) == cover_rank(ns[j]) && seq_lt(ns[j], ns[i as int]) {
                                    lemma_seq_lt_trans(ns[j], ns[i as int], ns[b as int]);
                                    if cover_rank(ns[b as int]) == cover_rank(ns[j]) {
                                        lemma_seq_lt_trans(ns[b as int], ns[j], ns[b as int]);
                                        lemma_seq_lt_irreflexive(ns[b as int]);
                                    }
                                }
                            } else {
                                lemma_seq_lt_irreflexive(ns[j]);
                            }
                        }
                    } else {
                        assert forall|j: int| 0 <= j < i + 1 && is_image_name(#[trigger] ns[j]) implies cover_no_later(ns[i as int], ns[j]) by {
                            lemma_seq_lt_irreflexive(ns[j]);
                        }
                    }
                }
                best = Some(i);
                best_rank = rank;
                best_name = v;
            } else {
                proof {
                    let b = best.unwrap();
                    assert(cover_no_later(ns[b as int], ns[i as int])) by {
                        lemma_seq_lt_total(ns[i as int], ns[b as int]);
                    }
                }
            }
        }
        i = i + 1;
    }
    best
}

/// Where the cover of an album comes from.
#[derive(Debug, Clone, Copy, PartialEq, Eq, Structural)]
pub enum CoverPlan {
    /// The picture embedded in this track.
    Embedded(usize),
    /// The cover kept in the album's cache file.
    Cached,
    /// An image of the album folder.
    ScanFolder,
}

/// A picture embedded in a track wins (the first track that has a non-empty
/// one); then the cached cover; then an image of the folder.
pub open spec fn spec_cover_plan(tracks: Seq<Track>, has_cached_cover: bool, r: CoverPlan) -> bool {
    match r {
        CoverPlan::Embedded(i) => i < tracks.len() && has_embedded_cover(tracks[i as int]) && forall|j: int|
            0 <= j < i ==> !has_embedded_cover(#[trigger] tracks[j]),
        CoverPlan::Cached => has_cached_cover && forall|j: int|
            0 <= j < tracks.len() ==> !has_embedded_cover(#[trigger] tracks[j]),
        CoverPlan::ScanFolder => !has_cached_cover && forall|j: int|
            0 <= j < tracks.len() ==> !has_embedded_cover(#[trigger] tracks[j]),
    }
}

/// Decides where the cover of an album comes from.
pub fn plan_album_cover(tracks: &Vec<Track>, has_cached_cover: bool) -> (r: CoverPlan)
    ensures
        spec_cover_plan(tracks@, has_cached_cover, r),
{
    match first_embedded_cover(tracks) {
        Some(i) => CoverPlan::Embedded(i),
        None => if has_cached_cover {
            CoverPlan::Cached
        } else {
            CoverPlan::ScanFolder
        },
    }
}

/// The cached copy of a track's embedded picture: named after the track
/// and its modification time, with the extension its MIME type gives.
pub fn embedded_cover_art(cache_dir: &str, track_path: &str, modified_secs: u64, mime_type: Option<&str>) -> (r:
    CoverArt)
    ensures
        r.source_path@ == track_path@,
        r.cached_path@ == join_path(
            cache_dir@,
            cover_cache_name(
                track_path@,
                modified_secs,
                spec_embedded_cover_extension(
                    match mime_type {
                        Some(m) => Some(m@),
                        None => None,
                    },
                ),
            ),
        ),
        r.modified_secs == modified_secs,
{
    let ext = embedded_cover_extension(mime_type);
    let name = cache_cover_filename_with_extension(track_path, modified_secs, ext.as_str());
    let cached_path = join(cache_dir, name.as_str());
    CoverArt { source_path: track_path.to_owned(), cached_path, modified_secs }
}

/// The cached copy of a cover image found in an album folder.
pub fn folder_cover_art(cache_dir: &str, source_path: &str, modified_secs: u64) -> (r: CoverArt)
    ensures
        r.source_path@ == source_path@,
        r.cached_path@ == join_path(
            cache_dir@,
            cover_cache_name(
                source_path@,
                modified_secs,
                match path_extension(source_path@) {
                    Some(e) => e,
                    None => "img"@,
                },
            ),
        ),
        r.modified_secs == modified_secs,
{
    let name = cache_cover_filename(source_path, modified_secs);
    let cached_path = join(cache_dir, name.as_str());
    CoverArt { source_path: source_path.to_owned(), cached_path, modified_secs }
}

} // verus!
