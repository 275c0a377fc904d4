//! The scan cache: an index of track signatures keyed by the track's path
//! relative to the library, one file per album folder, and the decisions
//! that tell when a cached value can be used.
use std::hash::{Hash, Hasher};

use vstd::prelude::*;

use crate::library::Album;
use crate::paths::{join, join_path, relative_path, spec_relative_path};
use crate::text::{chars_eq, chars_of, string_from_chars};
use crate::library::names::{file_extension, file_stem, extension_bounds, stem_end};

verus! {

/// Name of the cache folder at the library root.
pub const CACHE_DIRNAME: &'static str = ".grape_cache";

/// Name of the index file inside the cache folder.
pub const INDEX_FILENAME: &'static str = "index.json";

/// Folder of the per-album cache files.
pub const FOLDERS_DIRNAME: &'static str = "folders";

/// Folder of the cached covers.
pub const COVER_DIRNAME: &'static str = "covers";

/// Folder of the cached online metadata.
pub const METADATA_DIRNAME: &'static str = "metadata";

/// Version of the index format written now.
pub const CACHE_VERSION: u32 = 4;

/// What identifies the content of a track file: its modification time and
/// a hash of its size and modification time.
#[derive(Debug, Clone, Copy, PartialEq, Eq, Structural)]
pub struct TrackEntry {
    pub modified_secs: u64,
    pub hash: u64,
}

impl TrackEntry {
    /// Whether the indexed entry still describes the file.
    pub fn matches_signature(&self, signature: &TrackEntry) -> (r: bool)
        ensures
            r == (*self == *signature),
    {
        self.modified_secs == signature.modified_secs && self.hash == signature.hash
    }
}

/// What std's `DefaultHasher` (created by `new`) gives for a `u64` then
/// another `u64`. Such hashers are unseeded and all alike, so this holds for
/// one toolchain and target: std may change the algorithm between releases,
/// and integers are hashed in the machine's byte order.
pub uninterp spec fn std_hash_u64_pair(a: u64, b: u64) -> u64;

/// What std's `DefaultHasher` (created by `new`) gives for a `str`, for one
/// toolchain and target (see `std_hash_u64_pair`).
pub uninterp spec fn std_hash_str(s: Seq<char>) -> u64;

/// What std's `DefaultHasher` (created by `new`) gives for a `Path` then a
/// `u64`, for one toolchain and target (see `std_hash_u64_pair`).
pub uninterp spec fn std_hash_path_secs(path: Seq<char>, secs: u64) -> u64;

/// Calls std's `DefaultHasher` on a file size then a modification time.
/// Trusted claim: the result is `std_hash_u64_pair` of the two values (a
/// hasher from `DefaultHasher::new` is unseeded, so equal inputs hash alike).
#[verifier::external_body]
fn hash_size_and_time(file_len: u64, modified_secs: u64) -> (r: u64)
    ensures
        r == std_hash_u64_pair(file_len, modified_secs),
{
    let mut hasher = std::collections::hash_map::DefaultHasher::new();
    file_len.hash(&mut hasher);
    modified_secs.hash(&mut hasher);
    hasher.finish()
}

/// Calls std's `DefaultHasher` on a string. Trusted claim: the result is
/// `std_hash_str` of its characters.
#[verifier::external_body]
pub(crate) fn hash_str(value: &str) -> (r: u64)
    ensures
        r == std_hash_str(value@),
{
    let mut hasher = std::collections::hash_map::DefaultHasher::new();
    value.hash(&mut hasher);
    hasher.finish()
}

/// Calls std's `DefaultHasher` on a path then a modification time. Trusted
/// claim: the result is `std_hash_path_secs` of the two.
#[verifier::external_body]
pub(crate) fn hash_path_and_time(path: &str, modified_secs: u64) -> (r: u64)
    ensures
        r == std_hash_path_secs(path@, modified_secs),
{
    let mut hasher = std::collections::hash_map::DefaultHasher::new();
    std::path::Path::new(path).hash(&mut hasher);
    modified_secs.hash(&mut hasher);
    hasher.finish()
}

/// The signature of a track file from its size and modification time (read
/// from the file system by the caller).
pub fn signature_of(file_len: u64, modified_secs: u64) -> (r: TrackEntry)
    ensures
        r == (TrackEntry { modified_secs, hash: std_hash_u64_pair(file_len, modified_secs) }),
{
    TrackEntry { modified_secs, hash: hash_size_and_time(file_len, modified_secs) }
}

pub open spec fn hex_digit(d: nat) -> char {
    if d < 10 {
        ((48 + d) as u32) as char
    } else {
        ((87 + d) as u32) as char
    }
}

/// `{:x}`: lower-case hexadecimal digits, no leading zeros.
pub open spec fn hex(n: nat) -> Seq<char>
    decreases n,
{
    if n < 16 {
        seq![hex_digit(n)]
    } else {
        hex(n / 16).push(hex_digit(n % 16))
    }
}

fn push_hex(out: &mut Vec<char>, n: u64)
    ensures
        final(out)@ == old(out)@ + hex(n as nat),
    decreases n,
{
    if n >= 16 {
        push_hex(out, n / 16);
    }
    let d = n % 16;
    let c: char = if d < 10 {
        ((d as u8) + 48) as char
    } else {
        ((d as u8) + 87) as char
    };
    out.push(c);
}

/// `n` as `{:x}` prints it.
pub fn hex_string(n: u64) -> (r: String)
    ensures
        r@ == hex(n as nat),
{
    let mut v: Vec<char> = Vec::new();
    push_hex(&mut v, n);
    assert(v@ =~= hex(n as nat));
    string_from_chars(&v)
}

/// The key of a track in the index: its path relative to the library root.
pub fn track_key(root: &str, track_path: &str) -> (r: String)
    ensures
        r@ == spec_relative_path(root@, track_path@),
{
    relative_path(root, track_path)
}

/// The key of an album folder: the hexadecimal hash of its path relative to
/// the library root.
pub fn album_key(root: &str, album_path: &str) -> (r: String)
    ensures
        r@ == hex(std_hash_str(spec_relative_path(root@, album_path@)) as nat),
{
    let relative = relative_path(root, album_path);
    let h = hash_str(relative.as_str());
    hex_string(h)
}

/// `root/.grape_cache/index.json`.
pub fn index_path(root: &str) -> (r: String)
    ensures
        r@ == join_path(join_path(root@, CACHE_DIRNAME@), INDEX_FILENAME@),
{
    let dir = join(root, CACHE_DIRNAME);
    join(dir.as_str(), INDEX_FILENAME)
}

/// `root/.grape_cache/folders/<key>.json`.
pub fn folder_cache_path(root: &str, key: &str) -> (r: String)
    ensures
        r@ == join_path(
            join_path(join_path(root@, CACHE_DIRNAME@), FOLDERS_DIRNAME@),
            key@ + ".json"@,
        ),
{
    let dir = join(root, CACHE_DIRNAME);
    let folders = join(dir.as_str(), FOLDERS_DIRNAME);
    let mut name: Vec<char> = chars_of(key);
    crate::ui::cells::push_str(&mut name, ".json");
    let file = string_from_chars(&name);
    join(folders.as_str(), file.as_str())
}

/// `root/.grape_cache/<name>`: the folder of covers or of metadata.
pub fn cache_subdir(root: &str, name: &str) -> (r: String)
    ensures
        r@ == join_path(join_path(root@, CACHE_DIRNAME@), name@),
{
    let dir = join(root, CACHE_DIRNAME);
    join(dir.as_str(), name)
}

/// A folder cache file left by an album that this scan did not store: a
/// `.json` file whose stem is not one of the keys in use.
pub open spec fn is_stale_cache_file(file_name: Seq<char>, used_keys: Seq<Seq<char>>) -> bool {
    &&& file_extension(file_name) == Some("json"@)
    &&& !used_keys.contains(file_stem(file_name))
}

/// Whether a file of the folders cache is stale.
pub fn stale_cache_file(file_name: &str, used_keys: &Vec<String>) -> (r: bool)
    ensures
        r == is_stale_cache_file(file_name@, used_keys@.map_values(|k: String| k@)),
{
    let v = chars_of(file_name);
    let json = chars_of("json");
    match extension_bounds(&v) {
        None => false,
        Some(i) => {
            let ext = crate::text::slice_chars(&v, i, v.len());
            if !chars_eq(&ext, &json) {
                return false;
            }
            let e = stem_end(&v);
            let stem = crate::text::slice_chars(&v, 0, e);
            let ghost keys = used_keys@.map_values(|k: String| k@);
            let mut k: usize = 0;
            while k < used_keys.len()
                invariant
                    k <= used_keys.len(),
                    keys == used_keys@.map_values(|k: String| k@),
                    stem@ == file_stem(file_name@),
                    forall|j: int| 0 <= j < k ==> keys[j] != stem@,
                decreases used_keys.len() - k,
            {
                let kv = chars_of(used_keys[k].as_str());
                if chars_eq(&kv, &stem) {
                    proof {
                        assert(keys[k as int] == stem@);
                    }
                    return false;
                }
                k = k + 1;
            }
            true
        },
    }
}

/// One entry of the index.
#[derive(Debug, Clone)]
pub struct IndexEntry {
    pub key: String,
    pub entry: TrackEntry,
}

/// The index of track signatures, with the format version it was read with.
#[derive(Debug, Clone)]
pub struct CacheIndex {
    version: u32,
    tracks: Vec<IndexEntry>,
    legacy_version: Option<u32>,
}

pub open spec fn index_keys(es: Seq<IndexEntry>) -> Seq<Seq<char>> {
    es.map_values(|e: IndexEntry| e.key@)
}

/// The map from keys to signatures that distinct-keyed entries stand for.
pub open spec fn index_map(es: Seq<IndexEntry>) -> Map<Seq<char>, TrackEntry>
    decreases es.len(),
{
    if es.len() == 0 {
        Map::empty()
    } else {
        index_map(es.drop_last()).insert(es.last().key@, es.last().entry)
    }
}

pub open spec fn distinct_keys(es: Seq<IndexEntry>) -> bool {
    forall|i: int, j: int| 0 <= i < j < es.len() ==> es[i].key@ != es[j].key@
}

proof fn lemma_index_map_dom(es: Seq<IndexEntry>)
    requires
        distinct_keys(es),
    ensures
        forall|x: Seq<char>| #[trigger] index_map(es).dom().contains(x) <==> index_keys(es).contains(x),
        forall|i: int| 0 <= i < es.len() ==> #[trigger] index_map(es)[es[i].key@] == es[i].entry,
    decreases es.len(),
{
    if es.len() > 0 {
        let d = es.drop_last();
        let last = es.last();
        assert(distinct_keys(d)) by {
            assert forall|a: int, b: int| 0 <= a < b < d.len() implies d[a].key@ != d[b].key@ by {
                assert(d[a] == es[a] && d[b] == es[b]);
            }
        }
        lemma_index_map_dom(d);
        assert(index_keys(es) =~= index_keys(d).push(last.key@));
        assert(index_map(es) == index_map(d).insert(last.key@, last.entry));
        assert forall|x: Seq<char>| #[trigger] index_map(es).dom().contains(x) <==> index_keys(es).contains(x) by {
            if x == last.key@ {
                assert(index_keys(es)[d.len() as int] == x);
            } else {
                assert(index_map(es).dom().contains(x) == index_map(d).dom().contains(x));
                if index_keys(d).contains(x) {
                    let k = choose|k: int| 0 <= k < index_keys(d).len() && index_keys(d)[k] == x;
                    assert(index_keys(es)[k] == x);
                }
                if index_keys(es).contains(x) {
                    let k = choose|k: int| 0 <= k < index_keys(es).len() && index_keys(es)[k] == x;
                    assert(k < d.len());
                    assert(index_keys(d)[k] == x);
                }
            }
        }
        assert forall|i: int| 0 <= i < es.len() implies #[trigger] index_map(es)[es[i].key@] == es[i].entry by {
            if i < es.len() - 1 {
                assert(d[i] == es[i]);
                assert(es[i].key@ != last.key@);
                assert(index_keys(d)[i] == es[i].key@);
                assert(index_map(d).dom().contains(es[i].key@));
            }
        }
    }
}

proof fn lemma_replace_entry(before: Seq<IndexEntry>, i: int, entry: TrackEntry, after: Seq<IndexEntry>)
    requires
        distinct_keys(before),
        0 <= i < before.len(),
        after.len() == before.len(),
        after[i].key == before[i].key,
        after[i].entry == entry,
        forall|j: int| 0 <= j < before.len() && j != i ==> after[j] == before[j],
    ensures
        distinct_keys(after),
        index_map(after) == index_map(before).insert(before[i].key@, entry),
{
    assert forall|a: int, b: int| 0 <= a < b < after.len() implies after[a].key@ != after[b].key@ by {
        assert(after[a].key@ == before[a].key@);
        assert(after[b].key@ == before[b].key@);
    }
    lemma_index_map_dom(before);
    lemma_index_map_dom(after);
    let key = before[i].key@;
    let want = index_map(before).insert(key, entry);
    assert forall|x: Seq<char>| #[trigger] index_map(after).dom().contains(x) <==> want.dom().contains(x) by {
        if index_keys(after).contains(x) {
            let m = choose|m: int| 0 <= m < index_keys(after).len() && index_keys(after)[m] == x;
            assert(index_keys(before)[m] == x);
        }
        if index_keys(before).contains(x) {
            let m = choose|m: int| 0 <= m < index_keys(before).len() && index_keys(before)[m] == x;
            assert(index_keys(after)[m] == x);
        }
        if x == key {
            assert(index_keys(after)[i] == x);
        }
    }
    assert forall|x: Seq<char>| #[trigger] index_map(after).dom().contains(x) implies index_map(after)[x] == want[x] by {
        let m = choose|m: int| 0 <= m < index_keys(after).len() && index_keys(after)[m] == x;
        assert(after[m].key@ == x);
        if m != i {
            assert(before[m] == after[m]);
        }
    }
    assert(index_map(after) =~= want);
}

proof fn lemma_push_entry(before: Seq<IndexEntry>, after: Seq<IndexEntry>)
    requires
        distinct_keys(before),
        after.len() == before.len() + 1,
        after.drop_last() == before,
        forall|j: int| 0 <= j < before.len() ==> (#[trigger] before[j]).key@ != after.last().key@,
    ensures
        distinct_keys(after),
        index_map(after) == index_map(before).insert(after.last().key@, after.last().entry),
{
    assert forall|a: int, b: int| 0 <= a < b < after.len() implies after[a].key@ != after[b].key@ by {
        assert(after[a] == after.drop_last()[a] || a == after.len() - 1);
        if b < after.len() - 1 {
            assert(after[b] == before[b]);
            assert(after[a] == before[a]);
        } else {
            assert(after[a] == before[a]);
        }
    }
}

pub open spec fn key_used(us: Seq<Seq<char>>) -> spec_fn(IndexEntry) -> bool {
    |e: IndexEntry| us.contains(e.key@)
}

/// Keeping the entries whose key is used restricts the map to the used keys.
proof fn lemma_filter_entries(es: Seq<IndexEntry>, us: Seq<Seq<char>>)
    requires
        distinct_keys(es),
    ensures
        distinct_keys(es.filter(key_used(us))),
        index_map(es.filter(key_used(us))) == index_map(es).restrict(us.to_set()),
    decreases es.len(),
{
    reveal_with_fuel(Seq::filter, 1);
    if es.len() == 0 {
        assert(index_map(es).restrict(us.to_set()) =~= Map::<Seq<char>, TrackEntry>::empty());
    } else {
        let d = es.drop_last();
        assert(distinct_keys(d)) by {
            assert forall|a: int, b: int| 0 <= a < b < d.len() implies d[a].key@ != d[b].key@ by {
                assert(d[a] == es[a] && d[b] == es[b]);
            }
        }
        lemma_filter_entries(d, us);
        let f = d.filter(key_used(us));
        let last = es.last();
        lemma_index_map_dom(d);
        assert(!index_map(d).dom().contains(last.key@)) by {
            if index_keys(d).contains(last.key@) {
                let m = choose|m: int| 0 <= m < index_keys(d).len() && index_keys(d)[m] == last.key@;
                assert(es[m].key@ == last.key@);
            }
        }
        broadcast use vstd::seq_lib::group_filter_ensures;
        if us.contains(last.key@) {
            assert(es.filter(key_used(us)) == f.push(last));
            assert forall|j: int| 0 <= j < f.len() implies (#[trigger] f[j]).key@ != last.key@ by {
                assert(f.contains(f[j]));
                d.lemma_filter_contains_rev(key_used(us), f[j]);
                let m = choose|m: int| 0 <= m < d.len() && d[m] == f[j];
                assert(es[m] == d[m]);
            }
            assert(f.push(last).drop_last() =~= f);
            lemma_push_entry(f, f.push(last));
            assert(index_map(es).restrict(us.to_set()) =~= index_map(d).restrict(us.to_set()).insert(last.key@, last.entry));
        } else {
            assert(es.filter(key_used(us)) == f);
            assert(!us.to_set().contains(last.key@));
            assert(index_map(es).restrict(us.to_set()) =~= index_map(d).restrict(us.to_set()));
        }
    }
}

impl CacheIndex {
    /// Keys are distinct.
    pub closed spec fn wf(self) -> bool {
        distinct_keys(self.tracks@)
    }

    /// The signatures, by track key.
    pub closed spec fn entries(self) -> Map<Seq<char>, TrackEntry> {
        index_map(self.tracks@)
    }

    pub closed spec fn version(self) -> u32 {
        self.version
    }

    pub closed spec fn legacy_version(self) -> Option<u32> {
        self.legacy_version
    }

    /// An empty index of version 0 (a fresh index before it is written).
    pub fn new() -> (r: Self)
        ensures
            r.wf(),
            r.entries() == Map::<Seq<char>, TrackEntry>::empty(),
            r.version() == 0,
            r.legacy_version() is None,
    {
        CacheIndex { version: 0, tracks: Vec::new(), legacy_version: None }
    }

    /// The index read back from its file: the entries are recorded in the
    /// order given (a later entry replaces an earlier one of the same key).
    /// A file in the older per-folder format (`legacy_format`), or written
    /// with another version, remembers the version it was written with.
    pub fn loaded(version: u32, legacy_format: bool, entries: Vec<IndexEntry>) -> (r: Self)
        ensures
            r.wf(),
            r.entries() == index_map(entries@),
            r.version() == CACHE_VERSION,
            r.legacy_version() == (if legacy_format || version != CACHE_VERSION {
                Some(version)
            } else {
                None
            }),
    {
        let mut idx = CacheIndex { version, tracks: Vec::new(), legacy_version: None };
        let mut i: usize = 0;
        proof {
            assert(entries@.take(0) =~= Seq::<IndexEntry>::empty());
        }
        while i < entries.len()
            invariant
                i <= entries.len(),
                idx.wf(),
                idx.entries() == index_map(entries@.take(i as int)),
                idx.version == version,
                idx.legacy_version is None,
            decreases entries.len() - i,
        {
            proof {
                assert(entries@.take(i + 1).drop_last() =~= entries@.take(i as int));
            }
            let key = entries[i].key.clone();
            idx.insert(key, entries[i].entry);
            i = i + 1;
        }
        proof {
            assert(entries@.take(entries.len() as int) =~= entries@);
        }
        if legacy_format {
            idx.legacy_version = Some(version);
            idx.version = CACHE_VERSION;
        } else {
            idx.upgrade_version();
        }
        idx
    }

    /// The format version, to write the index with.
    pub fn version_number(&self) -> (r: u32)
        ensures
            r == self.version(),
    {
        self.version
    }

    /// The entries, in the order they were first recorded.
    pub fn track_entries(&self) -> (r: &Vec<IndexEntry>)
        requires
            self.wf(),
        ensures
            distinct_keys(r@),
            index_map(r@) == self.entries(),
    {
        &self.tracks
    }

    /// The signature recorded for a track key.
    pub fn lookup(&self, key: &str) -> (r: Option<TrackEntry>)
        requires
            self.wf(),
        ensures
            match r {
                Some(e) => self.entries().dom().contains(key@) && self.entries()[key@] == e,
                None => !self.entries().dom().contains(key@),
            },
    {
        let kv = chars_of(key);
        let mut i: usize = 0;
        while i < self.tracks.len()
            invariant
                i <= self.tracks.len(),
                kv@ == key@,
                distinct_keys(self.tracks@),
                forall|j: int| 0 <= j < i ==> (#[trigger] self.tracks@[j]).key@ != key@,
            decreases self.tracks.len() - i,
        {
            let k = chars_of(self.tracks[i].key.as_str());
            if chars_eq(&k, &kv) {
                proof {
                    lemma_index_map_dom(self.tracks@);
                    assert(index_keys(self.tracks@)[i as int] == key@);
                }
                return Some(self.tracks[i].entry);
            }
            i = i + 1;
        }
        proof {
            lemma_index_map_dom(self.tracks@);
            if index_keys(self.tracks@).contains(key@) {
                let k = choose|k: int| 0 <= k < index_keys(self.tracks@).len() && index_keys(self.tracks@)[k]
                    == key@;
                assert(self.tracks@[k].key@ == key@);
            }
        }
        None
    }

    /// Records the signature of a track, replacing any earlier one.
    pub fn insert(&mut self, key: String, entry: TrackEntry)
        requires
            old(self).wf(),
        ensures
            final(self).wf(),
            final(self).entries() == old(self).entries().insert(key@, entry),
            final(self).version() == old(self).version(),
            final(self).legacy_version() == old(self).legacy_version(),
    {
        let ghost before = self.tracks@;
        let kv = chars_of(key.as_str());
        let mut i: usize = 0;
        while i < self.tracks.len()
            invariant
                i <= self.tracks.len(),
                self.tracks@ == before,
                before == old(self).tracks@,
                distinct_keys(before),
                kv@ == key@,
                self.version == old(self).version,
                self.legacy_version == old(self).legacy_version,
                forall|j: int| 0 <= j < i ==> (#[trigger] self.tracks@[j]).key@ != key@,
            decreases self.tracks.len() - i,
        {
            let k = chars_of(self.tracks[i].key.as_str());
            if chars_eq(&k, &kv) {
                let mut e = self.tracks.remove(i);
                e.entry = entry;
                self.tracks.insert(i, e);
                proof {
                    lemma_replace_entry(before, i as int, entry, self.tracks@);
                }
                return;
            }
            i = i + 1;
        }
        self.tracks.push(IndexEntry { key, entry });
        proof {
            assert(self.tracks@.drop_last() =~= before);
            lemma_push_entry(before, self.tracks@);
        }
    }

    /// Keeps only the entries whose key is in `used`.
    pub fn retain_keys(&mut self, used: &Vec<String>)
        requires
            old(self).wf(),
        ensures
            final(self).wf(),
            final(self).entries() == old(self).entries().restrict(used@.map_values(|k: String| k@).to_set()),
            final(self).version() == old(self).version(),
            final(self).legacy_version() == old(self).legacy_version(),
    {
        let ghost before = self.tracks@;
        let ghost us = used@.map_values(|k: String| k@);
        let mut kept: Vec<IndexEntry> = Vec::new();
        let mut rest: Vec<IndexEntry> = Vec::new();
        std::mem::swap(&mut rest, &mut self.tracks);
        let ghost mut taken: int = 0;
        proof {
            assert(kept@ =~= before.take(0).filter(key_used(us))) by {
                reveal_with_fuel(Seq::filter, 1);
            }
        }
        while rest.len() > 0
            invariant
                taken + rest.len() == before.len(),
                0 <= taken,
                us == used@.map_values(|k: String| k@),
                forall|j: int| 0 <= j < rest.len() ==> #[trigger] rest@[j] == before[taken + j],
                kept@ == before.take(taken).filter(key_used(us)),
                self.version == old(self).version,
                self.legacy_version == old(self).legacy_version,
            decreases rest.len(),
        {
            let e = rest.remove(0);
            let ghost j = taken;
            proof {
                assert(e == before[j]);
                taken = taken + 1;
                assert(before.take(taken).drop_last() =~= before.take(j));
                reveal_with_fuel(Seq::filter, 1);
            }
            let kv = chars_of(e.key.as_str());
            let mut u: usize = 0;
            let mut found = false;
            while u < used.len()
                invariant
                    u <= used.len(),
                    kv@ == e.key@,
                    us == used@.map_values(|k: String| k@),
                    found == us.take(u as int).contains(e.key@),
                decreases used.len() - u,
            {
                let uv = chars_of(used[u].as_str());
                let same = chars_eq(&uv, &kv);
                proof {
                    let t0 = us.take(u as int);
                    let t1 = us.take(u + 1);
                    assert(t1 =~= t0.push(us[u as int]));
                    assert(us[u as int] == used@[u as int]@);
                    assert(t1.contains(e.key@) == (t0.contains(e.key@) || same)) by {
                        if same {
                            assert(t1[u as int] == e.key@);
                        }
                        if t0.contains(e.key@) {
                            let m = choose|m: int| 0 <= m < t0.len() && t0[m] == e.key@;
                            assert(t1[m] == e.key@);
                        }
                        if t1.contains(e.key@) && !same {
                            let m = choose|m: int| 0 <= m < t1.len() && t1[m] == e.key@;
                            assert(m < u);
                            assert(t0[m] == e.key@);
                        }
                    }
                }
                if same {
                    found = true;
                }
                u = u + 1;
            }
            proof {
                assert(us.take(used.len() as int) =~= us);
            }
            if found {
                kept.push(e);
            }
        }
        proof {
            assert(before.take(before.len() as int) =~= before);
            lemma_filter_entries(before, us);
        }
        self.tracks = kept;
    }

    /// The index as the current format has it: an index written with another
    /// version remembers that version as its legacy version.
    pub fn upgrade_version(&mut self)
        requires
            old(self).wf(),
        ensures
            final(self).wf(),
            final(self).entries() == old(self).entries(),
            final(self).version() == CACHE_VERSION,
            final(self).legacy_version() == (if old(self).version() != CACHE_VERSION {
                Some(old(self).version())
            } else {
                old(self).legacy_version()
            }),
    {
        if self.version != CACHE_VERSION {
            self.legacy_version = Some(self.version);
            self.version = CACHE_VERSION;
        }
    }

    /// Sets the format version that the index is written with.
    pub fn set_current_version(&mut self)
        requires
            old(self).wf(),
        ensures
            final(self).wf(),
            final(self).entries() == old(self).entries(),
            final(self).version() == CACHE_VERSION,
            final(self).legacy_version() == old(self).legacy_version(),
    {
        self.version = CACHE_VERSION;
    }
}

/// An album read back from its folder cache file.
pub struct CachedAlbum {
    pub album: Album,
}

/// Where the tags of a track are taken from during a scan with the cache.
#[derive(Debug, Clone, Copy, PartialEq, Eq, Structural)]
pub enum TrackSource {
    /// The track's cached metadata file.
    CachedMetadata,
    /// The track as the album's cache file has it.
    CachedTrack,
    /// The audio file itself.
    Fresh,
}

/// The cached metadata file is worth reading when the index has the track
/// and its signature still matches the file.
pub open spec fn cache_entry_valid(entry: Option<TrackEntry>, signature: Option<TrackEntry>) -> bool {
    entry is Some && signature is Some && entry == signature
}

/// The source of a track's tags: its cached metadata when the index entry and
/// the metadata's own signature both match the file; when the index matches
/// but no cached metadata exists, the track of the album's cache file if it
/// lists it; the audio file otherwise.
pub open spec fn spec_track_source(
    entry: Option<TrackEntry>,
    signature: Option<TrackEntry>,
    cached_metadata: Option<TrackEntry>,
    has_cached_track: bool,
) -> TrackSource {
    if !cache_entry_valid(entry, signature) {
        TrackSource::Fresh
    } else {
        match cached_metadata {
            Some(s) => if Some(s) == signature {
                TrackSource::CachedMetadata
            } else {
                TrackSource::Fresh
            },
            None => if has_cached_track {
                TrackSource::CachedTrack
            } else {
                TrackSource::Fresh
            },
        }
    }
}

/// Whether the cached metadata of a track should be read.
pub fn should_read_cached_metadata(entry: Option<TrackEntry>, signature: Option<TrackEntry>) -> (r: bool)
    ensures
        r == cache_entry_valid(entry, signature),
{
    match (entry, signature) {
        (Some(e), Some(s)) => e.matches_signature(&s),
        _ => false,
    }
}

/// Decides where the tags of a track come from. `cached_metadata` is the
/// signature stored with the track's cached metadata, when that file was
/// read; `has_cached_track` tells whether the album's cache file lists it.
pub fn track_source(
    entry: Option<TrackEntry>,
    signature: Option<TrackEntry>,
    cached_metadata: Option<TrackEntry>,
    has_cached_track: bool,
) -> (r: TrackSource)
    ensures
        r == spec_track_source(entry, signature, cached_metadata, has_cached_track),
{
    if !should_read_cached_metadata(entry, signature) {
        return TrackSource::Fresh;
    }
    match cached_metadata {
        Some(s) => {
            match signature {
                Some(sig) => if s.matches_signature(&sig) {
                    TrackSource::CachedMetadata
                } else {
                    TrackSource::Fresh
                },
                None => TrackSource::Fresh,
            }
        },
        None => if has_cached_track {
            TrackSource::CachedTrack
        } else {
            TrackSource::Fresh
        },
    }
}

/// A read of the index after a write gives back what was written; the other
/// keys keep their signatures. `after` is `before` once `insert(key, entry)`
/// has run.
pub proof fn lemma_index_read_after_write(
    before: CacheIndex,
    after: CacheIndex,
    key: Seq<char>,
    entry: TrackEntry,
    other: Seq<char>,
)
    requires
        after.entries() == before.entries().insert(key, entry),
    ensures
        after.entries().dom().contains(key),
        after.entries()[key] == entry,
        other != key ==> (after.entries().dom().contains(other) == before.entries().dom().contains(other)),
        other != key && before.entries().dom().contains(other) ==> after.entries()[other]
            == before.entries()[other],
{
}

} // verus!
