//! The decisions of a library scan: which files of a folder become tracks,
//! with which number and title, how tag values complete them, and in which
//! order they are listed. Reading folders and tags is done by the caller.
use vstd::prelude::*;

use crate::library::metadata::TrackMetadata;
use crate::library::names::{
    file_stem, is_audio_file, is_audio_name, parse_track_filename, spec_parse_track_filename, stem_end,
};
use crate::library::tally::{find_key, views};
use crate::library::sorting::{is_order_of, sort_order, sorted_by};
use crate::library::Track;
use crate::paths::{relative_path, spec_relative_path};
use crate::text::{chars_eq, chars_of, lowercase, string_of_range, to_lowercase, trim, trim_bounds};

verus! {

/// A directory entry of an album folder, in the order of the listing
/// (sorted by file name). `file_name` is missing when the name is not valid
/// UTF-8; `dedupe_key` identifies the file (its canonical path, relative to
/// the folder, lower-cased).
#[derive(Debug, Clone)]
pub struct FileEntry {
    pub path: String,
    pub file_name: Option<String>,
    pub dedupe_key: String,
}

/// An audio file picked as a track, with the number and title its name gives.
#[derive(Debug, Clone)]
pub struct TrackFile {
    pub path: String,
    pub number: u8,
    pub title: String,
}

/// `u8::saturating_add(1)`.
pub open spec fn next_index(i: u8) -> u8 {
    if i < 255 {
        (i + 1) as u8
    } else {
        255
    }
}

/// Files picked so far (path, number, title), the next automatic number and
/// the keys already met.
pub type SelectState = (Seq<(Seq<char>, u8, Seq<char>)>, u8, Set<Seq<char>>);

/// One entry of the listing: a key met before is skipped; otherwise the key
/// is recorded and an audio file whose stem is not blank becomes a track,
/// numbered by its name or else by the next automatic number.
pub open spec fn select_step(st: SelectState, e: FileEntry) -> SelectState {
    let (files, index, seen) = st;
    if seen.contains(e.dedupe_key@) {
        st
    } else {
        let seen2 = seen.insert(e.dedupe_key@);
        match e.file_name {
            None => (files, index, seen2),
            Some(name) => if !is_audio_name(name@) || trim(file_stem(name@)).len() == 0 {
                (files, index, seen2)
            } else {
                let (num, title) = spec_parse_track_filename(file_stem(name@));
                match num {
                    Some(n) => (files.push((e.path@, n, title)), index, seen2),
                    None => (files.push((e.path@, index, title)), next_index(index), seen2),
                }
            },
        }
    }
}

pub open spec fn select_all(entries: Seq<FileEntry>) -> SelectState
    decreases entries.len(),
{
    if entries.len() == 0 {
        (Seq::empty(), 1, Set::empty())
    } else {
        select_step(select_all(entries.drop_last()), entries.last())
    }
}

pub open spec fn track_file_views(fs: Seq<TrackFile>) -> Seq<(Seq<char>, u8, Seq<char>)> {
    fs.map_values(|f: TrackFile| (f.path@, f.number, f.title@))
}

/// The files of a folder listing that become tracks, in listing order.
pub fn select_track_files(entries: &Vec<FileEntry>) -> (r: Vec<TrackFile>)
    ensures
        track_file_views(r@) == select_all(entries@).0,
{
    let mut out: Vec<TrackFile> = Vec::new();
    let mut seen: Vec<Vec<char>> = Vec::new();
    let mut index: u8 = 1;
    let mut i: usize = 0;
    proof {
        assert(entries@.take(0) =~= Seq::<FileEntry>::empty());
        assert(track_file_views(out@) =~= Seq::<(Seq<char>, u8, Seq<char>)>::empty());
    }
    while i < entries.len()
        invariant
            i <= entries.len(),
            track_file_views(out@) == select_all(entries@.take(i as int)).0,
            index == select_all(entries@.take(i as int)).1,
            forall|x: Seq<char>| #[trigger] select_all(entries@.take(i as int)).2.contains(x) <==> views(seen@).contains(x),
        decreases entries.len() - i,
    {
        let ghost st = select_all(entries@.take(i as int));
        proof {
            assert(entries@.take(i + 1).drop_last() =~= entries@.take(i as int));
        }
        let e = &entries[i];
        let key = chars_of(e.dedupe_key.as_str());
        match find_key(&seen, &key) {
            Some(m) => {
                proof {
                    assert(views(seen@)[m as int] == key@);
                    assert(st.2.contains(e.dedupe_key@));
                }
            },
            None => {
                proof {
                    assert(!views(seen@).contains(key@)) by {
                        if views(seen@).contains(key@) {
                            let m = choose|m: int| 0 <= m < views(seen@).len() && views(seen@)[m] == key@;
                            assert(seen@[m]@ == key@);
                        }
                    }
                }
                let ghost seen_before = views(seen@);
                seen.push(key);
                proof {
                    assert(views(seen@) =~= seen_before.push(key@));
                    assert forall|x: Seq<char>| #[trigger] st.2.insert(e.dedupe_key@).contains(x) <==> views(seen@).contains(x) by {
                        if x == key@ {
                            assert(views(seen@)[seen_before.len() as int] == key@);
                        } else if seen_before.contains(x) {
                            let m = choose|m: int| 0 <= m < seen_before.len() && seen_before[m] == x;
                            assert(views(seen@)[m] == x);
                        } else if views(seen@).contains(x) {
                            let m = choose|m: int| 0 <= m < views(seen@).len() && views(seen@)[m] == x;
                            assert(m < seen_before.len());
                            assert(seen_before[m] == x);
                        }
                    }
                }
                match &e.file_name {
                    None => {},
                    Some(name) => {
                        if is_audio_file(name.as_str()) {
                            let v = chars_of(name.as_str());
                            let se = stem_end(&v);
                            let (a, b) = trim_bounds(&v, 0, se);
                            proof {
                                assert(v@.subrange(0, se as int) == file_stem(name@));
                            }
                            if a < b {
                                let stem = string_of_range(&v, 0, se);
                                let (num, title) = parse_track_filename(stem.as_str());
                                let number = match num {
                                    Some(n) => n,
                                    None => {
                                        let current = index;
                                        index = if index < 255 {
                                            index + 1
                                        } else {
                                            255
                                        };
                                        current
                                    },
                                };
                                let ghost before = out@;
                                out.push(TrackFile { path: e.path.clone(), number, title });
                                proof {
                                    assert(track_file_views(out@) =~= track_file_views(before).push(
                                        (e.path@, number, title@),
                                    ));
                                }
                            }
                        }
                    },
                }
            },
        }
        i = i + 1;
    }
    proof {
        assert(entries@.take(entries.len() as int) =~= entries@);
    }
    out
}

/// A track from a picked file and the tags read from it: the tags' number
/// and title win over those of the file name; a missing duration is 0.
pub open spec fn track_from(path: Seq<char>, number: u8, title: Seq<char>, md: TrackMetadata, t: Track) -> bool {
    &&& t.number == (match md.track_number {
        Some(n) => n,
        None => number,
    })
    &&& t.title@ == (match md.title {
        Some(s) => s@,
        None => title,
    })
    &&& t.duration_secs == (match md.duration_secs {
        Some(d) => d,
        None => 0,
    })
    &&& t.duration_millis == md.duration_millis
    &&& t.bitrate_kbps == md.bitrate_kbps
    &&& t.codec == md.codec
    &&& t.path@ == path
    &&& t.track_artist == md.track_artist
    &&& t.artist == md.artist
    &&& t.year == md.year
    &&& t.genre == md.genre
    &&& t.embedded_cover == md.embedded_cover
}

/// Completes a picked file with the tags read from it.
pub fn track_from_metadata(file: TrackFile, md: TrackMetadata) -> (t: Track)
    ensures
        track_from(file.path@, file.number, file.title@, md, t),
        t.path@ == file.path@,
        t.year == md.year,
        t.genre == md.genre,
        t.track_artist == md.track_artist,
        t.artist == md.artist,
        t.codec == md.codec,
        t.bitrate_kbps == md.bitrate_kbps,
        t.duration_millis == md.duration_millis,
        t.embedded_cover == md.embedded_cover,
{
    let number = match md.track_number {
        Some(n) => n,
        None => file.number,
    };
    let title = match md.title {
        Some(s) => s,
        None => file.title,
    };
    let duration_secs = match md.duration_secs {
        Some(d) => d,
        None => 0,
    };
    Track {
        number,
        title,
        duration_secs,
        duration_millis: md.duration_millis,
        bitrate_kbps: md.bitrate_kbps,
        codec: md.codec,
        path: file.path,
        track_artist: md.track_artist,
        artist: md.artist,
        year: md.year,
        genre: md.genre,
        embedded_cover: md.embedded_cover,
    }
}

/// The tracks numbered `n`, in their order.
pub open spec fn with_number(ts: Seq<Track>, n: int) -> Seq<Track> {
    ts.filter(|t: Track| t.number == n)
}

/// The tracks numbered below `n`: those numbered 0, then 1, and so on, each
/// group in its original order.
pub open spec fn numbered_below(ts: Seq<Track>, n: int) -> Seq<Track>
    decreases n,
{
    if n <= 0 {
        Seq::empty()
    } else {
        numbered_below(ts, n - 1) + with_number(ts, n - 1)
    }
}

/// `ts` in order of track number, tracks with the same number kept in their
/// order (what a stable sort by number gives).
pub open spec fn by_number(ts: Seq<Track>) -> Seq<Track> {
    numbered_below(ts, 256)
}

proof fn lemma_filter_step(ts: Seq<Track>, i: int, n: int)
    requires
        0 <= i < ts.len(),
    ensures
        with_number(ts.take(i + 1), n) == with_number(ts.take(i), n) + if ts[i].number == n {
            seq![ts[i]]
        } else {
            Seq::empty()
        },
{
    reveal_with_fuel(Seq::filter, 1);
    assert(ts.take(i + 1).drop_last() =~= ts.take(i));
    if ts[i].number == n {
        assert(with_number(ts.take(i), n).push(ts[i]) =~= with_number(ts.take(i), n) + seq![ts[i]]);
    } else {
        assert(with_number(ts.take(i), n) =~= with_number(ts.take(i), n) + Seq::<Track>::empty());
    }
}

/// Orders tracks by number, keeping the order of tracks with equal numbers.
pub fn sort_by_number(tracks: Vec<Track>) -> (r: Vec<Track>)
    ensures
        r@ == by_number(tracks@),
{
    let ghost ts = tracks@;
    let mut slots: Vec<Option<Track>> = Vec::new();
    let mut numbers: Vec<u8> = Vec::new();
    let mut src = tracks;
    let ghost mut k: int = 0;
    while src.len() > 0
        invariant
            ts.len() == slots.len() + src.len(),
            slots.len() == numbers.len(),
            forall|j: int| 0 <= j < slots.len() ==> #[trigger] slots@[j] == Some(ts[j]),
            forall|j: int| 0 <= j < slots.len() ==> #[trigger] numbers@[j] == ts[j].number,
            forall|j: int| 0 <= j < src.len() ==> #[trigger] src@[j] == ts[slots.len() + j],
        decreases src.len(),
    {
        let t = src.remove(0);
        numbers.push(t.number);
        slots.push(Some(t));
    }
    let n = slots.len();
    let mut out: Vec<Track> = Vec::new();
    let mut num: u16 = 0;
    proof {
        assert(out@ =~= numbered_below(ts, 0));
    }
    while num < 256
        invariant
            n == slots.len() == numbers.len() == ts.len(),
            num <= 256,
            out@ == numbered_below(ts, num as int),
            forall|j: int| 0 <= j < n ==> #[trigger] numbers@[j] == ts[j].number,
            forall|j: int|
                0 <= j < n ==> #[trigger] slots@[j] == if ts[j].number < num {
                    None
                } else {
                    Some(ts[j])
                },
        decreases 256 - num,
    {
        let ghost base = out@;
        let mut i: usize = 0;
        proof {
            assert(ts.take(0).filter(|t: Track| t.number == num as int) =~= Seq::<Track>::empty()) by {
                reveal_with_fuel(Seq::filter, 1);
            }
            assert(base + with_number(ts.take(0), num as int) =~= base);
        }
        while i < n
            invariant
                n == slots.len() == numbers.len() == ts.len(),
                num < 256,
                i <= n,
                out@ == base + with_number(ts.take(i as int), num as int),
                forall|j: int| 0 <= j < n ==> #[trigger] numbers@[j] == ts[j].number,
                forall|j: int|
                    0 <= j < n ==> #[trigger] slots@[j] == if ts[j].number < num || (j < i && ts[j].number
                        == num) {
                        None
                    } else {
                        Some(ts[j])
                    },
            decreases n - i,
        {
            proof {
                lemma_filter_step(ts, i as int, num as int);
            }
            if numbers[i] as u16 == num {
                let slot = slots.remove(i);
                slots.insert(i, None);
                match slot {
                    Some(t) => {
                        out.push(t);
                    },
                    None => {},
                }
                proof {
                    assert(out@ =~= base + with_number(ts.take(i + 1), num as int));
                }
            } else {
                proof {
                    assert(out@ =~= base + with_number(ts.take(i + 1), num as int));
                }
            }
            i = i + 1;
        }
        proof {
            assert(ts.take(n as int) =~= ts);
            assert(out@ == numbered_below(ts, num + 1));
        }
        num = num + 1;
    }
    out
}

/// What completes a picked file: the tags read from the audio file, or
/// the track as a cache recorded it.
/// The cached track kept for a path: the last one of the album's cache file
/// with that path (a later entry shadows an earlier one).
pub fn find_cached_track(cached: &Vec<Track>, path: &str) -> (r: Option<usize>)
    ensures
        match r {
            Some(i) => i < cached.len() && cached@[i as int].path@ == path@ && forall|j: int|
                i < j < cached.len() ==> (#[trigger] cached@[j]).path@ != path@,
            None => forall|j: int| 0 <= j < cached.len() ==> (#[trigger] cached@[j]).path@ != path@,
        },
{
    let pv = chars_of(path);
    let mut i: usize = cached.len();
    while i > 0
        invariant
            i <= cached.len(),
            pv@ == path@,
            forall|j: int| i <= j < cached.len() ==> (#[trigger] cached@[j]).path@ != path@,
        decreases i,
    {
        let k = i - 1;
        let tv = chars_of(cached[k].path.as_str());
        if chars_eq(&tv, &pv) {
            return Some(k);
        }
        i = k;
    }
    None
}

/// A track completed with the tags of its file carries the tags' values:
/// year, genre, artists, codec, bit rate, exact duration and embedded
/// picture are the tags' own, and the path is the file's.
pub proof fn lemma_track_carries_tags(path: Seq<char>, number: u8, title: Seq<char>, md: TrackMetadata, t: Track)
    requires
        track_from(path, number, title, md, t),
    ensures
        t.path@ == path,
        t.year == md.year,
        t.genre == md.genre,
        t.track_artist == md.track_artist,
        t.artist == md.artist,
        t.codec == md.codec,
        t.bitrate_kbps == md.bitrate_kbps,
        t.duration_millis == md.duration_millis,
        t.embedded_cover == md.embedded_cover,
        md.track_number matches Some(n) ==> t.number == n,
        md.track_number is None ==> t.number == number,
        md.duration_secs is None ==> t.duration_secs == 0,
{
}

/// The years the tags of the files give, in order (a missing or zero year
/// gives none).
pub open spec fn tag_years(mds: Seq<TrackMetadata>) -> Seq<u16>
    decreases mds.len(),
{
    if mds.len() == 0 {
        Seq::empty()
    } else {
        tag_years(mds.drop_last()) + match mds.last().year {
            Some(y) if y > 0 => seq![y],
            _ => Seq::empty(),
        }
    }
}

proof fn lemma_year_tokens_of_tags(files: Seq<TrackFile>, mds: Seq<TrackMetadata>, tracks: Seq<Track>)
    requires
        files.len() == mds.len() == tracks.len(),
        forall|i: int|
            0 <= i < tracks.len() ==> track_from(
                files[i].path@,
                files[i].number,
                files[i].title@,
                mds[i],
                #[trigger] tracks[i],
            ),
    ensures
        crate::library::album::year_tokens(tracks) == tag_years(mds),
    decreases tracks.len(),
{
    if tracks.len() > 0 {
        let n = tracks.len() - 1;
        assert(track_from(files[n].path@, files[n].number, files[n].title@, mds[n], tracks[n]));
        lemma_year_tokens_of_tags(files.drop_last(), mds.drop_last(), tracks.drop_last());
    }
}

/// An album whose folder name gives no year takes the year most of its
/// files' tags give; without any tagged year it has none (0). A folder year
/// always wins.
pub proof fn lemma_album_year_from_tags(
    files: Seq<TrackFile>,
    mds: Seq<TrackMetadata>,
    tracks: Seq<Track>,
    title: String,
    folder_year: u16,
    path: String,
    cover: Option<crate::library::CoverArt>,
    album: crate::library::Album,
)
    requires
        files.len() == mds.len() == tracks.len(),
        forall|i: int|
            0 <= i < tracks.len() ==> track_from(
                files[i].path@,
                files[i].number,
                files[i].title@,
                mds[i],
                #[trigger] tracks[i],
            ),
        crate::library::album::assembled(title, folder_year, tracks, path, cover, album),
    ensures
        folder_year > 0 ==> album.year == folder_year,
        folder_year == 0 && tag_years(mds).len() == 0 ==> album.year == 0,
        folder_year == 0 && tag_years(mds).len() > 0 ==> tag_years(mds).contains(album.year) && forall|y: u16|
            #[trigger] crate::library::tally::count_of(tag_years(mds), y) <= crate::library::tally::count_of(
                tag_years(mds),
                album.year,
            ),
{
    lemma_year_tokens_of_tags(files, mds, tracks);
}

#[derive(Debug, Clone)]
pub enum TrackInfo {
    Tags(TrackMetadata),
    Cached(Track),
}

/// A track taken from a cache, at the path where the file is now.
pub open spec fn track_from_cached(path: Seq<char>, cached: Track, t: Track) -> bool {
    &&& t.number == cached.number
    &&& t.title == cached.title
    &&& t.duration_secs == cached.duration_secs
    &&& t.duration_millis == cached.duration_millis
    &&& t.bitrate_kbps == cached.bitrate_kbps
    &&& t.codec == cached.codec
    &&& t.path@ == path
    &&& t.track_artist == cached.track_artist
    &&& t.artist == cached.artist
    &&& t.year == cached.year
    &&& t.genre == cached.genre
    &&& t.embedded_cover == cached.embedded_cover
}

pub open spec fn completed(f: TrackFile, info: TrackInfo, t: Track) -> bool {
    match info {
        TrackInfo::Tags(md) => track_from(f.path@, f.number, f.title@, md, t),
        TrackInfo::Cached(c) => track_from_cached(f.path@, c, t),
    }
}

/// Completes a picked file.
pub fn complete_track(file: TrackFile, info: TrackInfo) -> (t: Track)
    ensures
        completed(file, info, t),
{
    match info {
        TrackInfo::Tags(md) => track_from_metadata(file, md),
        TrackInfo::Cached(c) => Track { path: file.path, ..c },
    }
}

/// The tracks of a folder: each picked file completed (`infos[i]` for
/// `files[i]`), in order of track number.
pub open spec fn assembled_tracks(files: Seq<TrackFile>, infos: Seq<TrackInfo>, r: Seq<Track>) -> bool {
    exists|unsorted: Seq<Track>|
        #![trigger by_number(unsorted)]
        unsorted.len() == files.len() && (forall|i: int|
            0 <= i < files.len() ==> completed(files[i], infos[i], #[trigger] unsorted[i])) && r == by_number(
            unsorted,
        )
}

/// Completes the picked files and orders them by number.
pub fn assemble_tracks(files: Vec<TrackFile>, infos: Vec<TrackInfo>) -> (r: Vec<Track>)
    requires
        files.len() == infos.len(),
    ensures
        assembled_tracks(files@, infos@, r@),
{
    let ghost fs = files@;
    let ghost ms = infos@;
    let mut unsorted: Vec<Track> = Vec::new();
    let mut files = files;
    let mut infos = infos;
    while files.len() > 0
        invariant
            files.len() == infos.len(),
            fs.len() == ms.len(),
            unsorted.len() + files.len() == fs.len(),
            forall|j: int| 0 <= j < files.len() ==> #[trigger] files@[j] == fs[unsorted.len() + j],
            forall|j: int| 0 <= j < infos.len() ==> #[trigger] infos@[j] == ms[unsorted.len() + j],
            forall|i: int| 0 <= i < unsorted.len() ==> completed(fs[i], ms[i], #[trigger] unsorted@[i]),
        decreases files.len(),
    {
        let f = files.remove(0);
        let m = infos.remove(0);
        let t = complete_track(f, m);
        unsorted.push(t);
    }
    let ghost u = unsorted@;
    let r = sort_by_number(unsorted);
    proof {
        assert(r@ == by_number(u));
    }
    r
}

/// The index keys of tracks: their paths relative to the library root.
pub fn track_keys(root: &str, tracks: &Vec<Track>) -> (r: Vec<String>)
    ensures
        r.len() == tracks.len(),
        forall|i: int| 0 <= i < r.len() ==> (#[trigger] r@[i])@ == spec_relative_path(root@, tracks@[i].path@),
{
    let mut r: Vec<String> = Vec::new();
    let mut i: usize = 0;
    while i < tracks.len()
        invariant
            i <= tracks.len(),
            r.len() == i,
            forall|k: int| 0 <= k < i ==> (#[trigger] r@[k])@ == spec_relative_path(root@, tracks@[k].path@),
        decreases tracks.len() - i,
    {
        r.push(relative_path(root, tracks[i].path.as_str()));
        i = i + 1;
    }
    r
}

/// Whether a folder holds an audio file (given the names of its files).
pub fn has_audio_file(names: &Vec<String>) -> (r: bool)
    ensures
        r == exists|i: int| 0 <= i < names.len() && is_audio_name(#[trigger] names@[i]@),
{
    let mut i: usize = 0;
    while i < names.len()
        invariant
            i <= names.len(),
            forall|k: int| 0 <= k < i ==> !is_audio_name(#[trigger] names@[k]@),
        decreases names.len() - i,
    {
        if is_audio_file(names[i].as_str()) {
            return true;
        }
        i = i + 1;
    }
    false
}

/// What a folder directly under the library root stands for.
#[derive(Debug, Clone, Copy, PartialEq, Eq, Structural)]
pub enum TopFolderKind {
    /// The folder is itself an album.
    Album,
    /// The folder is an artist, whose subfolders are albums.
    Artist,
}

/// A folder under the root that holds an audio file is an album; any other
/// is an artist whose subfolders are albums.
pub open spec fn spec_top_folder_kind(names: Seq<String>) -> TopFolderKind {
    if exists|i: int| 0 <= i < names.len() && is_audio_name(#[trigger] names[i]@) {
        TopFolderKind::Album
    } else {
        TopFolderKind::Artist
    }
}

/// Tells an album folder from an artist folder under the root (given the
/// names of its files).
pub fn classify_top_folder(file_names: &Vec<String>) -> (r: TopFolderKind)
    ensures
        r == spec_top_folder_kind(file_names@),
{
    if has_audio_file(file_names) {
        TopFolderKind::Album
    } else {
        TopFolderKind::Artist
    }
}

/// For each key, whether it is met for the first time (later duplicates of
/// a folder are skipped).
pub fn first_occurrences(keys: &Vec<String>) -> (r: Vec<bool>)
    ensures
        r.len() == keys.len(),
        forall|i: int|
            0 <= i < r.len() ==> #[trigger] r@[i] == !keys@.take(i).map_values(|k: String| k@).contains(keys@[i]@),
{
    let mut seen: Vec<Vec<char>> = Vec::new();
    let mut r: Vec<bool> = Vec::new();
    let mut i: usize = 0;
    while i < keys.len()
        invariant
            i <= keys.len(),
            r.len() == i,
            views(seen@) == keys@.take(i as int).map_values(|k: String| k@),
            forall|k: int|
                0 <= k < i ==> #[trigger] r@[k] == !keys@.take(k).map_values(|k: String| k@).contains(keys@[k]@),
        decreases keys.len() - i,
    {
        let kv = chars_of(keys[i].as_str());
        let ghost prefix = keys@.take(i as int).map_values(|k: String| k@);
        let fresh = match find_key(&seen, &kv) {
            Some(m) => {
                proof {
                    assert(prefix[m as int] == kv@);
                }
                false
            },
            None => {
                proof {
                    if prefix.contains(kv@) {
                        let m = choose|m: int| 0 <= m < prefix.len() && prefix[m] == kv@;
                        assert(seen@[m]@ == views(seen@)[m]);
                    }
                }
                true
            },
        };
        r.push(fresh);
        seen.push(kv);
        proof {
            assert(keys@.take(i + 1).map_values(|k: String| k@) =~= prefix.push(keys@[i as int]@));
            assert(views(seen@) =~= prefix.push(keys@[i as int]@));
        }
        i = i + 1;
    }
    r
}

/// The key that tells folders and files apart during a scan: the canonical
/// path relative to the library root, with `/` separators, lower-cased.
pub fn normalized_path_key(root: &str, canonical_path: &str) -> (r: String)
    ensures
        r@ == lowercase(spec_relative_path(root@, canonical_path@)),
{
    let rel = relative_path(root, canonical_path);
    to_lowercase(rel.as_str())
}

/// The entries of a folder in order of name.
pub fn listing_order(names: &Vec<String>) -> (r: Vec<usize>)
    ensures
        is_order_of(r@, names.len() as int),
        sorted_by(names@.map_values(|n: String| n@), r@),
{
    let mut keys: Vec<Vec<char>> = Vec::new();
    let mut i: usize = 0;
    while i < names.len()
        invariant
            i <= names.len(),
            keys.len() == i,
            forall|k: int| 0 <= k < i ==> (#[trigger] keys@[k])@ == names@[k]@,
        decreases names.len() - i,
    {
        keys.push(chars_of(names[i].as_str()));
        i = i + 1;
    }
    let r = sort_order(&keys);
    proof {
        assert(views(keys@) =~= names@.map_values(|n: String| n@));
    }
    r
}

pub open spec fn number_below(n: int) -> spec_fn(Track) -> bool {
    |t: Track| t.number < n
}

proof fn lemma_none_below_zero(ts: Seq<Track>)
    ensures
        ts.filter(number_below(0)).len() == 0,
    decreases ts.len(),
{
    reveal_with_fuel(Seq::filter, 1);
    if ts.len() > 0 {
        lemma_none_below_zero(ts.drop_last());
    }
}

proof fn lemma_numbered_below(ts: Seq<Track>, n: int)
    requires
        0 <= n <= 256,
    ensures
        forall|i: int| 0 <= i < numbered_below(ts, n).len() ==> (#[trigger] numbered_below(ts, n)[i]).number < n,
        forall|i: int, j: int|
            0 <= i < j < numbered_below(ts, n).len() ==> (#[trigger] numbered_below(ts, n)[i]).number
                <= (#[trigger] numbered_below(ts, n)[j]).number,
        numbered_below(ts, n).len() == ts.filter(number_below(n)).len(),
    decreases n,
{
    broadcast use vstd::seq_lib::group_filter_ensures;

    if n > 0 {
        lemma_numbered_below(ts, n - 1);
        let a = numbered_below(ts, n - 1);
        let b = with_number(ts, n - 1);
        let s = a + b;
        assert forall|i: int| 0 <= i < b.len() implies (#[trigger] b[i]).number == n - 1 by {
        }
        assert forall|i: int| 0 <= i < s.len() implies (#[trigger] s[i]).number < n by {
            if i >= a.len() {
                assert(s[i] == b[i - a.len()]);
            }
        }
        assert forall|i: int, j: int| 0 <= i < j < s.len() implies (#[trigger] s[i]).number <= (#[trigger] s[j]).number by {
            if j >= a.len() {
                assert(s[j] == b[j - a.len()]);
                if i >= a.len() {
                    assert(s[i] == b[i - a.len()]);
                }
            }
        }
        lemma_filter_split(ts, n - 1);
    } else {
        lemma_none_below_zero(ts);
    }
}

proof fn lemma_filter_split(ts: Seq<Track>, m: int)
    ensures
        ts.filter(number_below(m + 1)).len() == ts.filter(number_below(m)).len()
            + with_number(ts, m).len(),
    decreases ts.len(),
{
    reveal_with_fuel(Seq::filter, 1);
    if ts.len() > 0 {
        lemma_filter_split(ts.drop_last(), m);
    }
}

/// Listing tracks by number loses none and orders them: the list has as
/// many tracks as there were, and their numbers never decrease.
pub proof fn lemma_by_number_sorted(ts: Seq<Track>)
    ensures
        by_number(ts).len() == ts.len(),
        forall|i: int, j: int|
            0 <= i < j < by_number(ts).len() ==> (#[trigger] by_number(ts)[i]).number
                <= (#[trigger] by_number(ts)[j]).number,
{
    lemma_numbered_below(ts, 256);
    lemma_all_below_256(ts);
}

proof fn lemma_all_below_256(ts: Seq<Track>)
    ensures
        ts.filter(number_below(256)).len() == ts.len(),
    decreases ts.len(),
{
    reveal_with_fuel(Seq::filter, 1);
    if ts.len() > 0 {
        lemma_all_below_256(ts.drop_last());
    }
}

} // verus!

