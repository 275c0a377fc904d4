//! Album metadata from an online source (Last.fm): what is kept of a reply,
//! when a cached reply is still good, and user edits that override it.
use vstd::prelude::*;

use crate::config::UserSettings;
use crate::library::cache::{hash_str, hex, hex_string, std_hash_str};
use crate::library::covers::path_extension;
use crate::library::names::extension_bounds;
use crate::library::CoverArt;
use crate::paths::{file_name_of, join, join_path, path_exists};
use crate::text::{
    all_digits, chars_eq, chars_of, digits_value, is_digit, is_ascii_digit, lowercase, parse_digits,
    string_from_chars, string_of_range, to_lowercase, trim, trim_bounds,
};
use crate::ui::cells::{push_chars, push_str};

verus! {

#[derive(Debug, Clone, PartialEq)]
pub struct OnlineMetadata {
    pub genre: Option<String>,
    pub year: Option<u16>,
    pub cover: Option<CoverArt>,
    pub cover_checked: bool,
}

impl Default for OnlineMetadata {
    fn default() -> (r: Self)
        ensures
            r.genre is None,
            r.year is None,
            r.cover is None,
            !r.cover_checked,
    {
        OnlineMetadata { genre: None, year: None, cover: None, cover_checked: false }
    }
}

/// Genre and year that the user set by hand for an album.
#[derive(Debug, Clone, PartialEq)]
pub struct UserMetadataOverride {
    pub genre: Option<String>,
    pub year: Option<u16>,
    pub genre_overridden: bool,
    pub year_overridden: bool,
    pub edited_at: u64,
}

impl UserMetadataOverride {
    /// A user edit that sets both the genre and the year (`None` clears
    /// them), not yet stamped with its time.
    pub fn edited(genre: Option<String>, year: Option<u16>) -> (r: Self)
        ensures
            r.genre == genre,
            r.year == year,
            r.genre_overridden,
            r.year_overridden,
            r.edited_at == 0,
    {
        UserMetadataOverride { genre, year, genre_overridden: true, year_overridden: true, edited_at: 0 }
    }
}

/// What the metadata cache file of an album holds.
#[derive(Debug, Clone)]
pub struct CachedOnlineMetadata {
    pub fetched_at: u64,
    pub metadata: OnlineMetadata,
    pub user_override: Option<UserMetadataOverride>,
}

/// What is kept of a Last.fm reply.
#[derive(Debug, Clone)]
pub struct LastFmMetadata {
    pub genre: Option<String>,
    pub year: Option<u16>,
    pub cover_url: Option<String>,
}

/// The `name` member of a tag of the reply.
#[derive(Debug, Clone)]
pub enum TagName {
    Absent,
    Text(String),
    NotText,
}

/// The tags of the reply (`album.toptags.tag`, else `album.tags.tag`).
#[derive(Debug, Clone)]
pub enum TagField {
    List(Vec<TagName>),
    Object(TagName),
    Missing,
}

/// An image of the reply: its `#text` (when a string) and its `size`.
#[derive(Debug, Clone)]
pub struct ImageEntry {
    pub url: Option<String>,
    pub size: Option<String>,
}

/// Year scan state: the year found, or the digits of the current group.
pub open spec fn scan_year(s: Seq<char>) -> (Option<u16>, Seq<char>)
    decreases s.len(),
{
    if s.len() == 0 {
        (None, Seq::empty())
    } else {
        let (found, run) = scan_year(s.drop_last());
        if found is Some {
            (found, run)
        } else if is_digit(s.last()) {
            let run2 = run.push(s.last());
            if run2.len() == 4 {
                if digits_value(run2) > 0 {
                    (Some(digits_value(run2) as u16), Seq::empty())
                } else {
                    (None, Seq::empty())
                }
            } else {
                (None, run2)
            }
        } else {
            (None, Seq::empty())
        }
    }
}

/// The first group of four digits (counted from the start of each run of
/// digits) that is not `0000`, as a year.
pub open spec fn spec_parse_year(s: Seq<char>) -> Option<u16> {
    scan_year(s).0
}

proof fn lemma_scan_year_run(s: Seq<char>)
    ensures
        scan_year(s).1.len() < 4,
        all_digits(scan_year(s).1),
        scan_year(s).0 is Some ==> scan_year(s).1.len() == 0,
    decreases s.len(),
{
    if s.len() > 0 {
        lemma_scan_year_run(s.drop_last());
        let (found, run) = scan_year(s.drop_last());
        if found is None && is_digit(s.last()) {
            let run2 = run.push(s.last());
            assert forall|k: int| 0 <= k < run2.len() implies is_digit(#[trigger] run2[k]) by {
                if k < run.len() {
                    assert(run2[k] == run[k]);
                }
            }
        }
    }
}

proof fn lemma_four_digits_bound(s: Seq<char>)
    requires
        s.len() == 4,
        all_digits(s),
    ensures
        digits_value(s) <= 9999,
{
    let s3 = s.drop_last();
    let s2 = s3.drop_last();
    let s1 = s2.drop_last();
    let s0 = s1.drop_last();
    assert(s0.len() == 0);
    assert(s[3] == s.last() && s3.last() == s[2] && s2.last() == s[1] && s1.last() == s[0]);
    assert(is_digit(s[0]) && is_digit(s[1]) && is_digit(s[2]) && is_digit(s[3]));
    assert(digits_value(s0) == 0);
    assert(digits_value(s1) <= 9);
    assert(digits_value(s2) <= 99);
    assert(digits_value(s3) <= 999);
}

proof fn lemma_scan_year_stays(s: Seq<char>, j: int, k: int)
    requires
        0 <= j <= k <= s.len(),
        scan_year(s.take(j)).0 is Some,
    ensures
        scan_year(s.take(k)).0 == scan_year(s.take(j)).0,
    decreases k - j,
{
    if k > j {
        lemma_scan_year_stays(s, j, k - 1);
        assert(s.take(k).drop_last() =~= s.take(k - 1));
    }
}

/// Reads a year from a release date such as `6 Apr 1999, 00:00`.
pub fn parse_year(value: &str) -> (r: Option<u16>)
    ensures
        r == spec_parse_year(value@),
{
    let v = chars_of(value);
    let mut run: Vec<char> = Vec::new();
    let mut i: usize = 0;
    proof {
        assert(v@.take(0) =~= Seq::<char>::empty());
    }
    while i < v.len()
        invariant
            i <= v.len(),
            v@ == value@,
            scan_year(v@.take(i as int)).0 is None,
            run@ == scan_year(v@.take(i as int)).1,
        decreases v.len() - i,
    {
        let c = v[i];
        proof {
            assert(v@.take(i + 1).drop_last() =~= v@.take(i as int));
            lemma_scan_year_run(v@.take(i as int));
        }
        if is_ascii_digit(c) {
            run.push(c);
            if run.len() == 4 {
                proof {
                    assert(all_digits(run@)) by {
                        assert forall|k: int| 0 <= k < run@.len() implies is_digit(#[trigger] run@[k]) by {
                            if k < 3 {
                                assert(run@[k] == scan_year(v@.take(i as int)).1[k]);
                            }
                        }
                    }
                    lemma_four_digits_bound(run@);
                    assert(run@.subrange(0, 4) =~= run@);
                }
                let year = parse_digits(&run, 0, 4, 9999);
                match year {
                    Some(y) => {
                        if y > 0 {
                            proof {
                                assert(scan_year(v@.take(i + 1)).0 == Some(y as u16));
                                lemma_scan_year_stays(v@, i + 1, v.len() as int);
                                assert(v@.take(v.len() as int) =~= v@);
                            }
                            return Some(y as u16);
                        }
                    },
                    None => {},
                }
                run = Vec::new();
            }
        } else {
            run = Vec::new();
        }
        i = i + 1;
        proof {
            assert(run@ =~= scan_year(v@.take(i as int)).1);
        }
    }
    proof {
        assert(v@.take(v.len() as int) =~= v@);
    }
    None
}

/// Whether the online cover should be fetched again: always on a forced
/// refresh; else when the cached cover file is missing, or when no cover was
/// ever looked for.
pub open spec fn spec_cover_needs_update(m: OnlineMetadata, force_refresh: bool, cover_file_present: bool) -> bool {
    if force_refresh {
        true
    } else {
        match m.cover {
            Some(_) => !cover_file_present,
            None => !m.cover_checked,
        }
    }
}

/// Decides whether to fetch the cover again, given whether the cached cover
/// file is on disk.
pub fn cover_needs_update(metadata: &OnlineMetadata, force_refresh: bool, cover_file_present: bool) -> (r: bool)
    ensures
        r == spec_cover_needs_update(*metadata, force_refresh, cover_file_present),
{
    if force_refresh {
        return true;
    }
    match &metadata.cover {
        Some(_) => !cover_file_present,
        None => !metadata.cover_checked,
    }
}

/// The file to look for before deciding on the cover: the cached file of the
/// cover, when there is one and no refresh is forced (otherwise the answer
/// does not depend on the disk).
pub open spec fn spec_cover_file_to_check(m: OnlineMetadata, force_refresh: bool) -> Option<Seq<char>> {
    if force_refresh {
        None
    } else {
        match m.cover {
            Some(c) => Some(c.cached_path@),
            None => None,
        }
    }
}

/// The file whose presence decides whether to fetch the cover again.
pub fn cover_file_to_check(metadata: &OnlineMetadata, force_refresh: bool) -> (r: Option<String>)
    ensures
        match r {
            Some(p) => spec_cover_file_to_check(*metadata, force_refresh) == Some(p@),
            None => spec_cover_file_to_check(*metadata, force_refresh) is None,
        },
{
    if force_refresh {
        return None;
    }
    match &metadata.cover {
        Some(c) => Some(c.cached_path.clone()),
        None => None,
    }
}

/// Whether the online cover should be fetched again, looking on disk for the
/// file `cover_file_to_check` names. Without such a file the answer is
/// `spec_cover_needs_update` whatever the disk holds; with one, it is that
/// rule applied to what the file system reported.
pub fn should_update_cover(metadata: &OnlineMetadata, force_refresh: bool) -> (r: bool)
    ensures
        spec_cover_file_to_check(*metadata, force_refresh) is None ==> r == spec_cover_needs_update(
            *metadata,
            force_refresh,
            true,
        ),
        exists|present: bool| r == #[trigger] spec_cover_needs_update(*metadata, force_refresh, present),
{
    let present = match cover_file_to_check(metadata, force_refresh) {
        Some(path) => path_exists(path.as_str()),
        None => true,
    };
    cover_needs_update(metadata, force_refresh, present)
}

/// `s` up to its first `c` (all of it when there is none).
pub open spec fn before_first(s: Seq<char>, c: char) -> Seq<char>
    decreases s.len(),
{
    if s.len() == 0 {
        s
    } else if s[0] == c {
        Seq::empty()
    } else {
        seq![s[0]] + before_first(s.drop_first(), c)
    }
}

/// Extension of the file a cover URL points to (query left out), `jpg`
/// when there is none.
pub open spec fn spec_cover_extension_from_url(url: Seq<char>) -> Seq<char> {
    match path_extension(before_first(url, '?')) {
        Some(e) => e,
        None => "jpg"@,
    }
}

proof fn lemma_before_first(s: Seq<char>, c: char, i: int)
    requires
        0 <= i <= s.len(),
        forall|k: int| 0 <= k < i ==> #[trigger] s[k] != c,
        i == s.len() || s[i] == c,
    ensures
        before_first(s, c) == s.take(i),
    decreases i,
{
    if i > 0 {
        let t = s.drop_first();
        assert forall|k: int| 0 <= k < i - 1 implies #[trigger] t[k] != c by {
            assert(t[k] == s[k + 1]);
        }
        if i < s.len() {
            assert(t[i - 1] == s[i]);
        }
        lemma_before_first(t, c, i - 1);
        assert(seq![s[0]] + t.take(i - 1) =~= s.take(i));
    } else if s.len() > 0 {
        assert(s.take(0) =~= Seq::<char>::empty());
    } else {
        assert(s.take(0) =~= s);
    }
}

/// Extension of the file a cover URL points to.
pub fn cover_extension_from_url(url: &str) -> (r: String)
    ensures
        r@ == spec_cover_extension_from_url(url@),
{
    let v = chars_of(url);
    let mut i: usize = 0;
    while i < v.len() && v[i] != '?'
        invariant
            i <= v.len(),
            forall|k: int| 0 <= k < i ==> #[trigger] v@[k] != '?',
        decreases v.len() - i,
    {
        i = i + 1;
    }
    proof {
        lemma_before_first(v@, '?', i as int);
        assert(v@.subrange(0, i as int) =~= v@.take(i as int));
    }
    let trimmed = string_of_range(&v, 0, i);
    match file_name_of(trimmed.as_str()) {
        Some(name) => {
            let n = chars_of(name.as_str());
            match extension_bounds(&n) {
                Some(j) => string_of_range(&n, j, n.len()),
                None => "jpg".to_owned(),
            }
        },
        None => "jpg".to_owned(),
    }
}

/// The text hashed into the cache key of an album: artist and album,
/// trimmed and lower-cased, joined by `::`.
pub open spec fn cache_key_input(artist: Seq<char>, album: Seq<char>) -> Seq<char> {
    lowercase(trim(artist)) + "::"@ + lowercase(trim(album))
}

/// Name of the metadata cache file of an album (without `.json`).
pub fn metadata_cache_key(artist: &str, album: &str) -> (r: String)
    ensures
        r@ == hex(std_hash_str(cache_key_input(artist@, album@)) as nat),
{
    let av = chars_of(artist);
    let (a0, a1) = trim_bounds(&av, 0, av.len());
    let bv = chars_of(album);
    let (b0, b1) = trim_bounds(&bv, 0, bv.len());
    proof {
        assert(av@.subrange(0, av.len() as int) =~= av@);
        assert(bv@.subrange(0, bv.len() as int) =~= bv@);
    }
    let at = string_of_range(&av, a0, a1);
    let bt = string_of_range(&bv, b0, b1);
    let al = to_lowercase(at.as_str());
    let bl = to_lowercase(bt.as_str());
    let mut input: Vec<char> = chars_of(al.as_str());
    push_str(&mut input, "::");
    let bc = chars_of(bl.as_str());
    push_chars(&mut input, &bc);
    let s = string_from_chars(&input);
    let h = hash_str(s.as_str());
    hex_string(h)
}

/// The first tag name of the reply, trimmed, when it is a non-blank string.
pub open spec fn spec_extract_genre(tags: TagField) -> Option<Seq<char>> {
    let name = match tags {
        TagField::List(v) => first_present(v@),
        TagField::Object(n) => n,
        TagField::Missing => TagName::Absent,
    };
    match name {
        TagName::Text(s) => if trim(s@).len() > 0 {
            Some(trim(s@))
        } else {
            None
        },
        _ => None,
    }
}

/// The first tag that has a `name` member (whatever its type).
pub open spec fn first_present(v: Seq<TagName>) -> TagName
    decreases v.len(),
{
    if v.len() == 0 {
        TagName::Absent
    } else if !(v[0] is Absent) {
        v[0]
    } else {
        first_present(v.drop_first())
    }
}

fn trimmed_nonblank(s: &String) -> (r: Option<String>)
    ensures
        match r {
            Some(t) => trim(s@).len() > 0 && t@ == trim(s@),
            None => trim(s@).len() == 0,
        },
{
    let v = chars_of(s.as_str());
    let (a, b) = trim_bounds(&v, 0, v.len());
    assert(v@.subrange(0, v.len() as int) =~= v@);
    if a < b {
        Some(string_of_range(&v, a, b))
    } else {
        None
    }
}

/// The tags of a Last.fm reply: `album.toptags.tag` when the reply has that
/// member, whatever its shape; else `album.tags.tag`; else none.
pub open spec fn spec_reply_tags(toptags: Option<TagField>, tags: Option<TagField>) -> TagField {
    match toptags {
        Some(t) => t,
        None => match tags {
            Some(t) => t,
            None => TagField::Missing,
        },
    }
}

/// Picks the tags of a reply from its two possible members (each `None`
/// when the reply lacks it).
pub fn reply_tags(toptags: Option<TagField>, tags: Option<TagField>) -> (r: TagField)
    ensures
        r == spec_reply_tags(toptags, tags),
{
    match toptags {
        Some(t) => t,
        None => match tags {
            Some(t) => t,
            None => TagField::Missing,
        },
    }
}

/// The genre of a Last.fm reply.
pub fn extract_genre(tags: &TagField) -> (r: Option<String>)
    ensures
        match spec_extract_genre(*tags) {
            Some(g) => r is Some && r.unwrap()@ == g,
            None => r is None,
        },
{
    match tags {
        TagField::List(v) => {
            let mut i: usize = 0;
            assert(v@.skip(0) =~= v@);
            while i < v.len()
                invariant
                    i <= v.len(),
                    *tags == TagField::List(*v),
                    first_present(v@) == first_present(v@.skip(i as int)),
                decreases v.len() - i,
            {
                proof {
                    assert(v@.skip(i as int).drop_first() =~= v@.skip(i + 1));
                    assert(v@.skip(i as int)[0] == v@[i as int]);
                }
                match &v[i] {
                    TagName::Absent => {},
                    TagName::Text(s) => {
                        proof {
                            assert(first_present(v@) == v@[i as int]);
                        }
                        return trimmed_nonblank(s);
                    },
                    TagName::NotText => {
                        proof {
                            assert(first_present(v@) == v@[i as int]);
                        }
                        return None;
                    },
                }
                i = i + 1;
            }
            proof {
                assert(v@.skip(v.len() as int) =~= Seq::<TagName>::empty());
            }
            None
        },
        TagField::Object(n) => match n {
            TagName::Text(s) => trimmed_nonblank(s),
            _ => None,
        },
        TagField::Missing => None,
    }
}

/// The year of a Last.fm reply: from its release date, else from the date its
/// wiki was published.
pub fn extract_year(release_date: Option<&str>, published: Option<&str>) -> (r: Option<u16>)
    ensures
        r == (match release_date {
            Some(d) => spec_parse_year(d@),
            None => match published {
                Some(p) => spec_parse_year(p@),
                None => None,
            },
        }),
{
    match release_date {
        Some(d) => parse_year(d),
        None => match published {
            Some(p) => parse_year(p),
            None => None,
        },
    }
}

pub open spec fn is_large_size(size: Option<String>) -> bool {
    match size {
        Some(s) => s@ == "mega"@ || s@ == "extralarge"@,
        None => false,
    }
}

/// The non-blank trimmed URL of an image, if any.
pub open spec fn image_url(e: ImageEntry) -> Option<Seq<char>> {
    match e.url {
        Some(u) => if trim(u@).len() > 0 {
            Some(trim(u@))
        } else {
            None
        },
        None => None,
    }
}

/// The cover URL of a Last.fm reply: the first large (`mega` or
/// `extralarge`) image with a URL, else the first image with a URL.
pub open spec fn spec_extract_cover_url(images: Seq<ImageEntry>) -> Option<Seq<char>>
    decreases images.len(),
{
    if images.len() == 0 {
        None
    } else {
        let rest = spec_extract_cover_url(images.drop_first());
        match image_url(images[0]) {
            Some(u) => if is_large_size(images[0].size) {
                Some(u)
            } else {
                match first_large(images.drop_first()) {
                    Some(l) => Some(l),
                    None => Some(u),
                }
            },
            None => rest,
        }
    }
}

/// The URL of the first large image with a URL.
pub open spec fn first_large(images: Seq<ImageEntry>) -> Option<Seq<char>>
    decreases images.len(),
{
    if images.len() == 0 {
        None
    } else if image_url(images[0]) is Some && is_large_size(images[0].size) {
        image_url(images[0])
    } else {
        first_large(images.drop_first())
    }
}

fn size_is_large(size: &Option<String>) -> (r: bool)
    ensures
        r == is_large_size(*size),
{
    match size {
        Some(s) => {
            let v = chars_of(s.as_str());
            let mega = chars_of("mega");
            let xl = chars_of("extralarge");
            chars_eq(&v, &mega) || chars_eq(&v, &xl)
        },
        None => false,
    }
}

/// The cover URL of a Last.fm reply (`None` when it lists no images).
pub fn extract_cover_url(images: &Option<Vec<ImageEntry>>) -> (r: Option<String>)
    ensures
        match images {
            Some(list) => match spec_extract_cover_url(list@) {
                Some(u) => r is Some && r.unwrap()@ == u,
                None => r is None,
            },
            None => r is None,
        },
{
    let list = match images {
        Some(l) => l,
        None => {
            return None;
        },
    };
    let mut fallback: Option<String> = None;
    let mut i: usize = 0;
    assert(list@.skip(0) =~= list@);
    assert(list@.take(0) =~= Seq::<ImageEntry>::empty());
    while i < list.len()
        invariant
            i <= list.len(),
            *images == Some(*list),
            first_large(list@.take(i as int)) is None,
            match fallback {
                Some(f) => {
                    &&& spec_extract_cover_url(list@) == (match first_large(list@.skip(i as int)) {
                        Some(l) => Some(l),
                        None => Some(f@),
                    })
                },
                None => spec_extract_cover_url(list@) == spec_extract_cover_url(list@.skip(i as int)),
            },
        decreases list.len() - i,
    {
        let ghost rest = list@.skip(i as int);
        proof {
            assert(rest.drop_first() =~= list@.skip(i + 1));
            assert(rest[0] == list@[i as int]);
        }
        let url = match &list[i].url {
            Some(u) => trimmed_nonblank(u),
            None => None,
        };
        match url {
            Some(u) => {
                if size_is_large(&list[i].size) {
                    proof {
                        lemma_first_large_prefix_none(list@, i as int);
                    }
                    return Some(u);
                }
                if fallback.is_none() {
                    fallback = Some(u);
                }
            },
            None => {},
        }
        proof {
            lemma_first_large_take(list@, i as int);
        }
        i = i + 1;
    }
    proof {
        assert(list@.skip(list.len() as int) =~= Seq::<ImageEntry>::empty());
    }
    fallback
}

proof fn lemma_first_large_take(list: Seq<ImageEntry>, i: int)
    requires
        0 <= i < list.len(),
        first_large(list.take(i)) is None,
        !(image_url(list[i]) is Some && is_large_size(list[i].size)),
    ensures
        first_large(list.take(i + 1)) is None,
    decreases i,
{
    if i == 0 {
        assert(list.take(1).drop_first() =~= Seq::<ImageEntry>::empty());
        assert(list.take(1)[0] == list[0]);
    } else {
        let t = list.drop_first();
        assert(list.take(i).drop_first() =~= t.take(i - 1));
        assert(list.take(i + 1).drop_first() =~= t.take(i));
        assert(list.take(i)[0] == list[0]);
        assert(list.take(i + 1)[0] == list[0]);
        assert(t[i - 1] == list[i]);
        lemma_first_large_take(t, i - 1);
    }
}

proof fn lemma_first_large_prefix_none(list: Seq<ImageEntry>, i: int)
    requires
        0 <= i < list.len(),
        first_large(list.take(i)) is None,
        image_url(list[i]) is Some && is_large_size(list[i].size),
    ensures
        first_large(list.skip(i)) == image_url(list[i]),
{
    assert(list.skip(i)[0] == list[i]);
}

/// Metadata completed with a Last.fm reply: a missing genre or year is
/// taken from it, a downloaded cover (when a download was tried and
/// succeeded, `Some`) replaces the cover, and the cover counts as looked for.
pub open spec fn spec_enriched(m: OnlineMetadata, fm: LastFmMetadata, downloaded: Option<Option<CoverArt>>) -> OnlineMetadata {
    OnlineMetadata {
        genre: if m.genre is None {
            fm.genre
        } else {
            m.genre
        },
        year: if m.year is None {
            fm.year
        } else {
            m.year
        },
        cover: match downloaded {
            Some(c) => c,
            None => m.cover,
        },
        cover_checked: true,
    }
}

/// Completing metadata with a Last.fm reply fills what is missing and
/// overrides nothing: a missing genre or year becomes the reply's, a known one
/// stays; the cover changes only when a download was tried and succeeded; the
/// cover counts as looked for. Completing a second time with the same reply
/// and no new download changes nothing more.
pub proof fn lemma_enrich_fills_missing(m: OnlineMetadata, fm: LastFmMetadata, downloaded: Option<Option<CoverArt>>)
    ensures
        m.genre is None ==> spec_enriched(m, fm, downloaded).genre == fm.genre,
        m.genre is Some ==> spec_enriched(m, fm, downloaded).genre == m.genre,
        m.year is None ==> spec_enriched(m, fm, downloaded).year == fm.year,
        m.year is Some ==> spec_enriched(m, fm, downloaded).year == m.year,
        downloaded is None ==> spec_enriched(m, fm, downloaded).cover == m.cover,
        downloaded matches Some(c) ==> spec_enriched(m, fm, downloaded).cover == c,
        spec_enriched(m, fm, downloaded).cover_checked,
        spec_enriched(spec_enriched(m, fm, downloaded), fm, None) == spec_enriched(m, fm, downloaded),
{
}

/// `cache_dir/<key>.json`: the metadata cache file of an album, keyed by
/// `metadata_cache_key`.
pub fn metadata_cache_path(cache_dir: &str, artist: &str, album: &str) -> (r: String)
    ensures
        r@ == join_path(cache_dir@, hex(std_hash_str(cache_key_input(artist@, album@)) as nat) + ".json"@),
{
    let key = metadata_cache_key(artist, album);
    let mut name: Vec<char> = chars_of(key.as_str());
    push_str(&mut name, ".json");
    let file = string_from_chars(&name);
    join(cache_dir, file.as_str())
}

/// `cache_dir/online-<key>.<extension>`: where a downloaded cover is kept.
pub fn online_cover_path(cache_dir: &str, cache_key: &str, extension: &str) -> (r: String)
    ensures
        r@ == join_path(cache_dir@, "online-"@ + cache_key@ + "."@ + extension@),
{
    let mut name: Vec<char> = Vec::new();
    push_str(&mut name, "online-");
    push_str(&mut name, cache_key);
    push_str(&mut name, ".");
    push_str(&mut name, extension);
    let file = string_from_chars(&name);
    join(cache_dir, file.as_str())
}

/// Completes metadata with a Last.fm reply.
pub fn enrich_metadata(metadata: OnlineMetadata, lastfm: LastFmMetadata, downloaded: Option<Option<CoverArt>>) -> (r:
    OnlineMetadata)
    ensures
        r == spec_enriched(metadata, lastfm, downloaded),
        metadata.genre is None ==> r.genre == lastfm.genre,
        metadata.genre is Some ==> r.genre == metadata.genre,
        metadata.year is None ==> r.year == lastfm.year,
        metadata.year is Some ==> r.year == metadata.year,
        r.cover_checked,
{
    let mut m = metadata;
    if m.genre.is_none() {
        m.genre = lastfm.genre;
    }
    if m.year.is_none() {
        m.year = lastfm.year;
    }
    match downloaded {
        Some(c) => {
            m.cover = c;
        },
        None => {},
    }
    m.cover_checked = true;
    m
}

/// The URL to download the cover from, when the cover needs an update and
/// the reply has one.
pub fn cover_download_url(metadata: &OnlineMetadata, lastfm: &LastFmMetadata, force_refresh: bool, cover_file_present: bool) -> (r:
    Option<String>)
    ensures
        r == (if spec_cover_needs_update(*metadata, force_refresh, cover_file_present) {
            lastfm.cover_url
        } else {
            None
        }),
{
    if cover_needs_update(metadata, force_refresh, cover_file_present) {
        match &lastfm.cover_url {
            Some(u) => Some(u.clone()),
            None => None,
        }
    } else {
        None
    }
}

/// The API key of the settings, trimmed; none when blank (no online
/// lookup then).
pub fn api_key_of(settings: &UserSettings) -> (r: Option<String>)
    ensures
        match r {
            Some(k) => trim(settings.metadata_api_key@).len() > 0 && k@ == trim(settings.metadata_api_key@),
            None => trim(settings.metadata_api_key@).len() == 0,
        },
{
    trimmed_nonblank(&settings.metadata_api_key)
}

/// How long a cached reply stays good, in seconds.
pub fn ttl_secs(hours: u32) -> (r: u64)
    ensures
        r == hours * 3600,
{
    (hours as u64) * 3600
}

/// Whether a cached reply can be used without asking again: it is younger
/// than the time to live, and its cover is on disk or was looked for.
pub open spec fn spec_cache_usable(
    entry: CachedOnlineMetadata,
    now_secs: u64,
    ttl: u64,
    cover_file_present: bool,
) -> bool {
    let age = if now_secs >= entry.fetched_at {
        now_secs - entry.fetched_at
    } else {
        0
    };
    &&& ttl > 0
    &&& age < ttl
    &&& ((entry.metadata.cover is Some && cover_file_present) || entry.metadata.cover_checked)
}

pub fn cache_usable(entry: &CachedOnlineMetadata, now_secs: u64, ttl: u64, cover_file_present: bool) -> (r: bool)
    ensures
        r == spec_cache_usable(*entry, now_secs, ttl, cover_file_present),
{
    let age = if now_secs >= entry.fetched_at {
        now_secs - entry.fetched_at
    } else {
        0
    };
    ttl > 0 && age < ttl && ((entry.metadata.cover.is_some() && cover_file_present)
        || entry.metadata.cover_checked)
}

/// What is written after a fetch: the new metadata, stamped now, keeping
/// the user's edit of the cached entry.
pub fn refreshed_entry(cached: Option<CachedOnlineMetadata>, metadata: OnlineMetadata, now_secs: u64) -> (r:
    CachedOnlineMetadata)
    ensures
        r.fetched_at == now_secs,
        r.metadata == metadata,
        r.user_override == (match cached {
            Some(c) => c.user_override,
            None => None,
        }),
{
    let user_override = match cached {
        Some(c) => c.user_override,
        None => None,
    };
    CachedOnlineMetadata { fetched_at: now_secs, metadata, user_override }
}

/// What is written when the user edits an album: the cached reply is kept
/// (an empty one when there is none) and the edit, stamped now, replaces
/// any earlier one.
pub fn with_user_override(existing: Option<CachedOnlineMetadata>, user_override: UserMetadataOverride, now_secs: u64) -> (r:
    CachedOnlineMetadata)
    ensures
        r.fetched_at == (match existing {
            Some(e) => e.fetched_at,
            None => 0,
        }),
        existing is Some ==> r.metadata == existing.unwrap().metadata,
        existing is None ==> r.metadata.genre is None && r.metadata.year is None && r.metadata.cover is None
            && !r.metadata.cover_checked,
        r.user_override == Some(UserMetadataOverride { edited_at: now_secs, ..user_override }),
{
    let mut o = user_override;
    o.edited_at = now_secs;
    match existing {
        Some(e) => CachedOnlineMetadata { fetched_at: e.fetched_at, metadata: e.metadata, user_override: Some(o) },
        None => CachedOnlineMetadata { fetched_at: 0, metadata: OnlineMetadata::default(), user_override: Some(o) },
    }
}

/// The user's edit kept in a cache entry, if any.
pub fn user_override_of(entry: Option<CachedOnlineMetadata>) -> (r: Option<UserMetadataOverride>)
    ensures
        r == (match entry {
            Some(e) => e.user_override,
            None => None,
        }),
{
    match entry {
        Some(e) => e.user_override,
        None => None,
    }
}

proof fn lemma_scan_year_range(s: Seq<char>)
    ensures
        scan_year(s).0 matches Some(y) ==> 1 <= y <= 9999,
    decreases s.len(),
{
    if s.len() > 0 {
        lemma_scan_year_range(s.drop_last());
        lemma_scan_year_run(s.drop_last());
        let (found, run) = scan_year(s.drop_last());
        if found is None && is_digit(s.last()) {
            let run2 = run.push(s.last());
            if run2.len() == 4 {
                assert(all_digits(run2)) by {
                    assert forall|k: int| 0 <= k < run2.len() implies is_digit(#[trigger] run2[k]) by {
                        if k < run.len() {
                            assert(run2[k] == run[k]);
                        }
                    }
                }
                lemma_four_digits_bound(run2);
            }
        }
    }
}

/// A year read from a date is between 1 and 9999.
pub proof fn lemma_parse_year_range(s: Seq<char>)
    ensures
        spec_parse_year(s) matches Some(y) ==> 1 <= y <= 9999,
{
    lemma_scan_year_range(s);
}

} // verus!

