//! How folder and file names of a music library are read: album folders
//! (`2003 - Album`), track files (`01 - Title.flac`), extensions, cover
//! file names and multi-valued genre fields.
use vstd::prelude::*;

use crate::text::{
    all_digits, back_class, char_in_class, chars_eq, chars_eq_ignore_ascii_case, chars_of,
    digit_prefix_len, digits_value, eq_ignore_ascii_case, lemma_digit_prefix_all, lowercase,
    parse_digits, skip_class, skip_digits, slice_chars, string_from_chars, string_of_range,
    to_lowercase, trim, trim_bounds, trim_start_by, CharClass,
};

verus! {

/// Result of reading a track file stem: the number it starts with (when that
/// number fits in a `u8`) and the title.
pub open spec fn spec_parse_track_filename(s: Seq<char>) -> (Option<u8>, Seq<char>) {
    let t = trim(s);
    let n = digit_prefix_len(t);
    if n > 0 {
        let title0 = trim(trim_start_by(t.subrange(n as int, t.len() as int), CharClass::TrackSep));
        let title = if title0.len() == 0 {
            t
        } else {
            title0
        };
        let v = digits_value(t.take(n as int));
        (
            if v <= 255 {
                Some(v as u8)
            } else {
                None
            },
            title,
        )
    } else {
        (None, t)
    }
}

/// Result of reading an album folder name: a year of at least four digits that
/// fits in a `u16` (else 0) and the title.
pub open spec fn spec_parse_album_folder(s: Seq<char>) -> (u16, Seq<char>) {
    let t = trim(s);
    let n = digit_prefix_len(t);
    let v = digits_value(t.take(n as int));
    if n >= 4 && v <= 65535 {
        let title0 = trim(trim_start_by(t.subrange(n as int, t.len() as int), CharClass::AlbumSep));
        (
            v as u16,
            if title0.len() == 0 {
                t
            } else {
                title0
            },
        )
    } else {
        (0, t)
    }
}

/// Reads a track file stem such as `01 - Lumiere` or `7_Titre`.
pub fn parse_track_filename(name: &str) -> (r: (Option<u8>, String))
    ensures
        (r.0, r.1@) == spec_parse_track_filename(name@),
{
    let v = chars_of(name);
    let (a, b) = trim_bounds(&v, 0, v.len());
    let ghost t = v@.subrange(a as int, b as int);
    assert(v@.subrange(0, v.len() as int) =~= v@);
    let d = skip_digits(&v, a, b);
    if d > a {
        let s = skip_class(&v, d, b, CharClass::TrackSep);
        let (ta, tb) = trim_bounds(&v, s, b);
        proof {
            let n = digit_prefix_len(t);
            assert(t.subrange(n as int, t.len() as int) =~= v@.subrange(d as int, b as int));
            assert(trim_start_by(t.subrange(n as int, t.len() as int), CharClass::TrackSep)
                =~= v@.subrange(s as int, b as int));
            assert(t.take(n as int) =~= v@.subrange(a as int, d as int));
            lemma_digit_prefix_all(t);
            assert forall|k: int| 0 <= k < d - a implies crate::text::is_digit(
                #[trigger] v@.subrange(a as int, d as int)[k],
            ) by {
                assert(v@.subrange(a as int, d as int)[k] == t[k]);
            }
        }
        let title = if ta == tb {
            string_of_range(&v, a, b)
        } else {
            string_of_range(&v, ta, tb)
        };
        let num = parse_digits(&v, a, d, 255);
        let number = match num {
            Some(x) => Some(x as u8),
            None => None,
        };
        (number, title)
    } else {
        (None, string_of_range(&v, a, b))
    }
}

/// Reads an album folder name such as `2003 - Album Name`.
pub fn parse_album_folder(name: &str) -> (r: (u16, String))
    ensures
        (r.0, r.1@) == spec_parse_album_folder(name@),
{
    let v = chars_of(name);
    let (a, b) = trim_bounds(&v, 0, v.len());
    let ghost t = v@.subrange(a as int, b as int);
    assert(v@.subrange(0, v.len() as int) =~= v@);
    let d = skip_digits(&v, a, b);
    proof {
        let n = digit_prefix_len(t);
        assert(t.take(n as int) =~= v@.subrange(a as int, d as int));
        lemma_digit_prefix_all(t);
        assert forall|k: int| 0 <= k < d - a implies crate::text::is_digit(
            #[trigger] v@.subrange(a as int, d as int)[k],
        ) by {
            assert(v@.subrange(a as int, d as int)[k] == t[k]);
        }
    }
    if d - a >= 4 {
        let year = parse_digits(&v, a, d, 65535);
        match year {
            Some(y) => {
                let s = skip_class(&v, d, b, CharClass::AlbumSep);
                let (ta, tb) = trim_bounds(&v, s, b);
                proof {
                    let n = digit_prefix_len(t);
                    assert(t.subrange(n as int, t.len() as int) =~= v@.subrange(
                        d as int,
                        b as int,
                    ));
                    assert(trim_start_by(t.subrange(n as int, t.len() as int), CharClass::AlbumSep)
                        =~= v@.subrange(s as int, b as int));
                }
                let title = if ta == tb {
                    string_of_range(&v, a, b)
                } else {
                    string_of_range(&v, ta, tb)
                };
                return (y as u16, title);
            },
            None => {},
        }
    }
    (0, string_of_range(&v, a, b))
}

/// Index of the last `.` of `f`, or -1.
pub open spec fn last_dot(f: Seq<char>) -> int
    decreases f.len(),
{
    if f.len() == 0 {
        -1
    } else if f.last() == '.' {
        f.len() - 1
    } else {
        last_dot(f.drop_last())
    }
}

pub open spec fn is_dot_dot(f: Seq<char>) -> bool {
    f == seq!['.', '.']
}

/// `Path::extension` of a file name: what follows the last `.`, unless the name
/// is `..`, has no `.`, or its only `.` is the first character.
pub open spec fn file_extension(f: Seq<char>) -> Option<Seq<char>> {
    if is_dot_dot(f) || last_dot(f) <= 0 {
        None
    } else {
        Some(f.subrange(last_dot(f) + 1, f.len() as int))
    }
}

/// `Path::file_stem` of a file name.
pub open spec fn file_stem(f: Seq<char>) -> Seq<char> {
    if is_dot_dot(f) || last_dot(f) <= 0 {
        f
    } else {
        f.subrange(0, last_dot(f))
    }
}

proof fn lemma_last_dot_at(f: Seq<char>, j: int)
    requires
        -1 <= j < f.len(),
        j == -1 || f[j] == '.',
        forall|k: int| j < k < f.len() ==> #[trigger] f[k] != '.',
    ensures
        last_dot(f) == j,
    decreases f.len(),
{
    if f.len() > 0 && j < f.len() - 1 {
        let g = f.drop_last();
        assert(f.last() != '.');
        assert forall|k: int| j < k < g.len() implies #[trigger] g[k] != '.' by {
            assert(g[k] == f[k]);
        }
        if j >= 0 {
            assert(g[j] == f[j]);
        }
        lemma_last_dot_at(g, j);
    }
}

/// Position of the last `.` in `v`, if any.
fn find_last_dot(v: &Vec<char>) -> (r: Option<usize>)
    ensures
        match r {
            Some(i) => i < v.len() && last_dot(v@) == i,
            None => last_dot(v@) == -1,
        },
{
    let mut j = v.len();
    while j > 0 && v[j - 1] != '.'
        invariant
            j <= v.len(),
            forall|k: int| j <= k < v.len() ==> #[trigger] v@[k] != '.',
        decreases j,
    {
        j = j - 1;
    }
    if j == 0 {
        proof {
            lemma_last_dot_at(v@, -1);
        }
        None
    } else {
        proof {
            lemma_last_dot_at(v@, j - 1);
        }
        Some(j - 1)
    }
}

/// Bounds of the extension of the file name `v`, when it has one.
pub fn extension_bounds(v: &Vec<char>) -> (r: Option<usize>)
    ensures
        match r {
            Some(i) => i <= v.len() && file_extension(v@) == Some(v@.subrange(i as int, v.len() as int)),
            None => file_extension(v@) is None,
        },
{
    let dots = vec!['.', '.'];
    if chars_eq(v, &dots) {
        return None;
    }
    match find_last_dot(v) {
        Some(i) => {
            if i == 0 {
                None
            } else {
                Some(i + 1)
            }
        },
        None => None,
    }
}

/// The stem of the file name `v`, as a position: `v[..r]`.
pub fn stem_end(v: &Vec<char>) -> (r: usize)
    ensures
        r <= v.len(),
        file_stem(v@) == v@.subrange(0, r as int),
{
    assert(v@.subrange(0, v.len() as int) =~= v@);
    let dots = vec!['.', '.'];
    if chars_eq(v, &dots) {
        return v.len();
    }
    match find_last_dot(v) {
        Some(i) => {
            if i == 0 {
                v.len()
            } else {
                i
            }
        },
        None => v.len(),
    }
}

/// The audio formats that a library scan picks up (lower-case extensions).
pub open spec fn is_audio_extension(e: Seq<char>) -> bool {
    ||| e == seq!['m', 'p', '3']
    ||| e == seq!['f', 'l', 'a', 'c']
    ||| e == seq!['w', 'a', 'v']
    ||| e == seq!['o', 'g', 'g']
    ||| e == seq!['m', '4', 'a']
    ||| e == seq!['a', 'a', 'c']
    ||| e == seq!['o', 'p', 'u', 's']
    ||| e == seq!['a', 'i', 'f']
    ||| e == seq!['a', 'i', 'f', 'f']
    ||| e == seq!['w', 'm', 'a']
}

/// Whether a file with this name is an audio file: its extension, lower-cased,
/// is one of the supported formats.
pub open spec fn is_audio_name(f: Seq<char>) -> bool {
    match file_extension(f) {
        Some(e) => is_audio_extension(lowercase(e)),
        None => false,
    }
}

/// The audio formats are exactly MP3, FLAC, WAV, Ogg, M4A, AAC, Opus, AIFF
/// (`aif`, `aiff`) and WMA, by their lower-case extensions; a file whose
/// lower-cased extension is one of them is an audio file, and no other is.
pub proof fn lemma_audio_formats(e: Seq<char>, f: Seq<char>)
    ensures
        is_audio_extension("mp3"@),
        is_audio_extension("flac"@),
        is_audio_extension("wav"@),
        is_audio_extension("ogg"@),
        is_audio_extension("m4a"@),
        is_audio_extension("aac"@),
        is_audio_extension("opus"@),
        is_audio_extension("aif"@),
        is_audio_extension("aiff"@),
        is_audio_extension("wma"@),
        is_audio_extension(e) <==> (e == "mp3"@ || e == "flac"@ || e == "wav"@ || e == "ogg"@ || e == "m4a"@ || e == "aac"@ || e == "opus"@ || e == "aif"@ || e == "aiff"@ || e == "wma"@),
        is_audio_name(f) <==> (file_extension(f) matches Some(x) && is_audio_extension(lowercase(x))),
        !is_audio_extension("mp4"@),
        !is_audio_extension("MP3"@),
{
    reveal_strlit("mp3");
    assert("mp3"@ =~= seq!['m', 'p', '3']);
    reveal_strlit("flac");
    assert("flac"@ =~= seq!['f', 'l', 'a', 'c']);
    reveal_strlit("wav");
    assert("wav"@ =~= seq!['w', 'a', 'v']);
    reveal_strlit("ogg");
    assert("ogg"@ =~= seq!['o', 'g', 'g']);
    reveal_strlit("m4a");
    assert("m4a"@ =~= seq!['m', '4', 'a']);
    reveal_strlit("aac");
    assert("aac"@ =~= seq!['a', 'a', 'c']);
    reveal_strlit("opus");
    assert("opus"@ =~= seq!['o', 'p', 'u', 's']);
    reveal_strlit("aif");
    assert("aif"@ =~= seq!['a', 'i', 'f']);
    reveal_strlit("aiff");
    assert("aiff"@ =~= seq!['a', 'i', 'f', 'f']);
    reveal_strlit("wma");
    assert("wma"@ =~= seq!['w', 'm', 'a']);
    reveal_strlit("mp4");
    reveal_strlit("MP3");
}

fn is_audio_ext_chars(e: &Vec<char>) -> (r: bool)
    ensures
        r == is_audio_extension(e@),
{
    chars_eq(e, &vec!['m', 'p', '3']) || chars_eq(e, &vec!['f', 'l', 'a', 'c']) || chars_eq(
        e,
        &vec!['w', 'a', 'v'],
    ) || chars_eq(e, &vec!['o', 'g', 'g']) || chars_eq(e, &vec!['m', '4', 'a']) || chars_eq(
        e,
        &vec!['a', 'a', 'c'],
    ) || chars_eq(e, &vec!['o', 'p', 'u', 's']) || chars_eq(e, &vec!['a', 'i', 'f']) || chars_eq(
        e,
        &vec!['a', 'i', 'f', 'f'],
    ) || chars_eq(e, &vec!['w', 'm', 'a'])
}

/// The lower-cased extension of a file name, if it has one.
pub fn lower_extension(file_name: &str) -> (r: Option<Vec<char>>)
    ensures
        (r is Some) == (file_extension(file_name@) is Some),
        r is Some ==> r.unwrap()@ == lowercase(file_extension(file_name@).unwrap()),
{
    let v = chars_of(file_name);
    match extension_bounds(&v) {
        Some(i) => {
            let ext = string_of_range(&v, i, v.len());
            let lower = to_lowercase(ext.as_str());
            let lv = chars_of(lower.as_str());
            Some(lv)
        },
        None => None,
    }
}

/// Whether a file name denotes an audio file of a supported format.
pub fn is_audio_file(file_name: &str) -> (r: bool)
    ensures
        r == is_audio_name(file_name@),
{
    match lower_extension(file_name) {
        Some(e) => is_audio_ext_chars(&e),
        None => false,
    }
}

/// Image extensions that may hold an album cover.
pub open spec fn is_image_extension(e: Seq<char>) -> bool {
    ||| e == seq!['j', 'p', 'g']
    ||| e == seq!['j', 'p', 'e', 'g']
    ||| e == seq!['p', 'n', 'g']
    ||| e == seq!['w', 'e', 'b', 'p']
}

pub open spec fn is_image_name(f: Seq<char>) -> bool {
    match file_extension(f) {
        Some(e) => is_image_extension(lowercase(e)),
        None => false,
    }
}

/// Whether a file name denotes an image that may be an album cover.
pub fn is_image_file(file_name: &str) -> (r: bool)
    ensures
        r == is_image_name(file_name@),
{
    match lower_extension(file_name) {
        Some(e) => chars_eq(&e, &vec!['j', 'p', 'g']) || chars_eq(&e, &vec!['j', 'p', 'e', 'g'])
            || chars_eq(&e, &vec!['p', 'n', 'g']) || chars_eq(&e, &vec!['w', 'e', 'b', 'p']),
        None => false,
    }
}

/// Rank of a (lower-cased) cover file stem: `cover`, `folder`, `front`,
/// `artwork`, `album` come first, in that order; any other name ranks 5.
pub open spec fn spec_cover_priority(stem: Seq<char>) -> nat {
    if stem == seq!['c', 'o', 'v', 'e', 'r'] {
        0
    } else if stem == seq!['f', 'o', 'l', 'd', 'e', 'r'] {
        1
    } else if stem == seq!['f', 'r', 'o', 'n', 't'] {
        2
    } else if stem == seq!['a', 'r', 't', 'w', 'o', 'r', 'k'] {
        3
    } else if stem == seq!['a', 'l', 'b', 'u', 'm'] {
        4
    } else {
        5
    }
}

/// Rank of a (lower-cased) cover file stem.
pub fn cover_priority(stem: &str) -> (r: usize)
    ensures
        r == spec_cover_priority(stem@),
{
    let v = chars_of(stem);
    if chars_eq(&v, &vec!['c', 'o', 'v', 'e', 'r']) {
        0
    } else if chars_eq(&v, &vec!['f', 'o', 'l', 'd', 'e', 'r']) {
        1
    } else if chars_eq(&v, &vec!['f', 'r', 'o', 'n', 't']) {
        2
    } else if chars_eq(&v, &vec!['a', 'r', 't', 'w', 'o', 'r', 'k']) {
        3
    } else if chars_eq(&v, &vec!['a', 'l', 'b', 'u', 'm']) {
        4
    } else {
        5
    }
}

/// The cover rank of an image file name: its lower-cased stem ranked by
/// `spec_cover_priority`.
pub open spec fn cover_rank(f: Seq<char>) -> nat {
    spec_cover_priority(lowercase(file_stem(f)))
}

/// Rank of an image file name as a cover candidate.
pub fn cover_rank_of(file_name: &str) -> (r: usize)
    ensures
        r == cover_rank(file_name@),
{
    let v = chars_of(file_name);
    let e = stem_end(&v);
    let stem = string_of_range(&v, 0, e);
    let lower = to_lowercase(stem.as_str());
    cover_priority(lower.as_str())
}

/// Extension for a cached embedded cover, from its MIME type (compared without
/// regard to ASCII case).
pub open spec fn spec_embedded_cover_extension(mime: Option<Seq<char>>) -> Seq<char> {
    match mime {
        Some(m) => if eq_ignore_ascii_case(m, seq!['i', 'm', 'a', 'g', 'e', '/', 'j', 'p', 'e', 'g'])
            || eq_ignore_ascii_case(m, seq!['i', 'm', 'a', 'g', 'e', '/', 'j', 'p', 'g']) {
            seq!['j', 'p', 'g']
        } else if eq_ignore_ascii_case(m, seq!['i', 'm', 'a', 'g', 'e', '/', 'p', 'n', 'g']) {
            seq!['p', 'n', 'g']
        } else if eq_ignore_ascii_case(m, seq!['i', 'm', 'a', 'g', 'e', '/', 'w', 'e', 'b', 'p']) {
            seq!['w', 'e', 'b', 'p']
        } else {
            seq!['i', 'm', 'g']
        },
        None => seq!['i', 'm', 'g'],
    }
}

/// Extension for a cached embedded cover, from its MIME type.
pub fn embedded_cover_extension(mime_type: Option<&str>) -> (r: String)
    ensures
        r@ == spec_embedded_cover_extension(
            match mime_type {
                Some(m) => Some(m@),
                None => None,
            },
        ),
{
    let ext = match mime_type {
        Some(m) => {
            let v = chars_of(m);
            if chars_eq_ignore_ascii_case(&v, &vec!['i', 'm', 'a', 'g', 'e', '/', 'j', 'p', 'e', 'g'])
                || chars_eq_ignore_ascii_case(&v, &vec!['i', 'm', 'a', 'g', 'e', '/', 'j', 'p', 'g']) {
                vec!['j', 'p', 'g']
            } else if chars_eq_ignore_ascii_case(&v, &vec!['i', 'm', 'a', 'g', 'e', '/', 'p', 'n', 'g']) {
                vec!['p', 'n', 'g']
            } else if chars_eq_ignore_ascii_case(
                &v,
                &vec!['i', 'm', 'a', 'g', 'e', '/', 'w', 'e', 'b', 'p'],
            ) {
                vec!['w', 'e', 'b', 'p']
            } else {
                vec!['i', 'm', 'g']
            }
        },
        None => vec!['i', 'm', 'g'],
    };
    string_from_chars(&ext)
}

/// Title of the album made of the tracks at the library root: the root's
/// trimmed file name, else its trimmed display form, else `Library`.
pub open spec fn spec_root_album_title(file_name: Option<Seq<char>>, display: Seq<char>) -> Seq<
    char,
> {
    match file_name {
        Some(n) if trim(n).len() > 0 => trim(n),
        _ => if trim(display).len() > 0 {
            trim(display)
        } else {
            seq!['L', 'i', 'b', 'r', 'a', 'r', 'y']
        },
    }
}

/// Title of the album made of the tracks at the library root. `file_name` is
/// the root's last path component when it is valid UTF-8; `display` is the
/// whole root path, lossily decoded.
pub fn root_album_title(file_name: Option<&str>, display: &str) -> (r: String)
    ensures
        r@ == spec_root_album_title(
            match file_name {
                Some(n) => Some(n@),
                None => None,
            },
            display@,
        ),
{
    match file_name {
        Some(n) => {
            let v = chars_of(n);
            let (a, b) = trim_bounds(&v, 0, v.len());
            assert(v@.subrange(0, v.len() as int) =~= v@);
            if a < b {
                return string_of_range(&v, a, b);
            }
        },
        None => {},
    }
    let d = chars_of(display);
    let (a, b) = trim_bounds(&d, 0, d.len());
    assert(d@.subrange(0, d.len() as int) =~= d@);
    if a < b {
        string_of_range(&d, a, b)
    } else {
        string_from_chars(&vec!['L', 'i', 'b', 'r', 'a', 'r', 'y'])
    }
}

/// Separators of a multi-valued genre field.
pub open spec fn is_genre_sep(c: char) -> bool {
    c == ';' || c == '/' || c == '\\' || c == ',' || c == '|'
}

/// The pieces of `s` between separators (one more piece than separators).
pub open spec fn genre_pieces(s: Seq<char>) -> Seq<Seq<char>>
    decreases s.len(),
{
    if s.len() == 0 {
        seq![Seq::<char>::empty()]
    } else {
        let p = genre_pieces(s.drop_last());
        if is_genre_sep(s.last()) {
            p.push(Seq::<char>::empty())
        } else {
            p.update(p.len() - 1, p.last().push(s.last()))
        }
    }
}

/// Trimmed pieces, the empty ones left out.
pub open spec fn keep_nonempty_trimmed(p: Seq<Seq<char>>) -> Seq<Seq<char>>
    decreases p.len(),
{
    if p.len() == 0 {
        Seq::empty()
    } else {
        let r = keep_nonempty_trimmed(p.drop_last());
        if trim(p.last()).len() > 0 {
            r.push(trim(p.last()))
        } else {
            r
        }
    }
}

/// The genres of a genre field such as `Rock; Pop / Jazz`.
pub open spec fn split_genres(s: Seq<char>) -> Seq<Seq<char>> {
    keep_nonempty_trimmed(genre_pieces(s))
}

proof fn lemma_genre_pieces_nonempty(s: Seq<char>)
    ensures
        genre_pieces(s).len() >= 1,
    decreases s.len(),
{
    if s.len() > 0 {
        lemma_genre_pieces_nonempty(s.drop_last());
    }
}

/// The genres of a genre field, in order.
pub fn split_genre_field(value: &str) -> (r: Vec<String>)
    ensures
        r@.map_values(|g: String| g@) == split_genres(value@),
{
    let v = chars_of(value);
    let mut out: Vec<String> = Vec::new();
    let mut cur: Vec<char> = Vec::new();
    let mut i: usize = 0;
    proof {
        assert(v@.take(0) =~= Seq::<char>::empty());
    }
    while i < v.len()
        invariant
            i <= v.len(),
            genre_pieces(v@.take(i as int)).len() >= 1,
            cur@ == genre_pieces(v@.take(i as int)).last(),
            out@.map_values(|g: String| g@) == keep_nonempty_trimmed(
                genre_pieces(v@.take(i as int)).drop_last(),
            ),
        decreases v.len() - i,
    {
        let ghost before = v@.take(i as int);
        let ghost p = genre_pieces(before);
        let c = v[i];
        assert(v@.take(i + 1).drop_last() =~= before);
        assert(v@.take(i + 1).last() == c);
        if c == ';' || c == '/' || c == '\\' || c == ',' || c == '|' {
            let (a, b) = trim_bounds(&cur, 0, cur.len());
            assert(cur@.subrange(0, cur.len() as int) =~= cur@);
            proof {
                assert(p.push(Seq::<char>::empty()).drop_last() =~= p);
                assert(p.drop_last().push(p.last()) =~= p);
            }
            if a < b {
                let piece = string_of_range(&cur, a, b);
                out.push(piece);
                proof {
                    assert(out@.map_values(|g: String| g@) =~= keep_nonempty_trimmed(
                        p.drop_last(),
                    ).push(trim(p.last())));
                }
            }
            cur = Vec::new();
            proof {
                assert(cur@ =~= Seq::<char>::empty());
            }
        } else {
            cur.push(c);
            proof {
                let q = p.update(p.len() - 1, p.last().push(c));
                assert(q.drop_last() =~= p.drop_last());
            }
        }
        i = i + 1;
    }
    let (a, b) = trim_bounds(&cur, 0, cur.len());
    assert(cur@.subrange(0, cur.len() as int) =~= cur@);
    let ghost p = genre_pieces(v@.take(i as int));
    proof {
        assert(p.drop_last().push(p.last()) =~= p);
    }
    if a < b {
        let piece = string_of_range(&cur, a, b);
        out.push(piece);
        proof {
            assert(out@.map_values(|g: String| g@) =~= keep_nonempty_trimmed(p.drop_last()).push(
                trim(p.last()),
            ));
        }
    }
    assert(v@.take(v.len() as int) =~= v@);
    out
}

} // verus!
