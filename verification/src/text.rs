//! Character-level text helpers shared by the name parsers, the search
//! helpers and the text renderers.
use vstd::prelude::*;

verus! {

/// The Unicode `White_Space` property, as `char::is_whitespace` defines it.
pub open spec fn is_ws(c: char) -> bool {
    let u = c as u32;
    ||| 0x9 <= u <= 0xD
    ||| u == 0x20
    ||| u == 0x85
    ||| u == 0xA0
    ||| u == 0x1680
    ||| 0x2000 <= u <= 0x200A
    ||| u == 0x2028
    ||| u == 0x2029
    ||| u == 0x202F
    ||| u == 0x205F
    ||| u == 0x3000
}

pub open spec fn is_digit(c: char) -> bool {
    0x30 <= (c as u32) <= 0x39
}

pub open spec fn digit_value(c: char) -> nat {
    ((c as u32) - 0x30) as nat
}

/// Classes of characters that the name parsers strip.
#[derive(Clone, Copy, Debug, PartialEq, Eq)]
pub enum CharClass {
    /// White space only.
    Space,
    /// `-`, `_` or white space (between a year and an album title).
    AlbumSep,
    /// `-`, `_`, `.` or white space (between a track number and its title).
    TrackSep,
}

pub open spec fn in_class(c: char, cls: CharClass) -> bool {
    match cls {
        CharClass::Space => is_ws(c),
        CharClass::AlbumSep => c == '-' || c == '_' || is_ws(c),
        CharClass::TrackSep => c == '-' || c == '_' || c == '.' || is_ws(c),
    }
}

/// Number of leading characters of `s` in `cls`.
pub open spec fn lead_len(s: Seq<char>, cls: CharClass) -> nat
    decreases s.len(),
{
    if s.len() > 0 && in_class(s[0], cls) {
        1 + lead_len(s.drop_first(), cls)
    } else {
        0
    }
}

/// Number of trailing characters of `s` in `cls`.
pub open spec fn trail_len(s: Seq<char>, cls: CharClass) -> nat
    decreases s.len(),
{
    if s.len() > 0 && in_class(s.last(), cls) {
        1 + trail_len(s.drop_last(), cls)
    } else {
        0
    }
}

/// Number of leading ASCII digits of `s`.
pub open spec fn digit_prefix_len(s: Seq<char>) -> nat
    decreases s.len(),
{
    if s.len() > 0 && is_digit(s[0]) {
        1 + digit_prefix_len(s.drop_first())
    } else {
        0
    }
}

/// `s` without its leading characters of class `cls`.
pub open spec fn trim_start_by(s: Seq<char>, cls: CharClass) -> Seq<char> {
    s.subrange(lead_len(s, cls) as int, s.len() as int)
}

/// `s` without its trailing characters of class `cls`.
pub open spec fn trim_end_by(s: Seq<char>, cls: CharClass) -> Seq<char> {
    s.subrange(0, s.len() - trail_len(s, cls))
}

/// `str::trim`: white space removed at both ends.
pub open spec fn trim(s: Seq<char>) -> Seq<char> {
    trim_end_by(trim_start_by(s, CharClass::Space), CharClass::Space)
}

/// The value of a sequence of decimal digits.
pub open spec fn digits_value(s: Seq<char>) -> nat
    decreases s.len(),
{
    if s.len() == 0 {
        0
    } else {
        digits_value(s.drop_last()) * 10 + digit_value(s.last())
    }
}

pub open spec fn all_digits(s: Seq<char>) -> bool {
    forall|k: int| 0 <= k < s.len() ==> is_digit(#[trigger] s[k])
}

pub proof fn lemma_lead_len_bound(s: Seq<char>, cls: CharClass)
    ensures
        lead_len(s, cls) <= s.len(),
    decreases s.len(),
{
    if s.len() > 0 && in_class(s[0], cls) {
        lemma_lead_len_bound(s.drop_first(), cls);
    }
}

pub proof fn lemma_trail_len_bound(s: Seq<char>, cls: CharClass)
    ensures
        trail_len(s, cls) <= s.len(),
    decreases s.len(),
{
    if s.len() > 0 && in_class(s.last(), cls) {
        lemma_trail_len_bound(s.drop_last(), cls);
    }
}

/// `lead_len` is the index of the first character outside the class.
pub proof fn lemma_lead_len_at(s: Seq<char>, cls: CharClass, i: int)
    requires
        0 <= i <= s.len(),
        forall|k: int| 0 <= k < i ==> in_class(#[trigger] s[k], cls),
        i == s.len() || !in_class(s[i], cls),
    ensures
        lead_len(s, cls) == i,
    decreases i,
{
    if i > 0 {
        let t = s.drop_first();
        assert forall|k: int| 0 <= k < i - 1 implies in_class(#[trigger] t[k], cls) by {
            assert(t[k] == s[k + 1]);
        }
        if i - 1 < t.len() {
            assert(t[i - 1] == s[i]);
        }
        lemma_lead_len_at(t, cls, i - 1);
        assert(in_class(s[0], cls));
    }
}

/// `trail_len` is the distance from the end to the last character outside the class.
pub proof fn lemma_trail_len_at(s: Seq<char>, cls: CharClass, j: int)
    requires
        0 <= j <= s.len(),
        forall|k: int| j <= k < s.len() ==> in_class(#[trigger] s[k], cls),
        j == 0 || !in_class(s[j - 1], cls),
    ensures
        trail_len(s, cls) == s.len() - j,
    decreases s.len() - j,
{
    if j < s.len() {
        let t = s.drop_last();
        assert forall|k: int| j <= k < t.len() implies in_class(#[trigger] t[k], cls) by {
            assert(t[k] == s[k]);
        }
        if j > 0 {
            assert(t[j - 1] == s[j - 1]);
        }
        assert(in_class(s.last(), cls));
        lemma_trail_len_at(t, cls, j);
    }
}

pub proof fn lemma_digit_prefix_at(s: Seq<char>, i: int)
    requires
        0 <= i <= s.len(),
        forall|k: int| 0 <= k < i ==> is_digit(#[trigger] s[k]),
        i == s.len() || !is_digit(s[i]),
    ensures
        digit_prefix_len(s) == i,
    decreases i,
{
    if i > 0 {
        let t = s.drop_first();
        assert forall|k: int| 0 <= k < i - 1 implies is_digit(#[trigger] t[k]) by {
            assert(t[k] == s[k + 1]);
        }
        if i - 1 < t.len() {
            assert(t[i - 1] == s[i]);
        }
        lemma_digit_prefix_at(t, i - 1);
        assert(is_digit(s[0]));
    }
}

/// Every character of the digit prefix is a digit.
pub proof fn lemma_digit_prefix_all(s: Seq<char>)
    ensures
        digit_prefix_len(s) <= s.len(),
        forall|k: int| 0 <= k < digit_prefix_len(s) ==> is_digit(#[trigger] s[k]),
    decreases s.len(),
{
    if s.len() > 0 && is_digit(s[0]) {
        let t = s.drop_first();
        lemma_digit_prefix_all(t);
        assert forall|k: int| 0 <= k < digit_prefix_len(s) implies is_digit(#[trigger] s[k]) by {
            if k > 0 {
                assert(s[k] == t[k - 1]);
            }
        }
    }
}

/// A longer run of digits never has a smaller value.
pub proof fn lemma_digits_value_mono(s: Seq<char>, i: int, j: int)
    requires
        0 <= i <= j <= s.len(),
    ensures
        digits_value(s.take(i)) <= digits_value(s.take(j)),
    decreases j - i,
{
    if i < j {
        lemma_digits_value_mono(s, i, j - 1);
        assert(s.take(j).drop_last() =~= s.take(j - 1));
    }
}

/// `char::is_whitespace`.
pub fn is_whitespace(c: char) -> (b: bool)
    ensures
        b == is_ws(c),
{
    let u = c as u32;
    (0x9 <= u && u <= 0xD) || u == 0x20 || u == 0x85 || u == 0xA0 || u == 0x1680 || (0x2000 <= u
        && u <= 0x200A) || u == 0x2028 || u == 0x2029 || u == 0x202F || u == 0x205F || u == 0x3000
}

/// `char::is_ascii_digit`.
pub fn is_ascii_digit(c: char) -> (b: bool)
    ensures
        b == is_digit(c),
{
    let u = c as u32;
    0x30 <= u && u <= 0x39
}

pub fn char_in_class(c: char, cls: CharClass) -> (b: bool)
    ensures
        b == in_class(c, cls),
{
    match cls {
        CharClass::Space => is_whitespace(c),
        CharClass::AlbumSep => c == '-' || c == '_' || is_whitespace(c),
        CharClass::TrackSep => c == '-' || c == '_' || c == '.' || is_whitespace(c),
    }
}

/// The characters of a string slice, in order.
pub fn chars_of(s: &str) -> (v: Vec<char>)
    ensures
        v@ == s@,
{
    let n = s.unicode_len();
    let mut v: Vec<char> = Vec::new();
    let mut i: usize = 0;
    while i < n
        invariant
            n == s@.len(),
            i <= n,
            v@ == s@.subrange(0, i as int),
        decreases n - i,
    {
        let c = s.get_char(i);
        v.push(c);
        i = i + 1;
        assert(v@ =~= s@.subrange(0, i as int));
    }
    assert(v@ =~= s@);
    v
}

/// Builds a `String` from characters with std's `FromIterator<&char> for String`
/// (`collect`). Trusted claim: the string holds exactly these characters, in order.
#[verifier::external_body]
pub(crate) fn string_from_chars(chars: &Vec<char>) -> (s: String)
    ensures
        s@ == chars@,
{
    chars.iter().collect()
}

/// The characters `v[lo..hi]`.
pub fn slice_chars(v: &Vec<char>, lo: usize, hi: usize) -> (r: Vec<char>)
    requires
        lo <= hi <= v.len(),
    ensures
        r@ == v@.subrange(lo as int, hi as int),
{
    let mut r: Vec<char> = Vec::new();
    let mut i = lo;
    while i < hi
        invariant
            lo <= i <= hi <= v.len(),
            r@ == v@.subrange(lo as int, i as int),
        decreases hi - i,
    {
        r.push(v[i]);
        i = i + 1;
        assert(r@ =~= v@.subrange(lo as int, i as int));
    }
    r
}

/// The string `v[lo..hi]`.
pub fn string_of_range(v: &Vec<char>, lo: usize, hi: usize) -> (s: String)
    requires
        lo <= hi <= v.len(),
    ensures
        s@ == v@.subrange(lo as int, hi as int),
{
    let r = slice_chars(v, lo, hi);
    string_from_chars(&r)
}

/// Index of the first character of `v[lo..hi]` outside `cls` (or `hi`).
pub fn skip_class(v: &Vec<char>, lo: usize, hi: usize, cls: CharClass) -> (i: usize)
    requires
        lo <= hi <= v.len(),
    ensures
        lo <= i <= hi,
        i == lo + lead_len(v@.subrange(lo as int, hi as int), cls),
{
    let ghost s = v@.subrange(lo as int, hi as int);
    let mut i = lo;
    while i < hi && char_in_class(v[i], cls)
        invariant
            lo <= i <= hi <= v.len(),
            s == v@.subrange(lo as int, hi as int),
            forall|k: int| 0 <= k < i - lo ==> in_class(#[trigger] s[k], cls),
        decreases hi - i,
    {
        i = i + 1;
    }
    proof {
        lemma_lead_len_at(s, cls, i - lo);
    }
    i
}

/// End of `v[lo..hi]` once its trailing characters of `cls` are dropped.
pub fn back_class(v: &Vec<char>, lo: usize, hi: usize, cls: CharClass) -> (j: usize)
    requires
        lo <= hi <= v.len(),
    ensures
        lo <= j <= hi,
        j == hi - trail_len(v@.subrange(lo as int, hi as int), cls),
{
    let ghost s = v@.subrange(lo as int, hi as int);
    let mut j = hi;
    while j > lo && char_in_class(v[j - 1], cls)
        invariant
            lo <= j <= hi <= v.len(),
            s == v@.subrange(lo as int, hi as int),
            forall|k: int| j - lo <= k < s.len() ==> in_class(#[trigger] s[k], cls),
        decreases j - lo,
    {
        j = j - 1;
    }
    proof {
        lemma_trail_len_at(s, cls, j - lo);
    }
    j
}

/// Bounds of `trim(v[lo..hi])` inside `v`.
pub fn trim_bounds(v: &Vec<char>, lo: usize, hi: usize) -> (r: (usize, usize))
    requires
        lo <= hi <= v.len(),
    ensures
        lo <= r.0 <= r.1 <= hi,
        v@.subrange(r.0 as int, r.1 as int) == trim(v@.subrange(lo as int, hi as int)),
{
    let a = skip_class(v, lo, hi, CharClass::Space);
    let b = back_class(v, a, hi, CharClass::Space);
    proof {
        let s = v@.subrange(lo as int, hi as int);
        assert(v@.subrange(a as int, hi as int) =~= trim_start_by(s, CharClass::Space));
        assert(v@.subrange(a as int, b as int) =~= trim(s));
    }
    (a, b)
}

/// Index of the first non-digit of `v[lo..hi]` (or `hi`).
pub fn skip_digits(v: &Vec<char>, lo: usize, hi: usize) -> (i: usize)
    requires
        lo <= hi <= v.len(),
    ensures
        lo <= i <= hi,
        i == lo + digit_prefix_len(v@.subrange(lo as int, hi as int)),
{
    let ghost s = v@.subrange(lo as int, hi as int);
    let mut i = lo;
    while i < hi && is_ascii_digit(v[i])
        invariant
            lo <= i <= hi <= v.len(),
            s == v@.subrange(lo as int, hi as int),
            forall|k: int| 0 <= k < i - lo ==> is_digit(#[trigger] s[k]),
        decreases hi - i,
    {
        i = i + 1;
    }
    proof {
        lemma_digit_prefix_at(s, i - lo);
    }
    i
}

/// Parses the decimal digits `v[lo..hi]`; `None` when the value exceeds `limit`.
pub fn parse_digits(v: &Vec<char>, lo: usize, hi: usize, limit: u32) -> (r: Option<u32>)
    requires
        lo <= hi <= v.len(),
        limit <= 65535,
        all_digits(v@.subrange(lo as int, hi as int)),
    ensures
        r == (if digits_value(v@.subrange(lo as int, hi as int)) <= limit {
            Some(digits_value(v@.subrange(lo as int, hi as int)) as u32)
        } else {
            None::<u32>
        }),
{
    let ghost s = v@.subrange(lo as int, hi as int);
    let mut acc: u32 = 0;
    let mut over = false;
    let mut i = lo;
    while i < hi
        invariant
            lo <= i <= hi <= v.len(),
            s == v@.subrange(lo as int, hi as int),
            all_digits(s),
            limit <= 65535,
            !over ==> acc == digits_value(s.take(i - lo)) && acc <= limit,
            over ==> digits_value(s.take(i - lo)) > limit,
        decreases hi - i,
    {
        let ghost k = i - lo;
        assert(s.take(k + 1).drop_last() =~= s.take(k));
        assert(s.take(k + 1).last() == s[k]);
        assert(is_digit(s[k]));
        assert(v[i as int] == s[k]);
        if !over {
            let d = (v[i] as u32) - 0x30;
            let next = acc * 10 + d;
            if next > limit {
                over = true;
            } else {
                acc = next;
            }
        } else {
            proof {
                lemma_digits_value_mono(s, k, k + 1);
            }
        }
        i = i + 1;
    }
    assert(s.take(hi - lo) =~= s);
    if over {
        None
    } else {
        Some(acc)
    }
}

/// What std's `str::to_lowercase` returns for a string (Unicode `Lowercase`
/// mapping, which may change the length).
pub uninterp spec fn lowercase(s: Seq<char>) -> Seq<char>;

/// Calls std's `str::to_lowercase`. Trusted claim: the result is `lowercase` of
/// the argument, a function of the characters alone.
#[verifier::external_body]
pub(crate) fn to_lowercase(s: &str) -> (r: String)
    ensures
        r@ == lowercase(s@),
{
    s.to_lowercase()
}

/// ASCII lower-casing of one character (`char::to_ascii_lowercase`).
pub open spec fn ascii_lower(c: char) -> char {
    if 0x41 <= (c as u32) <= 0x5A {
        ((c as u32) + 32) as char
    } else {
        c
    }
}

/// `str::eq_ignore_ascii_case`.
pub open spec fn eq_ignore_ascii_case(a: Seq<char>, b: Seq<char>) -> bool {
    a.len() == b.len() && forall|k: int| 0 <= k < a.len() ==> ascii_lower(#[trigger] a[k]) == ascii_lower(b[k])
}

pub fn to_ascii_lower(c: char) -> (r: char)
    ensures
        r == ascii_lower(c),
{
    let u = c as u32;
    if 0x41 <= u && u <= 0x5A {
        let l = (u + 32) as u8;
        l as char
    } else {
        c
    }
}

pub fn chars_eq_ignore_ascii_case(a: &Vec<char>, b: &Vec<char>) -> (r: bool)
    ensures
        r == eq_ignore_ascii_case(a@, b@),
{
    if a.len() != b.len() {
        return false;
    }
    let mut i: usize = 0;
    while i < a.len()
        invariant
            a.len() == b.len(),
            i <= a.len(),
            forall|k: int| 0 <= k < i ==> ascii_lower(#[trigger] a@[k]) == ascii_lower(b@[k]),
        decreases a.len() - i,
    {
        if to_ascii_lower(a[i]) != to_ascii_lower(b[i]) {
            return false;
        }
        i = i + 1;
    }
    true
}

/// Lexicographic order on characters (the order of `str`'s `Ord`, since UTF-8
/// preserves the order of code points).
pub open spec fn seq_lt(a: Seq<char>, b: Seq<char>) -> bool
    decreases a.len(),
{
    if a.len() == 0 {
        b.len() > 0
    } else if b.len() == 0 {
        false
    } else if a[0] < b[0] {
        true
    } else if a[0] == b[0] {
        seq_lt(a.drop_first(), b.drop_first())
    } else {
        false
    }
}

pub proof fn lemma_seq_lt_irreflexive(a: Seq<char>)
    ensures
        !seq_lt(a, a),
    decreases a.len(),
{
    if a.len() > 0 {
        lemma_seq_lt_irreflexive(a.drop_first());
    }
}

pub proof fn lemma_seq_lt_total(a: Seq<char>, b: Seq<char>)
    ensures
        a == b || seq_lt(a, b) || seq_lt(b, a),
    decreases a.len(),
{
    if a.len() > 0 && b.len() > 0 && a[0] == b[0] {
        lemma_seq_lt_total(a.drop_first(), b.drop_first());
        if a.drop_first() == b.drop_first() {
            assert(a =~= seq![a[0]] + a.drop_first());
            assert(b =~= seq![b[0]] + b.drop_first());
        }
    } else if a.len() == 0 && b.len() == 0 {
        assert(a =~= b);
    } else if a.len() > 0 && b.len() > 0 {
    }
}

pub proof fn lemma_seq_lt_asym(a: Seq<char>, b: Seq<char>)
    ensures
        !(seq_lt(a, b) && seq_lt(b, a)),
    decreases a.len(),
{
    if a.len() > 0 && b.len() > 0 && a[0] == b[0] {
        lemma_seq_lt_asym(a.drop_first(), b.drop_first());
    }
}

pub proof fn lemma_seq_lt_trans(a: Seq<char>, b: Seq<char>, c: Seq<char>)
    requires
        seq_lt(a, b),
        seq_lt(b, c),
    ensures
        seq_lt(a, c),
    decreases a.len(),
{
    if a.len() > 0 && b.len() > 0 && c.len() > 0 && a[0] == b[0] && b[0] == c[0] {
        lemma_seq_lt_trans(a.drop_first(), b.drop_first(), c.drop_first());
    }
}

/// `a < b` in the lexicographic order of characters.
pub fn chars_less(a: &Vec<char>, b: &Vec<char>) -> (r: bool)
    ensures
        r == seq_lt(a@, b@),
{
    let mut i: usize = 0;
    assert(a@.subrange(0, a.len() as int) =~= a@);
    assert(b@.subrange(0, b.len() as int) =~= b@);
    while i < a.len() && i < b.len() && a[i] == b[i]
        invariant
            i <= a.len(),
            i <= b.len(),
            seq_lt(a@, b@) == seq_lt(a@.subrange(i as int, a.len() as int), b@.subrange(i as int, b.len() as int)),
        decreases a.len() - i,
    {
        proof {
            let sa = a@.subrange(i as int, a.len() as int);
            let sb = b@.subrange(i as int, b.len() as int);
            assert(sa.drop_first() =~= a@.subrange(i + 1, a.len() as int));
            assert(sb.drop_first() =~= b@.subrange(i + 1, b.len() as int));
        }
        i = i + 1;
    }
    proof {
        let sa = a@.subrange(i as int, a.len() as int);
        let sb = b@.subrange(i as int, b.len() as int);
        if i < a.len() {
            assert(sa[0] == a@[i as int]);
        }
        if i < b.len() {
            assert(sb[0] == b@[i as int]);
        }
    }
    if i == a.len() {
        i < b.len()
    } else if i == b.len() {
        false
    } else {
        a[i] < b[i]
    }
}

/// Whether two character sequences are equal.
pub fn chars_eq(a: &Vec<char>, b: &Vec<char>) -> (r: bool)
    ensures
        r == (a@ == b@),
{
    if a.len() != b.len() {
        return false;
    }
    let mut i: usize = 0;
    while i < a.len()
        invariant
            a.len() == b.len(),
            i <= a.len(),
            forall|k: int| 0 <= k < i ==> a@[k] == b@[k],
        decreases a.len() - i,
    {
        if a[i] != b[i] {
            return false;
        }
        i = i + 1;
    }
    assert(a@ =~= b@);
    true
}

/// Whether a string equals a given character sequence.
pub fn str_is(s: &str, expected: &Vec<char>) -> (r: bool)
    ensures
        r == (s@ == expected@),
{
    let v = chars_of(s);
    chars_eq(&v, expected)
}

} // verus!
