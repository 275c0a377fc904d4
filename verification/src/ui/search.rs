//! Searching the library views: text normalized for comparison (accents
//! and case dropped), the fields a query can match, and moving a selection
//! through a list.
use unicode_normalization::UnicodeNormalization;
use vstd::prelude::*;

use crate::text::{chars_of, lowercase, string_from_chars, to_lowercase, trim, trim_bounds};
use crate::ui::cells::{decimal, push_chars, push_decimal, two_digits};

verus! {

/// What unicode-normalization's `nfkd` gives for a string: its compatibility
/// decomposition.
pub uninterp spec fn nfkd(s: Seq<char>) -> Seq<char>;

/// What unicode-normalization's `char::is_combining_mark` says of a
/// character (`General_Category=Mark`).
pub uninterp spec fn combining_mark(c: char) -> bool;

/// Calls unicode-normalization's `UnicodeNormalization::nfkd` on a string and
/// collects the characters. Trusted claim: they are `nfkd` of its characters.
#[verifier::external_body]
fn nfkd_chars(s: &str) -> (r: Vec<char>)
    ensures
        r@ == nfkd(s@),
{
    s.nfkd().collect()
}

/// Calls unicode-normalization's `char::is_combining_mark`. Trusted claim: the
/// result is `combining_mark` of the character.
#[verifier::external_body]
fn is_combining_mark(c: char) -> (r: bool)
    ensures
        r == combining_mark(c),
{
    unicode_normalization::char::is_combining_mark(c)
}

/// The characters of `s` that are not combining marks.
pub open spec fn without_marks(s: Seq<char>) -> Seq<char>
    decreases s.len(),
{
    if s.len() == 0 {
        s
    } else if combining_mark(s.last()) {
        without_marks(s.drop_last())
    } else {
        without_marks(s.drop_last()).push(s.last())
    }
}

/// Text as the search compares it: decomposed, combining marks dropped,
/// lower-cased.
pub open spec fn normalized(s: Seq<char>) -> Seq<char> {
    lowercase(without_marks(nfkd(s)))
}

/// Normalizes text for comparison (`Éclat` and `eclat` compare equal).
pub fn normalize_text(value: &str) -> (r: String)
    ensures
        r@ == normalized(value@),
{
    let d = nfkd_chars(value);
    let mut kept: Vec<char> = Vec::new();
    let mut i: usize = 0;
    while i < d.len()
        invariant
            i <= d.len(),
            kept@ == without_marks(d@.take(i as int)),
        decreases d.len() - i,
    {
        proof {
            assert(d@.take(i + 1).drop_last() =~= d@.take(i as int));
        }
        if !is_combining_mark(d[i]) {
            kept.push(d[i]);
        }
        i = i + 1;
    }
    assert(d@.take(d.len() as int) =~= d@);
    let s = string_from_chars(&kept);
    to_lowercase(s.as_str())
}

/// `needle` occurs in `hay`.
pub open spec fn occurs_in(needle: Seq<char>, hay: Seq<char>) -> bool {
    exists|k: int| 0 <= k && k + needle.len() <= hay.len() && #[trigger] hay.subrange(k, k + needle.len()) == needle
}

fn occurs_at(hay: &Vec<char>, needle: &Vec<char>, k: usize) -> (r: bool)
    requires
        k + needle.len() <= hay.len(),
    ensures
        r == (hay@.subrange(k as int, k + needle.len()) == needle@),
{
    let mut j: usize = 0;
    while j < needle.len()
        invariant
            j <= needle.len(),
            k + needle.len() <= hay.len(),
            forall|m: int| 0 <= m < j ==> hay@[k + m] == needle@[m],
        decreases needle.len() - j,
    {
        if hay[k + j] != needle[j] {
            proof {
                assert(hay@.subrange(k as int, k + needle.len())[j as int] != needle@[j as int]);
            }
            return false;
        }
        j = j + 1;
    }
    assert(hay@.subrange(k as int, k + needle.len()) =~= needle@);
    true
}

/// `str::contains`: whether `needle` occurs in `hay`.
pub fn chars_contain(hay: &Vec<char>, needle: &Vec<char>) -> (r: bool)
    ensures
        r == occurs_in(needle@, hay@),
{
    if needle.len() > hay.len() {
        return false;
    }
    let last = hay.len() - needle.len();
    let mut k: usize = 0;
    loop
        invariant
            last == hay.len() - needle.len(),
            needle.len() <= hay.len(),
            k <= last,
            forall|m: int| 0 <= m < k ==> #[trigger] hay@.subrange(m, m + needle.len()) != needle@,
        decreases last - k,
    {
        if occurs_at(hay, needle, k) {
            return true;
        }
        if k == last {
            return false;
        }
        k = k + 1;
    }
}

/// Whether the normalized `value` contains `query` (already normalized).
pub fn normalized_contains(query: &str, value: &str) -> (r: bool)
    ensures
        r == occurs_in(query@, normalized(value@)),
{
    let n = normalize_text(value);
    let hay = chars_of(n.as_str());
    let needle = chars_of(query);
    chars_contain(&hay, &needle)
}

/// Whether a track's codec matches the query (never without a codec).
pub fn codec_matches(query: &str, codec: Option<&str>) -> (r: bool)
    ensures
        r == (match codec {
            Some(c) => occurs_in(query@, normalized(c@)),
            None => false,
        }),
{
    match codec {
        Some(c) => normalized_contains(query, c),
        None => false,
    }
}

/// Whether the year, written out, contains the query (never without a year).
pub fn year_matches(query: &str, year: Option<u32>) -> (r: bool)
    ensures
        r == (match year {
            Some(y) => occurs_in(query@, decimal(y as nat)),
            None => false,
        }),
{
    match year {
        Some(y) => {
            let mut v: Vec<char> = Vec::new();
            push_decimal(&mut v, y as u64);
            let needle = chars_of(query);
            assert(v@ =~= decimal(y as nat));
            chars_contain(&v, &needle)
        },
        None => false,
    }
}

/// The ways a duration can be written for the search: seconds, minutes,
/// `mm:ss` and `h:mm:ss`.
pub open spec fn duration_forms(total_seconds: nat) -> Seq<Seq<char>> {
    let minutes_total = total_seconds / 60;
    let seconds = total_seconds % 60;
    let hours = minutes_total / 60;
    let minutes = minutes_total % 60;
    seq![
        decimal(total_seconds),
        decimal(minutes_total),
        two_digits(minutes) + seq![':'] + two_digits(seconds),
        decimal(hours) + seq![':'] + two_digits(minutes) + seq![':'] + two_digits(seconds),
    ]
}

fn push_two_digits(out: &mut Vec<char>, n: u64)
    requires
        n < 100,
    ensures
        final(out)@ == old(out)@ + two_digits(n as nat),
{
    if n < 10 {
        out.push('0');
        let c = crate::ui::cells::digit(n);
        out.push(c);
    } else {
        push_decimal(out, n);
    }
    assert(final(out)@ =~= old(out)@ + two_digits(n as nat));
}

/// Whether some written form of the duration contains the query.
pub fn duration_matches(query: &str, total_seconds: u64) -> (r: bool)
    ensures
        r == exists|i: int| 0 <= i < 4 && occurs_in(query@, #[trigger] duration_forms(total_seconds as nat)[i]),
{
    let ghost forms = duration_forms(total_seconds as nat);
    let needle = chars_of(query);
    let minutes_total = total_seconds / 60;
    let seconds = total_seconds % 60;
    let hours = minutes_total / 60;
    let minutes = minutes_total % 60;
    let mut a: Vec<char> = Vec::new();
    push_decimal(&mut a, total_seconds);
    let mut b: Vec<char> = Vec::new();
    push_decimal(&mut b, minutes_total);
    let mut c: Vec<char> = Vec::new();
    push_two_digits(&mut c, minutes);
    c.push(':');
    push_two_digits(&mut c, seconds);
    let mut d: Vec<char> = Vec::new();
    push_decimal(&mut d, hours);
    d.push(':');
    push_two_digits(&mut d, minutes);
    d.push(':');
    push_two_digits(&mut d, seconds);
    proof {
        assert(a@ =~= forms[0]);
        assert(b@ =~= forms[1]);
        assert(c@ =~= forms[2]);
        assert(d@ =~= forms[3]);
    }
    let r = chars_contain(&a, &needle) || chars_contain(&b, &needle) || chars_contain(&c, &needle)
        || chars_contain(&d, &needle);
    proof {
        if r {
            if occurs_in(query@, forms[0]) {
                assert(occurs_in(query@, duration_forms(total_seconds as nat)[0]));
            } else if occurs_in(query@, forms[1]) {
                assert(occurs_in(query@, duration_forms(total_seconds as nat)[1]));
            } else if occurs_in(query@, forms[2]) {
                assert(occurs_in(query@, duration_forms(total_seconds as nat)[2]));
            } else {
                assert(occurs_in(query@, duration_forms(total_seconds as nat)[3]));
            }
        }
    }
    r
}

/// The query as the search uses it: trimmed and normalized; none when blank.
pub fn normalized_query(query: &str) -> (r: Option<String>)
    ensures
        match r {
            Some(q) => trim(query@).len() > 0 && q@ == normalized(trim(query@)),
            None => trim(query@).len() == 0,
        },
{
    let v = chars_of(query);
    let (a, b) = trim_bounds(&v, 0, v.len());
    assert(v@.subrange(0, v.len() as int) =~= v@);
    if a == b {
        None
    } else {
        let t = crate::text::string_of_range(&v, a, b);
        Some(normalize_text(t.as_str()))
    }
}

/// Where a move of the selection by `step` lands, in a list of `len` items
/// whose current selection is at `current` (0 when nothing is selected):
/// forward stops at the last item, backward at the first.
pub open spec fn moved_index(len: int, current: int, step: int) -> int {
    if step >= 0 {
        if current + step <= len - 1 {
            current + step
        } else {
            len - 1
        }
    } else {
        if current + step >= 0 {
            current + step
        } else {
            0
        }
    }
}

/// The position of the first item with this id.
pub open spec fn first_with_id(ids: Seq<usize>, id: usize, i: int) -> bool {
    0 <= i < ids.len() && ids[i] == id && forall|j: int| 0 <= j < i ==> ids[j] != id
}

/// Moves the selection through a list (given by the ids of its items) and
/// gives the position of the newly selected item; none for an empty list.
pub fn move_selection(ids: &Vec<usize>, current_id: Option<usize>, step: isize) -> (r: Option<usize>)
    ensures
        ids.len() == 0 ==> r is None,
        ids.len() > 0 ==> exists|cur: int|
            #![trigger moved_index(ids.len() as int, cur, step as int)]
            (match current_id {
                Some(id) => first_with_id(ids@, id, cur) || (cur == 0 && !ids@.contains(id)),
                None => cur == 0,
            }) && r == Some(moved_index(ids.len() as int, cur, step as int) as usize),
{
    if ids.len() == 0 {
        return None;
    }
    let mut current: usize = 0;
    match current_id {
        Some(id) => {
            let mut k: usize = 0;
            while k < ids.len()
                invariant
                    k <= ids.len(),
                    forall|j: int| 0 <= j < k ==> ids@[j] != id,
                ensures
                    k <= ids.len(),
                    forall|j: int| 0 <= j < k ==> ids@[j] != id,
                    k < ids.len() ==> ids@[k as int] == id,
                decreases ids.len() - k,
            {
                if ids[k] == id {
                    break;
                }
                k = k + 1;
            }
            if k < ids.len() {
                current = k;
                proof {
                    assert(first_with_id(ids@, id, k as int));
                }
            } else {
                proof {
                    assert(!ids@.contains(id));
                }
            }
        },
        None => {},
    }
    let len = ids.len();
    let next: usize = if step >= 0 {
        let fwd = step as usize;
        if fwd <= len - 1 - current {
            current + fwd
        } else {
            len - 1
        }
    } else {
        let back: usize = if step == isize::MIN {
            (isize::MAX as usize) + 1
        } else {
            (-step) as usize
        };
        if back <= current {
            current - back
        } else {
            0
        }
    };
    proof {
        assert(next == moved_index(len as int, current as int, step as int));
    }
    Some(next)
}

/// At most `limit` of the items, with how many there were.
pub fn apply_limit<T>(items: Vec<T>, limit: usize) -> (r: (Vec<T>, usize))
    ensures
        r.1 == items.len(),
        r.0@ == items@.take(if limit <= items.len() {
            limit as int
        } else {
            items.len() as int
        }),
{
    let total = items.len();
    let mut kept = items;
    kept.truncate(limit);
    (kept, total)
}

/// An empty query matches every text.
pub proof fn lemma_empty_query_matches(hay: Seq<char>)
    ensures
        occurs_in(Seq::empty(), hay),
{
    let e = Seq::<char>::empty();
    assert(hay.subrange(0int, 0int + e.len()) =~= e);
}

/// A move of the selection always lands on an item of the list.
pub proof fn lemma_move_stays_in_list(len: int, current: int, step: int)
    requires
        0 <= current < len,
    ensures
        0 <= moved_index(len, current, step) < len,
        step == 0 ==> moved_index(len, current, step) == current,
{
}

} // verus!

