//! Building blocks of the text renderings: decimal numbers, padding to a
//! width, repeated characters and lines joined by new lines.
use vstd::prelude::*;

use crate::text::{string_from_chars, trim_end_by, CharClass};

verus! {

pub open spec fn digit_char(d: nat) -> char {
    ((48 + d) as u32) as char
}

/// The decimal digits of `n`, as `{}` prints it.
pub open spec fn decimal(n: nat) -> Seq<char>
    decreases n,
{
    if n < 10 {
        seq![digit_char(n)]
    } else {
        decimal(n / 10).push(digit_char(n % 10))
    }
}

/// `n` characters `c`.
pub open spec fn repeat_char(c: char, n: nat) -> Seq<char> {
    Seq::new(n, |_i: int| c)
}

/// `{:<w}`: `s` followed by spaces up to `w` characters.
pub open spec fn pad_right(s: Seq<char>, w: nat) -> Seq<char> {
    if s.len() >= w {
        s
    } else {
        s + repeat_char(' ', (w - s.len()) as nat)
    }
}

/// `{:>w}`: spaces then `s`, up to `w` characters.
pub open spec fn pad_left(s: Seq<char>, w: nat) -> Seq<char> {
    if s.len() >= w {
        s
    } else {
        repeat_char(' ', (w - s.len()) as nat) + s
    }
}

/// `{:02}`: a number below 100 on two digits.
pub open spec fn two_digits(n: nat) -> Seq<char> {
    if n < 10 {
        seq!['0', digit_char(n)]
    } else {
        decimal(n)
    }
}

/// `m:ss` for a number of seconds.
pub open spec fn clock(secs: nat) -> Seq<char> {
    decimal(secs / 60) + seq![':'] + two_digits(secs % 60)
}

/// Lines joined with `\n` between them.
pub open spec fn join_lines(lines: Seq<Seq<char>>) -> Seq<char>
    decreases lines.len(),
{
    if lines.len() == 0 {
        Seq::empty()
    } else if lines.len() == 1 {
        lines[0]
    } else {
        join_lines(lines.drop_last()) + seq!['\n'] + lines.last()
    }
}

/// `s` between `> ` and ` <` when `selected`.
pub open spec fn marked(s: Seq<char>, selected: bool) -> Seq<char> {
    if selected {
        seq!['>', ' '] + s + seq![' ', '<']
    } else {
        s
    }
}

/// `str::len`: the length in bytes of the UTF-8 encoding.
pub open spec fn byte_len(s: Seq<char>) -> usize {
    vstd::utf8::encode_utf8(s).len() as usize
}

pub proof fn lemma_join_push(lines: Seq<Seq<char>>, x: Seq<char>)
    requires
        lines.len() >= 1,
    ensures
        join_lines(lines.push(x)) == join_lines(lines) + seq!['\n'] + x,
{
    assert(lines.push(x).drop_last() =~= lines);
}

pub proof fn lemma_decimal_len(n: nat)
    ensures
        n < 10 ==> decimal(n).len() == 1,
        10 <= n < 100 ==> decimal(n).len() == 2,
        decimal(n).len() >= 1,
    decreases n,
{
    if n >= 10 {
        lemma_decimal_len(n / 10);
    }
}

/// The digit character for `d`.
pub fn digit(d: u64) -> (c: char)
    requires
        d < 10,
    ensures
        c == digit_char(d as nat),
{
    let b: u8 = (d as u8) + 48;
    b as char
}

/// Appends the decimal digits of `n`.
pub fn push_decimal(out: &mut Vec<char>, n: u64)
    ensures
        final(out)@ == old(out)@ + decimal(n as nat),
    decreases n,
{
    if n >= 10 {
        push_decimal(out, n / 10);
    }
    let c = digit(n % 10);
    out.push(c);
}

/// `n` as `{}` prints it.
pub fn decimal_string(n: u64) -> (r: String)
    ensures
        r@ == decimal(n as nat),
{
    let mut v: Vec<char> = Vec::new();
    push_decimal(&mut v, n);
    assert(v@ =~= decimal(n as nat));
    string_from_chars(&v)
}

/// Appends the characters of `s`.
pub fn push_str(out: &mut Vec<char>, s: &str)
    ensures
        final(out)@ == old(out)@ + s@,
{
    let n = s.unicode_len();
    let mut i: usize = 0;
    let ghost start = out@;
    while i < n
        invariant
            n == s@.len(),
            i <= n,
            out@ == start + s@.subrange(0, i as int),
        decreases n - i,
    {
        out.push(s.get_char(i));
        i = i + 1;
        assert(out@ =~= start + s@.subrange(0, i as int));
    }
    assert(s@.subrange(0, n as int) =~= s@);
}

/// Appends `v`.
pub fn push_chars(out: &mut Vec<char>, v: &Vec<char>)
    ensures
        final(out)@ == old(out)@ + v@,
{
    let mut i: usize = 0;
    let ghost start = out@;
    while i < v.len()
        invariant
            i <= v.len(),
            out@ == start + v@.subrange(0, i as int),
        decreases v.len() - i,
    {
        out.push(v[i]);
        i = i + 1;
        assert(out@ =~= start + v@.subrange(0, i as int));
    }
    assert(v@.subrange(0, v.len() as int) =~= v@);
}

/// Appends `n` characters `c`.
pub fn push_repeat(out: &mut Vec<char>, c: char, n: usize)
    ensures
        final(out)@ == old(out)@ + repeat_char(c, n as nat),
{
    let mut i: usize = 0;
    let ghost start = out@;
    while i < n
        invariant
            i <= n,
            out@ == start + repeat_char(c, i as nat),
        decreases n - i,
    {
        out.push(c);
        i = i + 1;
        assert(out@ =~= start + repeat_char(c, i as nat));
    }
}

/// Appends `v` padded on the right to `w` characters.
pub fn push_pad_right(out: &mut Vec<char>, v: &Vec<char>, w: usize)
    ensures
        final(out)@ == old(out)@ + pad_right(v@, w as nat),
{
    push_chars(out, v);
    if v.len() < w {
        push_repeat(out, ' ', w - v.len());
    }
    assert(final(out)@ =~= old(out)@ + pad_right(v@, w as nat));
}

/// Appends `v` padded on the left to `w` characters.
pub fn push_pad_left(out: &mut Vec<char>, v: &Vec<char>, w: usize)
    ensures
        final(out)@ == old(out)@ + pad_left(v@, w as nat),
{
    if v.len() < w {
        push_repeat(out, ' ', w - v.len());
    }
    push_chars(out, v);
    assert(final(out)@ =~= old(out)@ + pad_left(v@, w as nat));
}

/// The decimal digits of `n` as characters.
pub fn decimal_chars(n: u64) -> (v: Vec<char>)
    ensures
        v@ == decimal(n as nat),
{
    let mut v: Vec<char> = Vec::new();
    push_decimal(&mut v, n);
    assert(v@ =~= decimal(n as nat));
    v
}

/// Appends `m:ss` for a number of seconds.
pub fn push_clock(out: &mut Vec<char>, secs: u64)
    ensures
        final(out)@ == old(out)@ + clock(secs as nat),
{
    push_decimal(out, secs / 60);
    out.push(':');
    let s = secs % 60;
    if s < 10 {
        out.push('0');
        let c = digit(s);
        out.push(c);
    } else {
        push_decimal(out, s);
    }
    assert(final(out)@ =~= old(out)@ + clock(secs as nat));
}

/// Appends `s` between `> ` and ` <` when `selected`.
pub fn push_marked(out: &mut Vec<char>, s: &str, selected: bool)
    ensures
        final(out)@ == old(out)@ + marked(s@, selected),
{
    if selected {
        out.push('>');
        out.push(' ');
        push_str(out, s);
        out.push(' ');
        out.push('<');
    } else {
        push_str(out, s);
    }
    assert(final(out)@ =~= old(out)@ + marked(s@, selected));
}

/// `s` between `> ` and ` <` when `selected`, as characters.
pub fn marked_chars(s: &str, selected: bool) -> (v: Vec<char>)
    ensures
        v@ == marked(s@, selected),
{
    let mut v: Vec<char> = Vec::new();
    push_marked(&mut v, s, selected);
    assert(v@ =~= marked(s@, selected));
    v
}

/// `str::len`: the number of bytes of the string.
pub fn str_byte_len(s: &str) -> (n: usize)
    ensures
        n == byte_len(s@),
{
    s.len()
}

/// A line without its trailing white space, as characters.
pub fn trim_end_chars(v: &Vec<char>) -> (r: Vec<char>)
    ensures
        r@ == trim_end_by(v@, CharClass::Space),
{
    let j = crate::text::back_class(v, 0, v.len(), CharClass::Space);
    assert(v@.subrange(0, v.len() as int) =~= v@);
    crate::text::slice_chars(v, 0, j)
}

} // verus!
