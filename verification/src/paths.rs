//! Paths as strings with `/` separators.
use vstd::prelude::*;

use crate::text::{chars_of, string_from_chars};

verus! {

/// `base` joined with a relative `name`: a `/` is put between them unless
/// `base` is empty or already ends with one.
pub open spec fn join_path(base: Seq<char>, name: Seq<char>) -> Seq<char> {
    if base.len() == 0 {
        name
    } else if base.last() == '/' {
        base + name
    } else {
        base + seq!['/'] + name
    }
}

/// Joins a relative name onto a base path.
pub fn join(base: &str, name: &str) -> (r: String)
    ensures
        r@ == join_path(base@, name@),
{
    let mut v = chars_of(base);
    let n = chars_of(name);
    let ghost b = v@;
    if v.len() > 0 && v[v.len() - 1] != '/' {
        v.push('/');
    }
    let ghost mid = v@;
    let mut i: usize = 0;
    while i < n.len()
        invariant
            i <= n.len(),
            v@ == mid + n@.subrange(0, i as int),
        decreases n.len() - i,
    {
        v.push(n[i]);
        i = i + 1;
        assert(v@ =~= mid + n@.subrange(0, i as int));
    }
    assert(n@.subrange(0, n.len() as int) =~= n@);
    proof {
        if b.len() == 0 {
            assert(v@ =~= n@);
        }
    }
    string_from_chars(&v)
}

/// A `.` component starts at `i`: a `.` followed by a `/` or by the end.
pub open spec fn is_curdir_at(s: Seq<char>, i: int) -> bool {
    0 <= i < s.len() && s[i] == '.' && (i + 1 == s.len() || s[i + 1] == '/')
}

/// Index past the separators and `.` components found from `i` on.
pub open spec fn skip_empty(s: Seq<char>, i: int) -> int
    decreases s.len() - i,
{
    if i < 0 || i >= s.len() {
        i
    } else if s[i] == '/' || is_curdir_at(s, i) {
        skip_empty(s, i + 1)
    } else {
        i
    }
}

/// End of the component that starts at `i` (the next `/`, or the end).
pub open spec fn comp_end(s: Seq<char>, i: int) -> int
    decreases s.len() - i,
{
    if i < 0 || i >= s.len() || s[i] == '/' {
        i
    } else {
        comp_end(s, i + 1)
    }
}

/// End of `s[lo..hi]` once trailing separators and `.` components are dropped.
pub open spec fn trim_end(s: Seq<char>, lo: int, hi: int) -> int
    decreases hi - lo,
{
    if hi <= lo || hi > s.len() || lo < 0 {
        hi
    } else if s[hi - 1] == '/' || (s[hi - 1] == '.' && (hi - 1 == lo || s[hi - 2] == '/')) {
        trim_end(s, lo, hi - 1)
    } else {
        hi
    }
}

/// How a path starts: 1 at the root (`/`), 2 with a `.` component, else 0.
pub open spec fn head_kind(s: Seq<char>) -> int {
    if s.len() > 0 && s[0] == '/' {
        1
    } else if is_curdir_at(s, 0) {
        2
    } else {
        0
    }
}

/// Length of the head that `head_kind` reads.
pub open spec fn head_len(s: Seq<char>) -> int {
    if head_kind(s) == 0 {
        0
    } else {
        1
    }
}

pub proof fn lemma_skip_empty_bounds(s: Seq<char>, i: int)
    requires
        0 <= i <= s.len(),
    ensures
        i <= skip_empty(s, i) <= s.len(),
        skip_empty(s, i) < s.len() ==> s[skip_empty(s, i)] != '/',
    decreases s.len() - i,
{
    if i < s.len() && (s[i] == '/' || is_curdir_at(s, i)) {
        lemma_skip_empty_bounds(s, i + 1);
    }
}

pub proof fn lemma_comp_end_bounds(s: Seq<char>, i: int)
    requires
        0 <= i <= s.len(),
    ensures
        i <= comp_end(s, i) <= s.len(),
        i < s.len() && s[i] != '/' ==> comp_end(s, i) > i,
    decreases s.len() - i,
{
    if i < s.len() && s[i] != '/' {
        lemma_comp_end_bounds(s, i + 1);
    }
}

pub proof fn lemma_trim_end_bounds(s: Seq<char>, lo: int, hi: int)
    requires
        0 <= lo <= hi <= s.len(),
    ensures
        lo <= trim_end(s, lo, hi) <= hi,
    decreases hi - lo,
{
    if hi > lo && (s[hi - 1] == '/' || (s[hi - 1] == '.' && (hi - 1 == lo || s[hi - 2] == '/'))) {
        lemma_trim_end_bounds(s, lo, hi - 1);
    }
}

/// Matches the components of `r` from `j` on against those of `p` from `i`
/// on, one by one; gives where the rest of `p` starts (past separators and
/// `.` components) when all of them match.
pub open spec fn match_body(p: Seq<char>, i: int, r: Seq<char>, j: int) -> Option<int>
    decreases r.len() - j,
{
    if i < 0 || i > p.len() || j < 0 || j > r.len() {
        None
    } else {
        let ti = skip_empty(p, i);
        let tj = skip_empty(r, j);
        if tj >= r.len() {
            Some(ti)
        } else if ti >= p.len() {
            None
        } else if p.subrange(ti, comp_end(p, ti)) == r.subrange(tj, comp_end(r, tj)) {
            proof {
                lemma_skip_empty_bounds(p, i);
                lemma_skip_empty_bounds(r, j);
                lemma_comp_end_bounds(p, ti);
                lemma_comp_end_bounds(r, tj);
            }
            match_body(p, comp_end(p, ti), r, comp_end(r, tj))
        } else {
            None
        }
    }
}

/// `Path::strip_prefix`: when the components of `root` (root `/`, a leading
/// `.`, then the names between separators, empty and `.` ones left out) begin
/// those of `path`, the rest of `path` without leading or trailing separators
/// and `.` components. An empty `root` has no components: `path` then only
/// loses its trailing ones.
pub open spec fn strip_root(root: Seq<char>, path: Seq<char>) -> Option<Seq<char>> {
    if root.len() == 0 {
        Some(path.subrange(0, trim_end(path, head_len(path), path.len() as int)))
    } else if head_kind(root) != head_kind(path) {
        None
    } else {
        match match_body(path, head_len(path), root, head_len(root)) {
            Some(k) => Some(path.subrange(k, trim_end(path, k, path.len() as int))),
            None => None,
        }
    }
}

/// `path` relative to `root` when it lies under it (`strip_root`), else
/// `path` itself; backslashes become `/`.
pub open spec fn spec_relative_path(root: Seq<char>, path: Seq<char>) -> Seq<char> {
    let rel = match strip_root(root, path) {
        Some(r) => r,
        None => path,
    };
    rel.map_values(|c: char| if c == '\\' { '/' } else { c })
}

fn curdir_at(v: &Vec<char>, i: usize) -> (r: bool)
    ensures
        r == is_curdir_at(v@, i as int),
{
    i < v.len() && v[i] == '.' && (i + 1 == v.len() || v[i + 1] == '/')
}

fn skip_empty_at(v: &Vec<char>, i: usize) -> (r: usize)
    requires
        i <= v.len(),
    ensures
        r == skip_empty(v@, i as int),
{
    let mut k = i;
    while k < v.len() && (v[k] == '/' || curdir_at(v, k))
        invariant
            i <= k <= v.len(),
            skip_empty(v@, i as int) == skip_empty(v@, k as int),
        decreases v.len() - k,
    {
        k = k + 1;
    }
    k
}

fn comp_end_at(v: &Vec<char>, i: usize) -> (r: usize)
    requires
        i <= v.len(),
    ensures
        r == comp_end(v@, i as int),
{
    let mut k = i;
    while k < v.len() && v[k] != '/'
        invariant
            i <= k <= v.len(),
            comp_end(v@, i as int) == comp_end(v@, k as int),
        decreases v.len() - k,
    {
        k = k + 1;
    }
    k
}

fn trim_end_at(v: &Vec<char>, lo: usize, hi: usize) -> (r: usize)
    requires
        lo <= hi <= v.len(),
    ensures
        r == trim_end(v@, lo as int, hi as int),
        lo <= r <= hi,
{
    let mut h = hi;
    while h > lo && (v[h - 1] == '/' || (v[h - 1] == '.' && (h - 1 == lo || v[h - 2] == '/')))
        invariant
            lo <= h <= hi <= v.len(),
            trim_end(v@, lo as int, hi as int) == trim_end(v@, lo as int, h as int),
        decreases h,
    {
        h = h - 1;
    }
    h
}

/// Whether `a[a0..a1]` and `b[b0..b1]` hold the same characters.
fn ranges_equal(a: &Vec<char>, a0: usize, a1: usize, b: &Vec<char>, b0: usize, b1: usize) -> (r: bool)
    requires
        a0 <= a1 <= a.len(),
        b0 <= b1 <= b.len(),
    ensures
        r == (a@.subrange(a0 as int, a1 as int) == b@.subrange(b0 as int, b1 as int)),
{
    if a1 - a0 != b1 - b0 {
        assert(a@.subrange(a0 as int, a1 as int).len() != b@.subrange(b0 as int, b1 as int).len());
        return false;
    }
    let n = a1 - a0;
    let ghost sa = a@.subrange(a0 as int, a1 as int);
    let ghost sb = b@.subrange(b0 as int, b1 as int);
    let mut k: usize = 0;
    while k < n
        invariant
            n == a1 - a0 == b1 - b0,
            a0 <= a1 <= a.len(),
            b0 <= b1 <= b.len(),
            sa == a@.subrange(a0 as int, a1 as int),
            sb == b@.subrange(b0 as int, b1 as int),
            k <= n,
            forall|t: int| 0 <= t < k ==> #[trigger] sa[t] == sb[t],
        decreases n - k,
    {
        if a[a0 + k] != b[b0 + k] {
            proof {
                assert(sa[k as int] != sb[k as int]);
            }
            return false;
        }
        k = k + 1;
    }
    assert(sa =~= sb);
    true
}

fn match_body_at(p: &Vec<char>, i: usize, r: &Vec<char>, j: usize) -> (res: Option<usize>)
    requires
        i <= p.len(),
        j <= r.len(),
    ensures
        match res {
            Some(k) => match_body(p@, i as int, r@, j as int) == Some(k as int) && k <= p.len(),
            None => match_body(p@, i as int, r@, j as int) is None,
        },
{
    let mut ci = i;
    let mut cj = j;
    loop
        invariant
            ci <= p.len(),
            cj <= r.len(),
            match_body(p@, i as int, r@, j as int) == match_body(p@, ci as int, r@, cj as int),
        decreases r.len() - cj,
    {
        let ti = skip_empty_at(p, ci);
        let tj = skip_empty_at(r, cj);
        proof {
            lemma_skip_empty_bounds(p@, ci as int);
            lemma_skip_empty_bounds(r@, cj as int);
        }
        if tj >= r.len() {
            return Some(ti);
        }
        if ti >= p.len() {
            return None;
        }
        let ei = comp_end_at(p, ti);
        let ej = comp_end_at(r, tj);
        proof {
            lemma_comp_end_bounds(p@, ti as int);
            lemma_comp_end_bounds(r@, tj as int);
        }
        if !ranges_equal(p, ti, ei, r, tj, ej) {
            return None;
        }
        ci = ei;
        cj = ej;
    }
}

/// `path` relative to `root`, with `/` separators (the key of a track in the
/// cache index).
pub fn relative_path(root: &str, path: &str) -> (r: String)
    ensures
        r@ == spec_relative_path(root@, path@),
{
    let rv = chars_of(root);
    let pv = chars_of(path);
    let phead: usize = if pv.len() > 0 && pv[0] == '/' {
        1
    } else if curdir_at(&pv, 0) {
        1
    } else {
        0
    };
    let pkind: u8 = if pv.len() > 0 && pv[0] == '/' {
        1
    } else if curdir_at(&pv, 0) {
        2
    } else {
        0
    };
    let rhead: usize = if rv.len() > 0 && rv[0] == '/' {
        1
    } else if curdir_at(&rv, 0) {
        1
    } else {
        0
    };
    let rkind: u8 = if rv.len() > 0 && rv[0] == '/' {
        1
    } else if curdir_at(&rv, 0) {
        2
    } else {
        0
    };
    assert(phead == head_len(pv@) && pkind == head_kind(pv@));
    assert(rhead == head_len(rv@) && rkind == head_kind(rv@));
    let (start, stop): (usize, usize) = if rv.len() == 0 {
        (0, trim_end_at(&pv, phead, pv.len()))
    } else if rkind != pkind {
        (0, pv.len())
    } else {
        match match_body_at(&pv, phead, &rv, rhead) {
            Some(k) => (k, trim_end_at(&pv, k, pv.len())),
            None => (0, pv.len()),
        }
    };
    let ghost rel = pv@.subrange(start as int, stop as int);
    proof {
        let expected = match strip_root(rv@, pv@) {
            Some(x) => x,
            None => pv@,
        };
        assert(rel =~= expected);
    }
    let mut out: Vec<char> = Vec::new();
    let mut i = start;
    while i < stop
        invariant
            start <= i <= stop <= pv.len(),
            rel == pv@.subrange(start as int, stop as int),
            out@ == rel.take(i - start).map_values(|c: char| if c == '\\' { '/' } else { c }),
        decreases stop - i,
    {
        let c = pv[i];
        let d = if c == '\\' { '/' } else { c };
        out.push(d);
        i = i + 1;
        assert(out@ =~= rel.take(i - start).map_values(|c: char| if c == '\\' { '/' } else { c }));
    }
    assert(rel.take(stop - start) =~= rel);
    string_from_chars(&out)
}

/// Index just after the last `/` of `p` (0 when there is none).
pub open spec fn after_last_slash(p: Seq<char>) -> int
    decreases p.len(),
{
    if p.len() == 0 {
        0
    } else if p.last() == '/' {
        p.len() as int
    } else {
        after_last_slash(p.drop_last())
    }
}

/// `Path::file_name` on Unix: trailing slashes and `.` components are
/// skipped; the last component is the name, unless it is `..` (or there is
/// none).
pub open spec fn file_name_of_path(p: Seq<char>) -> Option<Seq<char>>
    decreases p.len(),
{
    if p.len() == 0 {
        None
    } else if p.last() == '/' {
        file_name_of_path(p.drop_last())
    } else {
        let i = after_last_slash(p);
        let seg = p.subrange(i, p.len() as int);
        if seg == seq!['.'] {
            if 0 <= i < p.len() {
                file_name_of_path(p.take(i))
            } else {
                None
            }
        } else if seg == seq!['.', '.'] {
            None
        } else {
            Some(seg)
        }
    }
}

proof fn lemma_after_last_slash(p: Seq<char>, i: int)
    requires
        0 <= i <= p.len(),
        i == 0 || p[i - 1] == '/',
        forall|k: int| i <= k < p.len() ==> #[trigger] p[k] != '/',
    ensures
        after_last_slash(p) == i,
    decreases p.len(),
{
    if p.len() > i {
        let q = p.drop_last();
        assert forall|k: int| i <= k < q.len() implies #[trigger] q[k] != '/' by {
            assert(q[k] == p[k]);
        }
        if i > 0 {
            assert(q[i - 1] == p[i - 1]);
        }
        lemma_after_last_slash(q, i);
    }
}

/// The last component of a path, as `Path::file_name` gives it.
pub fn file_name_of(path: &str) -> (r: Option<String>)
    ensures
        match file_name_of_path(path@) {
            Some(n) => r is Some && r.unwrap()@ == n,
            None => r is None,
        },
{
    let v = chars_of(path);
    let mut j = v.len();
    proof {
        assert(v@.take(j as int) =~= v@);
    }
    loop
        invariant
            j <= v.len(),
            file_name_of_path(v@.take(j as int)) == file_name_of_path(path@),
            v@ == path@,
        decreases j,
    {
        if j == 0 {
            return None;
        }
        if v[j - 1] == '/' {
            proof {
                assert(v@.take(j as int).drop_last() =~= v@.take(j - 1));
            }
            j = j - 1;
            continue;
        }
        let mut i = j;
        while i > 0 && v[i - 1] != '/'
            invariant
                i <= j <= v.len(),
                forall|k: int| i <= k < j ==> #[trigger] v@[k] != '/',
            decreases i,
        {
            i = i - 1;
        }
        let ghost q = v@.take(j as int);
        proof {
            lemma_after_last_slash(q, i as int);
            assert(q.subrange(i as int, j as int) =~= v@.subrange(i as int, j as int));
        }
        let seg_len = j - i;
        if seg_len == 1 && v[i] == '.' {
            proof {
                assert(v@.subrange(i as int, j as int) =~= seq!['.']);
                assert(q.take(i as int) =~= v@.take(i as int));
            }
            j = i;
            continue;
        }
        if seg_len == 2 && v[i] == '.' && v[i + 1] == '.' {
            proof {
                assert(v@.subrange(i as int, j as int) =~= seq!['.', '.']);
            }
            return None;
        }
        proof {
            if v@.subrange(i as int, j as int) == seq!['.'] {
                assert(v@.subrange(i as int, j as int)[0] == v@[i as int]);
            }
            if v@.subrange(i as int, j as int) == seq!['.', '.'] {
                assert(v@.subrange(i as int, j as int)[0] == v@[i as int]);
                assert(v@.subrange(i as int, j as int)[1] == v@[i + 1]);
            }
        }
        return Some(crate::text::string_of_range(&v, i, j));
    }
}

/// Calls std's `Path::exists`. Nothing is claimed of the result: it depends
/// on the disk at the time of the call.
#[verifier::external_body]
pub(crate) fn path_exists(path: &str) -> bool {
    std::path::Path::new(path).exists()
}

} // verus!
