//! The albums as a grid of covers with their titles and artists.
use vstd::prelude::*;

use crate::text::{string_from_chars, trim_end_by, CharClass};
use crate::ui::cells::{
    byte_len, join_lines, lemma_join_push, marked, marked_chars, pad_right, push_chars, push_pad_right,
    push_repeat, push_str, repeat_char, str_byte_len, trim_end_chars,
};
use crate::ui::components::artists_panel::window_end;
use crate::ui::components::folders_panel::{grid_first_row, lemma_row_start, row_end, total_rows};
use crate::ui::message::UiMessage;
use crate::ui::state::Album;

verus! {

pub open spec fn cover_char(selected: bool) -> char {
    if selected {
        '▓'
    } else {
        '█'
    }
}

/// Line `idx` of the cell of album `a`.
pub open spec fn cell_line(a: Album, sel: Option<usize>, idx: int) -> Seq<char> {
    let s = sel == Some(a.id);
    if idx < 3 {
        repeat_char(cover_char(s), 6)
    } else if idx == 3 {
        marked(a.title@, s)
    } else {
        marked(a.artist@, s)
    }
}

/// Line `idx` of a row of cells, before trailing spaces are trimmed: each
/// cell padded to `width`, two spaces after every column but the last.
pub open spec fn row_line_raw(cells: Seq<Album>, sel: Option<usize>, idx: int, width: nat, columns: int) -> Seq<
    char,
>
    decreases cells.len(),
{
    if cells.len() == 0 {
        Seq::empty()
    } else {
        row_line_raw(cells.drop_last(), sel, idx, width, columns) + pad_right(
            cell_line(cells.last(), sel, idx),
            width,
        ) + if cells.len() < columns {
            seq![' ', ' ']
        } else {
            Seq::empty()
        }
    }
}

/// Line `idx` of grid row `r`.
pub open spec fn grid_line(albums: Seq<Album>, c: int, r: int, sel: Option<usize>, idx: int, width: nat) -> Seq<
    char,
> {
    let lo = r * c;
    trim_end_by(
        row_line_raw(albums.subrange(lo, row_end(albums.len() as int, lo, c)), sel, idx, width, c),
        CharClass::Space,
    )
}

/// The longest title or artist name, in bytes.
pub open spec fn longest_label(albums: Seq<Album>) -> nat
    decreases albums.len(),
{
    if albums.len() == 0 {
        0
    } else {
        let a = albums.last();
        let here = if byte_len(a.title@) >= byte_len(a.artist@) {
            byte_len(a.title@)
        } else {
            byte_len(a.artist@)
        };
        let before = longest_label(albums.drop_last());
        if before >= here {
            before
        } else {
            here as nat
        }
    }
}

/// Width of a cell: the longest label, at least 10.
pub open spec fn cell_width(albums: Seq<Album>) -> nat {
    if longest_label(albums) >= 10 {
        longest_label(albums)
    } else {
        10
    }
}

/// The grid as text: the sort label, then five lines per visible row.
pub open spec fn albums_text(
    sort_label: Seq<char>,
    albums: Seq<Album>,
    sel: Option<usize>,
    c: int,
    scroll: int,
    rows: int,
) -> Seq<char> {
    let n = albums.len() as int;
    let first = grid_first_row(n, c, scroll);
    let end = window_end(total_rows(n, c), first, rows);
    let w = cell_width(albums);
    join_lines(
        seq!["Tri: "@ + sort_label] + Seq::new(
            ((end - first) * 5) as nat,
            |k: int| grid_line(albums, c, first + k / 5, sel, k % 5, w),
        ),
    )
}

/// The first album with this id, as the message that selects it.
pub open spec fn select_album_message(albums: Seq<Album>, id: usize, r: Option<UiMessage>) -> bool {
    match r {
        Some(m) => exists|k: int|
            0 <= k < albums.len() && (#[trigger] albums[k]).id == id && (forall|j: int|
                0 <= j < k ==> (#[trigger] albums[j]).id != id) && m == UiMessage::SelectAlbum(albums[k]),
        None => forall|k: int| 0 <= k < albums.len() ==> (#[trigger] albums[k]).id != id,
    }
}

fn cell_line_chars(a: &Album, selected: bool, idx: usize) -> (v: Vec<char>)
    requires
        idx < 5,
    ensures
        v@ == cell_line(*a, if selected {
            Some(a.id)
        } else {
            None
        }, idx as int),
{
    let mut v: Vec<char> = Vec::new();
    if idx < 3 {
        let ch = if selected {
            '▓'
        } else {
            '█'
        };
        push_repeat(&mut v, ch, 6);
        assert(v@ =~= repeat_char(ch, 6));
        v
    } else if idx == 3 {
        marked_chars(a.title.as_str(), selected)
    } else {
        marked_chars(a.artist.as_str(), selected)
    }
}

/// Appends line `idx` of the cells `albums[lo..hi]`, before trimming.
fn push_row_line(
    line: &mut Vec<char>,
    albums: &Vec<Album>,
    lo: usize,
    hi: usize,
    sel: Option<usize>,
    idx: usize,
    width: usize,
    columns: usize,
)
    requires
        lo <= hi <= albums.len(),
        idx < 5,
    ensures
        final(line)@ == old(line)@ + row_line_raw(
            albums@.subrange(lo as int, hi as int),
            sel,
            idx as int,
            width as nat,
            columns as int,
        ),
{
    let ghost start = line@;
    let mut j = lo;
    proof {
        assert(albums@.subrange(lo as int, lo as int) =~= Seq::<Album>::empty());
    }
    while j < hi
        invariant
            lo <= j <= hi <= albums.len(),
            idx < 5,
            line@ == start + row_line_raw(
                albums@.subrange(lo as int, j as int),
                sel,
                idx as int,
                width as nat,
                columns as int,
            ),
        decreases hi - j,
    {
        let a = &albums[j];
        let selected = match sel {
            Some(id) => id == a.id,
            None => false,
        };
        let content = cell_line_chars(a, selected, idx);
        proof {
            assert(content@ == cell_line(*a, sel, idx as int));
        }
        push_pad_right(line, &content, width);
        if j - lo + 1 < columns {
            line.push(' ');
            line.push(' ');
        }
        proof {
            let s = albums@.subrange(lo as int, j + 1);
            assert(s.drop_last() =~= albums@.subrange(lo as int, j as int));
            assert(s.last() == albums@[j as int]);
        }
        j = j + 1;
        proof {
            assert(line@ =~= start + row_line_raw(
                albums@.subrange(lo as int, j as int),
                sel,
                idx as int,
                width as nat,
                columns as int,
            ));
        }
    }
}

fn longest_label_of(albums: &Vec<Album>) -> (r: usize)
    ensures
        r == longest_label(albums@),
{
    let mut best: usize = 0;
    let mut k: usize = 0;
    while k < albums.len()
        invariant
            k <= albums.len(),
            best == longest_label(albums@.subrange(0, k as int)),
        decreases albums.len() - k,
    {
        let a = &albums[k];
        let t = str_byte_len(a.title.as_str());
        let r = str_byte_len(a.artist.as_str());
        let here = if t >= r {
            t
        } else {
            r
        };
        proof {
            assert(albums@.subrange(0, k + 1).drop_last() =~= albums@.subrange(0, k as int));
        }
        if here > best {
            best = here;
        }
        k = k + 1;
    }
    assert(albums@.subrange(0, albums.len() as int) =~= albums@);
    best
}

#[derive(Debug, Clone)]
pub struct AlbumsGrid {
    sort_label: String,
    albums: Vec<Album>,
    selected_album_id: Option<usize>,
    columns: usize,
    scroll_offset: usize,
    viewport_rows: usize,
}

impl AlbumsGrid {
    /// At least one column.
    pub closed spec fn wf(self) -> bool {
        self.columns >= 1
    }

    pub closed spec fn sort_label(self) -> Seq<char> {
        self.sort_label@
    }

    pub closed spec fn albums(self) -> Seq<Album> {
        self.albums@
    }

    pub closed spec fn selected(self) -> Option<usize> {
        self.selected_album_id
    }

    pub closed spec fn columns(self) -> int {
        self.columns as int
    }

    pub closed spec fn scroll(self) -> int {
        self.scroll_offset as int
    }

    pub closed spec fn rows(self) -> int {
        self.viewport_rows as int
    }

    /// Three columns, three rows, sorted "A–Z", none selected.
    pub fn new(albums: Vec<Album>) -> (r: Self)
        ensures
            r.wf(),
            r.sort_label() == "A–Z"@,
            r.albums() == albums@,
            r.selected() is None,
            r.columns() == 3,
            r.scroll() == 0,
            r.rows() == 3,
    {
        AlbumsGrid {
            sort_label: "A–Z".to_owned(),
            albums,
            selected_album_id: None,
            columns: 3,
            scroll_offset: 0,
            viewport_rows: 3,
        }
    }

    pub fn with_sort_label(self, sort_label: &str) -> (r: Self)
        ensures
            self.wf() ==> r.wf(),
            r.sort_label() == sort_label@,
            r.albums() == self.albums(),
            r.selected() == self.selected(),
            r.columns() == self.columns(),
            r.scroll() == self.scroll(),
            r.rows() == self.rows(),
    {
        let mut s = self;
        s.sort_label = sort_label.to_owned();
        s
    }

    pub fn with_selection(self, selected_album_id: Option<usize>) -> (r: Self)
        ensures
            self.wf() ==> r.wf(),
            r.sort_label() == self.sort_label(),
            r.albums() == self.albums(),
            r.selected() == selected_album_id,
            r.columns() == self.columns(),
            r.scroll() == self.scroll(),
            r.rows() == self.rows(),
    {
        let mut s = self;
        s.selected_album_id = selected_album_id;
        s
    }

    /// Columns and rows (each at least one) and the first row shown.
    pub fn with_layout(self, columns: usize, scroll_offset: usize, viewport_rows: usize) -> (r: Self)
        ensures
            r.wf(),
            r.sort_label() == self.sort_label(),
            r.albums() == self.albums(),
            r.selected() == self.selected(),
            r.columns() == (if columns >= 1 {
                columns as int
            } else {
                1
            }),
            r.scroll() == scroll_offset,
            r.rows() == (if viewport_rows >= 1 {
                viewport_rows as int
            } else {
                1
            }),
    {
        let mut s = self;
        s.columns = if columns >= 1 {
            columns
        } else {
            1
        };
        s.scroll_offset = scroll_offset;
        s.viewport_rows = if viewport_rows >= 1 {
            viewport_rows
        } else {
            1
        };
        s
    }

    /// The message that selects the album with this id, if shown.
    pub fn message_for_album(&self, album_id: usize) -> (r: Option<UiMessage>)
        ensures
            select_album_message(self.albums(), album_id, r),
    {
        let mut k: usize = 0;
        while k < self.albums.len()
            invariant
                k <= self.albums.len(),
                forall|j: int| 0 <= j < k ==> (#[trigger] self.albums@[j]).id != album_id,
            decreases self.albums.len() - k,
        {
            if self.albums[k].id == album_id {
                let a = self.albums[k].duplicate();
                return Some(UiMessage::SelectAlbum(a));
            }
            k = k + 1;
        }
        None
    }

    /// The grid as text.
    pub fn render(&self) -> (r: String)
        requires
            self.wf(),
        ensures
            r@ == albums_text(
                self.sort_label(),
                self.albums(),
                self.selected(),
                self.columns(),
                self.scroll(),
                self.rows(),
            ),
    {
        let ghost albums = self.albums@;
        let ghost sel = self.selected_album_id;
        let ghost header = "Tri: "@ + self.sort_label@;
        let longest = longest_label_of(&self.albums);
        let width: usize = if longest >= 10 {
            longest
        } else {
            10
        };
        let mut out: Vec<char> = Vec::new();
        push_str(&mut out, "Tri: ");
        push_str(&mut out, self.sort_label.as_str());
        let n = self.albums.len();
        let c = self.columns;
        let q = n / c;
        proof {
            vstd::arithmetic::div_mod::lemma_fundamental_div_mod(n as int, c as int);
            if n % c != 0 {
                assert(q * 2 <= n) by (nonlinear_arith)
                    requires
                        c * q + n % c == n,
                        c >= 2,
                        q >= 0,
                        n % c >= 0,
                ;
            }
        }
        let t = if n % c == 0 {
            q
        } else {
            q + 1
        };
        let last = if t >= 1 {
            t - 1
        } else {
            0
        };
        let first = if self.scroll_offset <= last {
            self.scroll_offset
        } else {
            last
        };
        let end = if self.viewport_rows <= t - first {
            first + self.viewport_rows
        } else {
            t
        };
        let ghost f = |k: int| grid_line(albums, c as int, first + k / 5, sel, k % 5, width as nat);
        let mut r = first;
        let mut lo: usize = 0;
        if first < end {
            proof {
                lemma_row_start(n as int, c as int, first as int);
            }
            lo = first * c;
        }
        proof {
            assert(seq![header] + Seq::new(0, f) =~= seq![header]);
        }
        while r < end
            invariant
                albums == self.albums@,
                sel == self.selected_album_id,
                n == albums.len(),
                c == self.columns,
                c >= 1,
                width == cell_width(albums),
                t == total_rows(n as int, c as int),
                first <= r <= end <= t,
                r < end ==> lo == r * c,
                f == (|k: int| grid_line(albums, c as int, first + k / 5, sel, k % 5, width as nat)),
                out@ == join_lines(seq![header] + Seq::new(((r - first) * 5) as nat, f)),
            decreases end - r,
        {
            proof {
                lemma_row_start(n as int, c as int, r as int);
            }
            let hi = if c <= n - lo {
                lo + c
            } else {
                n
            };
            let mut idx: usize = 0;
            while idx < 5
                invariant
                    albums == self.albums@,
                    sel == self.selected_album_id,
                    n == albums.len(),
                    lo == r * c,
                    hi == row_end(n as int, lo as int, c as int),
                    lo <= hi <= n,
                    first <= r,
                    idx <= 5,
                    f == (|k: int| grid_line(albums, c as int, first + k / 5, sel, k % 5, width as nat)),
                    out@ == join_lines(seq![header] + Seq::new(((r - first) * 5 + idx) as nat, f)),
                decreases 5 - idx,
            {
                let ghost before = seq![header] + Seq::new(((r - first) * 5 + idx) as nat, f);
                let mut line: Vec<char> = Vec::new();
                push_row_line(&mut line, &self.albums, lo, hi, self.selected_album_id, idx, width, c);
                let trimmed = trim_end_chars(&line);
                out.push('\n');
                push_chars(&mut out, &trimmed);
                proof {
                    let k = (r - first) * 5 + idx;
                    assert(k / 5 == r - first && k % 5 == idx);
                    assert(line@ =~= row_line_raw(
                        albums.subrange(lo as int, hi as int),
                        sel,
                        idx as int,
                        width as nat,
                        c as int,
                    ));
                    assert(f(k) == trimmed@);
                    lemma_join_push(before, trimmed@);
                    assert(seq![header] + Seq::new((k + 1) as nat, f) =~= before.push(trimmed@));
                }
                idx = idx + 1;
            }
            if r + 1 < end {
                proof {
                    lemma_row_start(n as int, c as int, r + 1);
                }
                lo = lo + c;
            }
            proof {
                assert((r - first) * 5 + 5 == (r + 1 - first) * 5);
            }
            r = r + 1;
        }
        string_from_chars(&out)
    }
}

} // verus!
