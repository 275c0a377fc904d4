//! The album folders, as a grid or as a list.
use vstd::prelude::*;

use crate::text::string_from_chars;
use crate::ui::cells::{
    decimal, decimal_chars, join_lines, lemma_join_push, marked, marked_chars, pad_left, pad_right,
    push_decimal, push_pad_left, push_pad_right, push_str,
};
use crate::ui::components::artists_panel::window_end;

verus! {

#[derive(Debug, Clone, PartialEq, Eq)]
pub struct FolderEntry {
    pub id: usize,
    pub name: String,
    pub track_count: usize,
}

#[derive(Debug, Clone, Copy, PartialEq, Eq, Structural)]
pub enum FolderLayout {
    Grid,
    List,
}

/// One cell of the grid: the name padded to 14, then the track count.
pub open spec fn folder_label(f: FolderEntry, sel: Option<usize>) -> Seq<char> {
    pad_right(marked(f.name@, sel == Some(f.id)), 14) + seq![' '] + pad_left(decimal(f.track_count as nat), 3)
}

/// Cells of one grid row, two spaces apart.
pub open spec fn labels_joined(fs: Seq<FolderEntry>, sel: Option<usize>) -> Seq<char>
    decreases fs.len(),
{
    if fs.len() == 0 {
        Seq::empty()
    } else if fs.len() == 1 {
        folder_label(fs[0], sel)
    } else {
        labels_joined(fs.drop_last(), sel) + seq![' ', ' '] + folder_label(fs.last(), sel)
    }
}

/// `usize::div_ceil`: rows needed for `n` cells, `c` per row.
pub open spec fn total_rows(n: int, c: int) -> int {
    n / c + if n % c == 0 {
        0int
    } else {
        1int
    }
}

/// End of the row that starts at cell `lo`.
pub open spec fn row_end(n: int, lo: int, c: int) -> int {
    if c <= n - lo {
        lo + c
    } else {
        n
    }
}

pub open spec fn grid_row(fs: Seq<FolderEntry>, c: int, r: int, sel: Option<usize>) -> Seq<char> {
    labels_joined(fs.subrange(r * c, row_end(fs.len() as int, r * c, c)), sel)
}

/// First row shown: the scroll offset, at most the last row.
pub open spec fn grid_first_row(n: int, c: int, scroll: int) -> int {
    let t = total_rows(n, c);
    let last = if t >= 1 {
        t - 1
    } else {
        0
    };
    if scroll <= last {
        scroll
    } else {
        last
    }
}

/// One row of the list: the name padded to 20, then the track count.
pub open spec fn list_row(f: FolderEntry, sel: Option<usize>) -> Seq<char> {
    pad_right(marked(f.name@, sel == Some(f.id)), 20) + seq![' '] + pad_left(decimal(f.track_count as nat), 3)
        + " tracks"@
}

/// The panel as text: a header with the count and the sort label, then the
/// visible rows of the grid or of the list.
pub open spec fn folders_text(
    sort_label: Seq<char>,
    fs: Seq<FolderEntry>,
    sel: Option<usize>,
    layout: FolderLayout,
    columns: int,
    scroll: int,
    rows: int,
) -> Seq<char> {
    let n = fs.len() as int;
    let header = decimal(fs.len()) + " Folders · "@ + sort_label;
    match layout {
        FolderLayout::Grid => {
            let first = grid_first_row(n, columns, scroll);
            let end = window_end(total_rows(n, columns), first, rows);
            join_lines(
                seq![header] + Seq::new((end - first) as nat, |k: int| grid_row(fs, columns, first + k, sel)),
            )
        },
        FolderLayout::List => {
            let lo = if scroll <= n {
                scroll
            } else {
                n
            };
            let end = window_end(n, lo, rows);
            join_lines(seq![header] + Seq::new((end - lo) as nat, |k: int| list_row(fs[lo + k], sel)))
        },
    }
}

/// Row `r` of a grid of `n` cells, `c` per row, starts within the cells.
pub proof fn lemma_row_start(n: int, c: int, r: int)
    requires
        c >= 1,
        n >= 0,
        0 <= r < total_rows(n, c),
    ensures
        0 <= r * c < n,
        r * c + c == (r + 1) * c,
{
    vstd::arithmetic::div_mod::lemma_fundamental_div_mod(n, c);
    let q = n / c;
    let m = n % c;
    assert(0 <= m < c) by {
        vstd::arithmetic::div_mod::lemma_mod_bound(n, c);
    }
    assert(0 <= q) by {
        vstd::arithmetic::div_mod::lemma_div_pos_is_pos(n, c);
    }
    if r < q {
        assert(r * c + c <= q * c) by (nonlinear_arith)
            requires
                r < q,
                c >= 1,
        ;
    } else {
        assert(r == q);
        assert(m != 0);
    }
    assert(0 <= r * c) by (nonlinear_arith)
        requires
            r >= 0,
            c >= 1,
    ;
    assert(r * c + c == (r + 1) * c) by (nonlinear_arith);
}

proof fn lemma_labels_push(fs: Seq<FolderEntry>, lo: int, j: int, sel: Option<usize>)
    requires
        0 <= lo <= j < fs.len(),
    ensures
        labels_joined(fs.subrange(lo, j + 1), sel) == labels_joined(fs.subrange(lo, j), sel) + (if j > lo {
            seq![' ', ' ']
        } else {
            Seq::empty()
        }) + folder_label(fs[j], sel),
{
    let s = fs.subrange(lo, j + 1);
    assert(s.drop_last() =~= fs.subrange(lo, j));
    if j == lo {
        assert(fs.subrange(lo, j) =~= Seq::<FolderEntry>::empty());
        assert(s.len() == 1);
    }
}

/// Appends the cells of `fs[lo..hi]`, two spaces apart.
fn push_grid_row(out: &mut Vec<char>, fs: &Vec<FolderEntry>, lo: usize, hi: usize, sel: Option<usize>)
    requires
        lo <= hi <= fs.len(),
    ensures
        final(out)@ == old(out)@ + labels_joined(fs@.subrange(lo as int, hi as int), sel),
{
    let ghost line_start = out@;
    let mut j = lo;
    proof {
        assert(fs@.subrange(lo as int, lo as int) =~= Seq::<FolderEntry>::empty());
    }
    while j < hi
        invariant
            lo <= j <= hi <= fs.len(),
            out@ == line_start + labels_joined(fs@.subrange(lo as int, j as int), sel),
        decreases hi - j,
    {
        proof {
            lemma_labels_push(fs@, lo as int, j as int, sel);
        }
        if j > lo {
            out.push(' ');
            out.push(' ');
        }
        let f = &fs[j];
        let selected = match sel {
            Some(id) => id == f.id,
            None => false,
        };
        let name = marked_chars(f.name.as_str(), selected);
        push_pad_right(out, &name, 14);
        out.push(' ');
        let count = decimal_chars(f.track_count as u64);
        push_pad_left(out, &count, 3);
        j = j + 1;
        proof {
            assert(out@ =~= line_start + labels_joined(fs@.subrange(lo as int, j as int), sel));
        }
    }
}

#[derive(Debug, Clone)]
pub struct FoldersPanel {
    sort_label: String,
    folders: Vec<FolderEntry>,
    selected_folder_id: Option<usize>,
    layout: FolderLayout,
    columns: usize,
    scroll_offset: usize,
    viewport_rows: usize,
}

impl FoldersPanel {
    /// At least one column.
    pub closed spec fn wf(self) -> bool {
        self.columns >= 1
    }

    pub closed spec fn sort_label(self) -> Seq<char> {
        self.sort_label@
    }

    pub closed spec fn folders(self) -> Seq<FolderEntry> {
        self.folders@
    }

    pub closed spec fn selected(self) -> Option<usize> {
        self.selected_folder_id
    }

    pub closed spec fn layout(self) -> FolderLayout {
        self.layout
    }

    pub closed spec fn columns(self) -> int {
        self.columns as int
    }

    pub closed spec fn scroll(self) -> int {
        self.scroll_offset as int
    }

    pub closed spec fn rows(self) -> int {
        self.viewport_rows as int
    }

    /// A grid of three columns and three rows, sorted "By name", none selected.
    pub fn new(folders: Vec<FolderEntry>) -> (r: Self)
        ensures
            r.wf(),
            r.sort_label() == "By name"@,
            r.folders() == folders@,
            r.selected() is None,
            r.layout() == FolderLayout::Grid,
            r.columns() == 3,
            r.scroll() == 0,
            r.rows() == 3,
    {
        FoldersPanel {
            sort_label: "By name".to_owned(),
            folders,
            selected_folder_id: None,
            layout: FolderLayout::Grid,
            columns: 3,
            scroll_offset: 0,
            viewport_rows: 3,
        }
    }

    pub fn with_sort_label(self, sort_label: &str) -> (r: Self)
        ensures
            self.wf() ==> r.wf(),
            r.sort_label() == sort_label@,
            r.folders() == self.folders(),
            r.selected() == self.selected(),
            r.layout() == self.layout(),
            r.columns() == self.columns(),
            r.scroll() == self.scroll(),
            r.rows() == self.rows(),
    {
        let mut s = self;
        s.sort_label = sort_label.to_owned();
        s
    }

    pub fn with_selection(self, selected_folder_id: Option<usize>) -> (r: Self)
        ensures
            self.wf() ==> r.wf(),
            r.sort_label() == self.sort_label(),
            r.folders() == self.folders(),
            r.selected() == selected_folder_id,
            r.layout() == self.layout(),
            r.columns() == self.columns(),
            r.scroll() == self.scroll(),
            r.rows() == self.rows(),
    {
        let mut s = self;
        s.selected_folder_id = selected_folder_id;
        s
    }

    /// The grid layout, with at least one column and one row.
    pub fn with_layout_grid(self, columns: usize, scroll_offset: usize, viewport_rows: usize) -> (r: Self)
        ensures
            r.wf(),
            r.sort_label() == self.sort_label(),
            r.folders() == self.folders(),
            r.selected() == self.selected(),
            r.layout() == FolderLayout::Grid,
            r.columns() == (if columns >= 1 {
                columns as int
            } else {
                1
            }),
            r.scroll() == scroll_offset,
            r.rows() == (if viewport_rows >= 1 {
                viewport_rows as int
            } else {
                1
            }),
    {
        let mut s = self;
        s.layout = FolderLayout::Grid;
        s.columns = if columns >= 1 {
            columns
        } else {
            1
        };
        s.scroll_offset = scroll_offset;
        s.viewport_rows = if viewport_rows >= 1 {
            viewport_rows
        } else {
            1
        };
        s
    }

    /// The list layout, with at least one row; the columns stay.
    pub fn with_layout_list(self, scroll_offset: usize, viewport_size: usize) -> (r: Self)
        ensures
            self.wf() ==> r.wf(),
            r.sort_label() == self.sort_label(),
            r.folders() == self.folders(),
            r.selected() == self.selected(),
            r.layout() == FolderLayout::List,
            r.columns() == self.columns(),
            r.scroll() == scroll_offset,
            r.rows() == (if viewport_size >= 1 {
                viewport_size as int
            } else {
                1
            }),
    {
        let mut s = self;
        s.layout = FolderLayout::List;
        s.scroll_offset = scroll_offset;
        s.viewport_rows = if viewport_size >= 1 {
            viewport_size
        } else {
            1
        };
        s
    }

    /// The panel as text.
    pub fn render(&self) -> (r: String)
        requires
            self.wf(),
        ensures
            r@ == folders_text(
                self.sort_label(),
                self.folders(),
                self.selected(),
                self.layout(),
                self.columns(),
                self.scroll(),
                self.rows(),
            ),
    {
        let ghost fs = self.folders@;
        let ghost sel = self.selected_folder_id;
        let ghost header = decimal(fs.len()) + " Folders · "@ + self.sort_label@;
        let mut out: Vec<char> = Vec::new();
        let n = self.folders.len();
        push_decimal(&mut out, n as u64);
        push_str(&mut out, " Folders · ");
        push_str(&mut out, self.sort_label.as_str());
        match self.layout {
            FolderLayout::Grid => {
                let c = self.columns;
                let q = n / c;
                proof {
                    vstd::arithmetic::div_mod::lemma_fundamental_div_mod(n as int, c as int);
                    if n % c != 0 {
                        assert(c >= 2);
                        assert(q * 2 <= n) by (nonlinear_arith)
                            requires
                                c * q + n % c == n,
                                c >= 2,
                                q >= 0,
                                n % c >= 0,
                        ;
                    }
                }
                let t = if n % c == 0 {
                    q
                } else {
                    q + 1
                };
                let last = if t >= 1 {
                    t - 1
                } else {
                    0
                };
                let first = if self.scroll_offset <= last {
                    self.scroll_offset
                } else {
                    last
                };
                let end = if self.viewport_rows <= t - first {
                    first + self.viewport_rows
                } else {
                    t
                };
                let mut r = first;
                let mut lo: usize = 0;
                if first < end {
                    proof {
                        lemma_row_start(n as int, c as int, first as int);
                    }
                    lo = first * c;
                }
                proof {
                    assert(seq![header] + Seq::new(0, |k: int| grid_row(fs, c as int, first + k, sel))
                        =~= seq![header]);
                }
                while r < end
                    invariant
                        fs == self.folders@,
                        sel == self.selected_folder_id,
                        n == fs.len(),
                        c == self.columns,
                        c >= 1,
                        t == total_rows(n as int, c as int),
                        first <= r <= end <= t,
                        r < end ==> lo == r * c,
                        out@ == join_lines(
                            seq![header] + Seq::new(
                                (r - first) as nat,
                                |k: int| grid_row(fs, c as int, first + k, sel),
                            ),
                        ),
                    decreases end - r,
                {
                    let ghost before = seq![header] + Seq::new(
                        (r - first) as nat,
                        |k: int| grid_row(fs, c as int, first + k, sel),
                    );
                    proof {
                        lemma_row_start(n as int, c as int, r as int);
                    }
                    out.push('\n');
                    let ghost line_start = out@;
                    let hi = if c <= n - lo {
                        lo + c
                    } else {
                        n
                    };
                    push_grid_row(&mut out, &self.folders, lo, hi, self.selected_folder_id);
                    proof {
                        let x = grid_row(fs, c as int, r as int, sel);
                        assert(x == labels_joined(fs.subrange(lo as int, hi as int), sel));
                        lemma_join_push(before, x);
                        assert(seq![header] + Seq::new(
                            (r + 1 - first) as nat,
                            |k: int| grid_row(fs, c as int, first + k, sel),
                        ) =~= before.push(x));
                    }
                    if r + 1 < end {
                        proof {
                            lemma_row_start(n as int, c as int, r + 1);
                        }
                        lo = lo + c;
                    }
                    r = r + 1;
                }
            },
            FolderLayout::List => {
                let lo = if self.scroll_offset <= n {
                    self.scroll_offset
                } else {
                    n
                };
                let end = if self.viewport_rows <= n - lo {
                    lo + self.viewport_rows
                } else {
                    n
                };
                let mut k = lo;
                proof {
                    assert(seq![header] + Seq::new(0, |j: int| list_row(fs[lo + j], sel)) =~= seq![header]);
                }
                while k < end
                    invariant
                        fs == self.folders@,
                        sel == self.selected_folder_id,
                        lo <= k <= end <= n == fs.len(),
                        out@ == join_lines(
                            seq![header] + Seq::new((k - lo) as nat, |j: int| list_row(fs[lo + j], sel)),
                        ),
                    decreases end - k,
                {
                    let ghost before = seq![header] + Seq::new(
                        (k - lo) as nat,
                        |j: int| list_row(fs[lo + j], sel),
                    );
                    out.push('\n');
                    let f = &self.folders[k];
                    let selected = match self.selected_folder_id {
                        Some(id) => id == f.id,
                        None => false,
                    };
                    let name = marked_chars(f.name.as_str(), selected);
                    push_pad_right(&mut out, &name, 20);
                    out.push(' ');
                    let count = decimal_chars(f.track_count as u64);
                    push_pad_left(&mut out, &count, 3);
                    push_str(&mut out, " tracks");
                    proof {
                        let x = list_row(fs[k as int], sel);
                        lemma_join_push(before, x);
                        assert(seq![header] + Seq::new(
                            (k + 1 - lo) as nat,
                            |j: int| list_row(fs[lo + j], sel),
                        ) =~= before.push(x));
                    }
                    k = k + 1;
                }
            },
        }
        string_from_chars(&out)
    }
}

} // verus!
