//! The list of genres with their track counts.
use vstd::prelude::*;

use crate::text::string_from_chars;
use crate::ui::cells::{
    decimal, decimal_chars, join_lines, lemma_join_push, marked, marked_chars, pad_left, pad_right,
    push_decimal, push_pad_left, push_pad_right, push_str,
};
use crate::ui::message::UiMessage;
use crate::ui::state::Genre;
use crate::ui::components::artists_panel::window_end;

verus! {

pub open spec fn genre_row(g: Genre, selected: Option<usize>) -> Seq<char> {
    pad_right(marked(g.name@, selected == Some(g.id)), 18) + seq![' '] + pad_left(decimal(g.track_count as nat), 3)
        + " tracks"@
}

/// The panel as text: a count header, then one row per visible genre.
pub open spec fn genres_text(
    total: nat,
    genres: Seq<Genre>,
    selected: Option<usize>,
    scroll: int,
    viewport: int,
) -> Seq<char> {
    let end = window_end(genres.len() as int, scroll, viewport);
    join_lines(
        seq![decimal(total) + " Genres"@] + Seq::new(
            (end - scroll) as nat,
            |k: int| genre_row(genres[scroll + k], selected),
        ),
    )
}

#[derive(Debug, Clone)]
pub struct GenresPanel {
    total_count: usize,
    genres: Vec<Genre>,
    selected_genre_id: Option<usize>,
    scroll_offset: usize,
    viewport_size: usize,
}

impl GenresPanel {
    /// The scroll offset stays within the list and at least one row shows.
    pub closed spec fn wf(self) -> bool {
        &&& self.scroll_offset <= self.genres.len()
        &&& self.viewport_size >= 1
    }

    pub closed spec fn total(self) -> nat {
        self.total_count as nat
    }

    pub closed spec fn genres(self) -> Seq<Genre> {
        self.genres@
    }

    pub closed spec fn selected(self) -> Option<usize> {
        self.selected_genre_id
    }

    pub closed spec fn scroll(self) -> int {
        self.scroll_offset as int
    }

    pub closed spec fn viewport(self) -> int {
        self.viewport_size as int
    }

    /// A panel over all these genres, none selected, eight rows shown from
    /// the top.
    pub fn new(genres: Vec<Genre>) -> (r: Self)
        ensures
            r.wf(),
            r.total() == genres.len(),
            r.genres() == genres@,
            r.selected() is None,
            r.scroll() == 0,
            r.viewport() == 8,
    {
        let total_count = genres.len();
        GenresPanel { total_count, genres, selected_genre_id: None, scroll_offset: 0, viewport_size: 8 }
    }

    pub fn with_selection(self, selected_genre_id: Option<usize>) -> (r: Self)
        ensures
            self.wf() ==> r.wf(),
            r.selected() == selected_genre_id,
            r.total() == self.total(),
            r.genres() == self.genres(),
            r.scroll() == self.scroll(),
            r.viewport() == self.viewport(),
    {
        let mut s = self;
        s.selected_genre_id = selected_genre_id;
        s
    }

    /// Scrolls to `scroll_offset` (at most the number of genres) with
    /// `viewport_size` rows (at least one).
    pub fn with_scroll(self, scroll_offset: usize, viewport_size: usize) -> (r: Self)
        ensures
            r.wf(),
            r.scroll() == (if scroll_offset <= self.genres().len() {
                scroll_offset as int
            } else {
                self.genres().len() as int
            }),
            r.viewport() == (if viewport_size >= 1 {
                viewport_size as int
            } else {
                1
            }),
            r.selected() == self.selected(),
            r.total() == self.total(),
            r.genres() == self.genres(),
    {
        let mut s = self;
        let len = s.genres.len();
        s.scroll_offset = if scroll_offset <= len {
            scroll_offset
        } else {
            len
        };
        s.viewport_size = if viewport_size >= 1 {
            viewport_size
        } else {
            1
        };
        s
    }

    /// The panel as text.
    pub fn render(&self) -> (r: String)
        requires
            self.wf(),
        ensures
            r@ == genres_text(self.total(), self.genres(), self.selected(), self.scroll(), self.viewport()),
    {
        let ghost header = decimal(self.total_count as nat) + " Genres"@;
        let ghost sel = self.selected_genre_id;
        let ghost gens = self.genres@;
        let mut out: Vec<char> = Vec::new();
        push_decimal(&mut out, self.total_count as u64);
        push_str(&mut out, " Genres");
        let start = self.scroll_offset;
        let len = self.genres.len();
        let end = if self.viewport_size <= len - start {
            start + self.viewport_size
        } else {
            len
        };
        let mut k = start;
        proof {
            assert(seq![header] + Seq::new(0, |j: int| genre_row(gens[start + j], sel)) =~= seq![header]);
        }
        while k < end
            invariant
                start <= k <= end <= len == gens.len(),
                gens == self.genres@,
                sel == self.selected_genre_id,
                out@ == join_lines(
                    seq![header] + Seq::new((k - start) as nat, |j: int| genre_row(gens[start + j], sel)),
                ),
            decreases end - k,
        {
            let ghost before = seq![header] + Seq::new(
                (k - start) as nat,
                |j: int| genre_row(gens[start + j], sel),
            );
            out.push('\n');
            let g = &self.genres[k];
            let selected = match self.selected_genre_id {
                Some(id) => id == g.id,
                None => false,
            };
            let name = marked_chars(g.name.as_str(), selected);
            push_pad_right(&mut out, &name, 18);
            out.push(' ');
            let count = decimal_chars(g.track_count as u64);
            push_pad_left(&mut out, &count, 3);
            push_str(&mut out, " tracks");
            proof {
                let x = genre_row(gens[k as int], sel);
                lemma_join_push(before, x);
                assert(seq![header] + Seq::new(
                    (k + 1 - start) as nat,
                    |j: int| genre_row(gens[start + j], sel),
                ) =~= before.push(x));
            }
            k = k + 1;
        }
        string_from_chars(&out)
    }
}

} // verus!
