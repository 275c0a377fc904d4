//! The list of artists with its A–Z index.
use vstd::prelude::*;

use crate::text::string_from_chars;
use crate::ui::cells::{
    decimal, join_lines, lemma_join_push, marked, marked_chars, pad_right, push_decimal, push_pad_right,
    push_str,
};
use crate::ui::message::UiMessage;
use crate::ui::state::Artist;

verus! {

/// End of a window of `take` items from `start` in a list of `len` items.
pub open spec fn window_end(len: int, start: int, take: int) -> int {
    if take <= len - start {
        start + take
    } else {
        len
    }
}

/// The letter of the A–Z index beside row `row` (a space past `Z`).
pub open spec fn index_letter(row: int) -> Seq<char> {
    if 0 <= row < 26 {
        seq![((65 + row) as u32) as char]
    } else {
        seq![' ']
    }
}

pub open spec fn artist_row(a: Artist, row: int, selected: Option<usize>) -> Seq<char> {
    pad_right(marked(a.name@, selected == Some(a.id)), 24) + seq![' '] + index_letter(row)
}

/// The panel as text: a count header, then one row per visible artist.
pub open spec fn artists_text(
    total: nat,
    artists: Seq<Artist>,
    selected: Option<usize>,
    scroll: int,
    viewport: int,
) -> Seq<char> {
    let end = window_end(artists.len() as int, scroll, viewport);
    join_lines(
        seq![decimal(total) + " Song artists"@] + Seq::new(
            (end - scroll) as nat,
            |k: int| artist_row(artists[scroll + k], k, selected),
        ),
    )
}

/// The first artist with this id, as the message that selects it.
pub open spec fn select_artist_message(artists: Seq<Artist>, id: usize, r: Option<UiMessage>) -> bool {
    match r {
        Some(m) => exists|k: int|
            0 <= k < artists.len() && (#[trigger] artists[k]).id == id && (forall|j: int|
                0 <= j < k ==> (#[trigger] artists[j]).id != id) && m == UiMessage::SelectArtist(
                artists[k],
            ),
        None => forall|k: int| 0 <= k < artists.len() ==> (#[trigger] artists[k]).id != id,
    }
}

#[derive(Debug, Clone)]
pub struct ArtistsPanel {
    total_count: usize,
    artists: Vec<Artist>,
    selected_artist_id: Option<usize>,
    scroll_offset: usize,
    viewport_size: usize,
}

impl ArtistsPanel {
    /// The scroll offset stays within the list and at least one row shows.
    pub closed spec fn wf(self) -> bool {
        &&& self.scroll_offset <= self.artists.len()
        &&& self.viewport_size >= 1
    }

    pub closed spec fn total(self) -> nat {
        self.total_count as nat
    }

    pub closed spec fn artists(self) -> Seq<Artist> {
        self.artists@
    }

    pub closed spec fn selected(self) -> Option<usize> {
        self.selected_artist_id
    }

    pub closed spec fn scroll(self) -> int {
        self.scroll_offset as int
    }

    pub closed spec fn viewport(self) -> int {
        self.viewport_size as int
    }

    /// A panel over all these artists, none selected, eight rows shown from
    /// the top.
    pub fn new(artists: Vec<Artist>) -> (r: Self)
        ensures
            r.wf(),
            r.total() == artists.len(),
            r.artists() == artists@,
            r.selected() is None,
            r.scroll() == 0,
            r.viewport() == 8,
    {
        let total_count = artists.len();
        ArtistsPanel { total_count, artists, selected_artist_id: None, scroll_offset: 0, viewport_size: 8 }
    }

    pub fn with_selection(self, selected_artist_id: Option<usize>) -> (r: Self)
        ensures
            self.wf() ==> r.wf(),
            r.selected() == selected_artist_id,
            r.total() == self.total(),
            r.artists() == self.artists(),
            r.scroll() == self.scroll(),
            r.viewport() == self.viewport(),
    {
        let mut s = self;
        s.selected_artist_id = selected_artist_id;
        s
    }

    /// Scrolls to `scroll_offset` (at most the number of artists) with
    /// `viewport_size` rows (at least one).
    pub fn with_scroll(self, scroll_offset: usize, viewport_size: usize) -> (r: Self)
        ensures
            r.wf(),
            r.scroll() == (if scroll_offset <= self.artists().len() {
                scroll_offset as int
            } else {
                self.artists().len() as int
            }),
            r.viewport() == (if viewport_size >= 1 {
                viewport_size as int
            } else {
                1
            }),
            r.selected() == self.selected(),
            r.total() == self.total(),
            r.artists() == self.artists(),
    {
        let mut s = self;
        let len = s.artists.len();
        s.scroll_offset = if scroll_offset <= len {
            scroll_offset
        } else {
            len
        };
        s.viewport_size = if viewport_size >= 1 {
            viewport_size
        } else {
            1
        };
        s
    }

    /// The message that selects the artist with this id, if listed.
    pub fn message_for_artist(&self, artist_id: usize) -> (r: Option<UiMessage>)
        ensures
            select_artist_message(self.artists(), artist_id, r),
    {
        let mut k: usize = 0;
        while k < self.artists.len()
            invariant
                k <= self.artists.len(),
                forall|j: int| 0 <= j < k ==> (#[trigger] self.artists@[j]).id != artist_id,
            decreases self.artists.len() - k,
        {
            if self.artists[k].id == artist_id {
                let a = self.artists[k].duplicate();
                return Some(UiMessage::SelectArtist(a));
            }
            k = k + 1;
        }
        None
    }

    /// The panel as text.
    pub fn render(&self) -> (r: String)
        requires
            self.wf(),
        ensures
            r@ == artists_text(self.total(), self.artists(), self.selected(), self.scroll(), self.viewport()),
    {
        let ghost header = decimal(self.total_count as nat) + " Song artists"@;
        let ghost sel = self.selected_artist_id;
        let ghost arts = self.artists@;
        let mut out: Vec<char> = Vec::new();
        push_decimal(&mut out, self.total_count as u64);
        push_str(&mut out, " Song artists");
        let start = self.scroll_offset;
        let len = self.artists.len();
        let end = if self.viewport_size <= len - start {
            start + self.viewport_size
        } else {
            len
        };
        let mut k = start;
        proof {
            assert(seq![header] + Seq::new(0, |j: int| artist_row(arts[start + j], j, sel)) =~= seq![header]);
        }
        while k < end
            invariant
                start <= k <= end <= len == arts.len(),
                arts == self.artists@,
                sel == self.selected_artist_id,
                out@ == join_lines(
                    seq![header] + Seq::new((k - start) as nat, |j: int| artist_row(arts[start + j], j, sel)),
                ),
            decreases end - k,
        {
            let ghost before = seq![header] + Seq::new(
                (k - start) as nat,
                |j: int| artist_row(arts[start + j], j, sel),
            );
            out.push('\n');
            let a = &self.artists[k];
            let selected = match self.selected_artist_id {
                Some(id) => id == a.id,
                None => false,
            };
            let name = marked_chars(a.name.as_str(), selected);
            push_pad_right(&mut out, &name, 24);
            out.push(' ');
            let row = k - start;
            if row < 26 {
                let b: u8 = (row as u8) + 65;
                out.push(b as char);
            } else {
                out.push(' ');
            }
            proof {
                let x = artist_row(arts[k as int], row as int, sel);
                lemma_join_push(before, x);
                assert(seq![header] + Seq::new(
                    (k + 1 - start) as nat,
                    |j: int| artist_row(arts[start + j], j, sel),
                ) =~= before.push(x));
            }
            k = k + 1;
        }
        string_from_chars(&out)
    }
}

} // verus!
