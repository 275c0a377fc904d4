//! The tracks of the chosen album.
use vstd::prelude::*;

use crate::text::string_from_chars;
use crate::ui::cells::{
    byte_len, clock, decimal, decimal_chars, join_lines, lemma_join_push, marked, marked_chars, pad_left,
    pad_right, push_chars, push_clock, push_decimal, push_pad_left, push_pad_right, push_str, str_byte_len,
};
use crate::ui::components::artists_panel::window_end;
use crate::ui::message::UiMessage;
use crate::ui::state::Track;

verus! {

/// The track number, or its position in the list when it has none, on two
/// columns.
pub open spec fn song_number(t: Track, pos: nat) -> Seq<char> {
    pad_left(
        decimal(
            match t.track_number {
                Some(n) => n as nat,
                None => pos,
            },
        ),
        2,
    )
}

pub open spec fn song_line(t: Track, pos: nat, sel: Option<usize>, tw: nat, dw: nat) -> Seq<char> {
    song_number(t, pos) + seq!['.', ' '] + pad_right(marked(t.title@, sel == Some(t.id)), tw) + seq![' ']
        + pad_left(clock(t.duration_secs as nat), dw)
}

pub open spec fn song_artist_line(t: Track, sel: Option<usize>) -> Seq<char> {
    seq![' ', ' ', ' ', ' '] + marked(t.artist@, sel == Some(t.id))
}

/// The longest title, in bytes.
pub open spec fn longest_title(ts: Seq<Track>) -> nat
    decreases ts.len(),
{
    if ts.len() == 0 {
        0
    } else {
        let here = byte_len(ts.last().title@) as nat;
        let before = longest_title(ts.drop_last());
        if before >= here {
            before
        } else {
            here
        }
    }
}

/// The widest `m:ss` duration.
pub open spec fn widest_clock(ts: Seq<Track>) -> nat
    decreases ts.len(),
{
    if ts.len() == 0 {
        0
    } else {
        let here = clock(ts.last().duration_secs as nat).len();
        let before = widest_clock(ts.drop_last());
        if before >= here {
            before
        } else {
            here
        }
    }
}

pub open spec fn title_width(ts: Seq<Track>) -> nat {
    (if longest_title(ts) >= 12 {
        longest_title(ts)
    } else {
        12
    }) + 4
}

pub open spec fn duration_width(ts: Seq<Track>) -> nat {
    if widest_clock(ts) >= 4 {
        widest_clock(ts)
    } else {
        4
    }
}

/// The panel as text: a header with the count, album and artist, then two
/// lines per visible track (number, title and duration; then the artist).
pub open spec fn songs_text(
    album: Seq<char>,
    artist: Seq<char>,
    ts: Seq<Track>,
    sel: Option<usize>,
    scroll: int,
    viewport: int,
) -> Seq<char> {
    let end = window_end(ts.len() as int, scroll, viewport);
    let tw = title_width(ts);
    let dw = duration_width(ts);
    join_lines(
        seq![decimal(ts.len()) + " Songs · "@ + album + " — "@ + artist] + Seq::new(
            ((end - scroll) * 2) as nat,
            |k: int|
                if k % 2 == 0 {
                    song_line(ts[scroll + k / 2], (scroll + k / 2 + 1) as nat, sel, tw, dw)
                } else {
                    song_artist_line(ts[scroll + k / 2], sel)
                },
        ),
    )
}

/// The first track with this id, as the message that selects it.
pub open spec fn select_track_message(ts: Seq<Track>, id: usize, r: Option<UiMessage>) -> bool {
    match r {
        Some(m) => exists|k: int|
            0 <= k < ts.len() && (#[trigger] ts[k]).id == id && (forall|j: int|
                0 <= j < k ==> (#[trigger] ts[j]).id != id) && m == UiMessage::SelectTrack(ts[k]),
        None => forall|k: int| 0 <= k < ts.len() ==> (#[trigger] ts[k]).id != id,
    }
}

fn longest_title_of(ts: &Vec<Track>) -> (r: usize)
    ensures
        r == longest_title(ts@),
{
    let mut best: usize = 0;
    let mut k: usize = 0;
    while k < ts.len()
        invariant
            k <= ts.len(),
            best == longest_title(ts@.subrange(0, k as int)),
        decreases ts.len() - k,
    {
        let here = str_byte_len(ts[k].title.as_str());
        proof {
            assert(ts@.subrange(0, k + 1).drop_last() =~= ts@.subrange(0, k as int));
        }
        if here > best {
            best = here;
        }
        k = k + 1;
    }
    assert(ts@.subrange(0, ts.len() as int) =~= ts@);
    best
}

fn widest_clock_of(ts: &Vec<Track>) -> (r: usize)
    ensures
        r == widest_clock(ts@),
{
    let mut best: usize = 0;
    let mut k: usize = 0;
    while k < ts.len()
        invariant
            k <= ts.len(),
            best == widest_clock(ts@.subrange(0, k as int)),
        decreases ts.len() - k,
    {
        let mut v: Vec<char> = Vec::new();
        push_clock(&mut v, ts[k].duration_secs);
        let here = v.len();
        proof {
            assert(v@ =~= clock(ts@[k as int].duration_secs as nat));
            assert(ts@.subrange(0, k + 1).drop_last() =~= ts@.subrange(0, k as int));
        }
        if here > best {
            best = here;
        }
        k = k + 1;
    }
    assert(ts@.subrange(0, ts.len() as int) =~= ts@);
    best
}

fn song_line_chars(t: &Track, pos: usize, selected: bool, tw: usize, dw: usize) -> (v: Vec<char>)
    ensures
        v@ == song_line(*t, pos as nat, if selected {
            Some(t.id)
        } else {
            None
        }, tw as nat, dw as nat),
{
    let mut v: Vec<char> = Vec::new();
    let number = match t.track_number {
        Some(n) => decimal_chars(n as u64),
        None => decimal_chars(pos as u64),
    };
    push_pad_left(&mut v, &number, 2);
    v.push('.');
    v.push(' ');
    let title = marked_chars(t.title.as_str(), selected);
    push_pad_right(&mut v, &title, tw);
    v.push(' ');
    let mut d: Vec<char> = Vec::new();
    push_clock(&mut d, t.duration_secs);
    push_pad_left(&mut v, &d, dw);
    assert(v@ =~= song_line(*t, pos as nat, if selected {
        Some(t.id)
    } else {
        None
    }, tw as nat, dw as nat));
    v
}

#[derive(Debug, Clone)]
pub struct SongsPanel {
    album: String,
    artist: String,
    tracks: Vec<Track>,
    selected_track_id: Option<usize>,
    scroll_offset: usize,
    viewport_size: usize,
}

impl SongsPanel {
    /// The scroll offset stays within the list and at least one row shows.
    pub closed spec fn wf(self) -> bool {
        &&& self.scroll_offset <= self.tracks.len()
        &&& self.viewport_size >= 1
    }

    pub closed spec fn album(self) -> Seq<char> {
        self.album@
    }

    pub closed spec fn artist(self) -> Seq<char> {
        self.artist@
    }

    pub closed spec fn tracks(self) -> Seq<Track> {
        self.tracks@
    }

    pub closed spec fn selected(self) -> Option<usize> {
        self.selected_track_id
    }

    pub closed spec fn scroll(self) -> int {
        self.scroll_offset as int
    }

    pub closed spec fn viewport(self) -> int {
        self.viewport_size as int
    }

    /// The tracks of an album, none selected, eight shown from the top.
    pub fn new(album: &str, artist: &str, tracks: Vec<Track>) -> (r: Self)
        ensures
            r.wf(),
            r.album() == album@,
            r.artist() == artist@,
            r.tracks() == tracks@,
            r.selected() is None,
            r.scroll() == 0,
            r.viewport() == 8,
    {
        SongsPanel {
            album: album.to_owned(),
            artist: artist.to_owned(),
            tracks,
            selected_track_id: None,
            scroll_offset: 0,
            viewport_size: 8,
        }
    }

    pub fn with_selection(self, selected_track_id: Option<usize>) -> (r: Self)
        ensures
            self.wf() ==> r.wf(),
            r.album() == self.album(),
            r.artist() == self.artist(),
            r.tracks() == self.tracks(),
            r.selected() == selected_track_id,
            r.scroll() == self.scroll(),
            r.viewport() == self.viewport(),
    {
        let mut s = self;
        s.selected_track_id = selected_track_id;
        s
    }

    /// Scrolls to `scroll_offset` (at most the number of tracks) with
    /// `viewport_size` rows (at least one).
    pub fn with_scroll(self, scroll_offset: usize, viewport_size: usize) -> (r: Self)
        ensures
            r.wf(),
            r.album() == self.album(),
            r.artist() == self.artist(),
            r.tracks() == self.tracks(),
            r.selected() == self.selected(),
            r.scroll() == (if scroll_offset <= self.tracks().len() {
                scroll_offset as int
            } else {
                self.tracks().len() as int
            }),
            r.viewport() == (if viewport_size >= 1 {
                viewport_size as int
            } else {
                1
            }),
    {
        let mut s = self;
        let len = s.tracks.len();
        s.scroll_offset = if scroll_offset <= len {
            scroll_offset
        } else {
            len
        };
        s.viewport_size = if viewport_size >= 1 {
            viewport_size
        } else {
            1
        };
        s
    }

    /// The message that selects the track with this id, if listed.
    pub fn message_for_track(&self, track_id: usize) -> (r: Option<UiMessage>)
        ensures
            select_track_message(self.tracks(), track_id, r),
    {
        let mut k: usize = 0;
        while k < self.tracks.len()
            invariant
                k <= self.tracks.len(),
                forall|j: int| 0 <= j < k ==> (#[trigger] self.tracks@[j]).id != track_id,
            decreases self.tracks.len() - k,
        {
            if self.tracks[k].id == track_id {
                let t = self.tracks[k].duplicate();
                return Some(UiMessage::SelectTrack(t));
            }
            k = k + 1;
        }
        None
    }

    /// The panel as text. No title can be longer than `isize::MAX` bytes.
    pub fn render(&self) -> (r: String)
        requires
            self.wf(),
            longest_title(self.tracks()) <= isize::MAX,
        ensures
            r@ == songs_text(
                self.album(),
                self.artist(),
                self.tracks(),
                self.selected(),
                self.scroll(),
                self.viewport(),
            ),
    {
        let ghost ts = self.tracks@;
        let ghost sel = self.selected_track_id;
        let ghost header = decimal(ts.len()) + " Songs · "@ + self.album@ + " — "@ + self.artist@;
        let longest = longest_title_of(&self.tracks);
        let tw: usize = (if longest >= 12 {
            longest
        } else {
            12
        }) + 4;
        let widest = widest_clock_of(&self.tracks);
        let dw: usize = if widest >= 4 {
            widest
        } else {
            4
        };
        let mut out: Vec<char> = Vec::new();
        push_decimal(&mut out, self.tracks.len() as u64);
        push_str(&mut out, " Songs · ");
        push_str(&mut out, self.album.as_str());
        push_str(&mut out, " — ");
        push_str(&mut out, self.artist.as_str());
        let start = self.scroll_offset;
        let len = self.tracks.len();
        let end = if self.viewport_size <= len - start {
            start + self.viewport_size
        } else {
            len
        };
        let ghost f = |k: int|
            if k % 2 == 0 {
                song_line(ts[start + k / 2], (start + k / 2 + 1) as nat, sel, tw as nat, dw as nat)
            } else {
                song_artist_line(ts[start + k / 2], sel)
            };
        let mut k = start;
        proof {
            assert(seq![header] + Seq::new(0, f) =~= seq![header]);
        }
        while k < end
            invariant
                start <= k <= end <= len == ts.len(),
                ts == self.tracks@,
                sel == self.selected_track_id,
                tw == title_width(ts),
                dw == duration_width(ts),
                f == (|k: int|
                    if k % 2 == 0 {
                        song_line(ts[start + k / 2], (start + k / 2 + 1) as nat, sel, tw as nat, dw as nat)
                    } else {
                        song_artist_line(ts[start + k / 2], sel)
                    }),
                out@ == join_lines(seq![header] + Seq::new(((k - start) * 2) as nat, f)),
            decreases end - k,
        {
            let ghost before = seq![header] + Seq::new(((k - start) * 2) as nat, f);
            let t = &self.tracks[k];
            let selected = match self.selected_track_id {
                Some(id) => id == t.id,
                None => false,
            };
            let line = song_line_chars(t, k + 1, selected, tw, dw);
            out.push('\n');
            push_chars(&mut out, &line);
            let mut second: Vec<char> = Vec::new();
            second.push(' ');
            second.push(' ');
            second.push(' ');
            second.push(' ');
            let name = marked_chars(t.artist.as_str(), selected);
            push_chars(&mut second, &name);
            out.push('\n');
            push_chars(&mut out, &second);
            proof {
                let i = (k - start) * 2;
                assert(i / 2 == k - start && i % 2 == 0);
                assert((i + 1) / 2 == k - start && (i + 1) % 2 == 1);
                assert(line@ == f(i));
                assert(second@ =~= f(i + 1));
                lemma_join_push(before, line@);
                lemma_join_push(before.push(line@), second@);
                assert(seq![header] + Seq::new(((k + 1 - start) * 2) as nat, f) =~= before.push(line@).push(
                    second@,
                ));
            }
            k = k + 1;
        }
        string_from_chars(&out)
    }
}

} // verus!
