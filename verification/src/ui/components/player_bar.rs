//! The player bar: the track being played, transport controls, progress,
//! volume and queue.
use vstd::prelude::*;

use crate::text::string_from_chars;
use crate::ui::cells::{clock, join_lines, push_clock, push_repeat, push_str, repeat_char};
use crate::ui::message::{PlaybackMessage, UiMessage};
use crate::ui::state::{span_nanos, PlaybackState, RepeatMode, TimeSpan};

verus! {

pub open spec fn shuffle_icon(active: bool) -> Seq<char> {
    if active {
        "\u{f049d}"@
    } else {
        "\u{f049e}"@
    }
}

pub open spec fn play_pause_icon(is_playing: bool) -> Seq<char> {
    if is_playing {
        "\u{f03e4}"@
    } else {
        "\u{f040a}"@
    }
}

pub open spec fn repeat_icon(mode: RepeatMode) -> Seq<char> {
    match mode {
        RepeatMode::Off => "\u{f0457}"@,
        RepeatMode::One => "\u{f0458}"@,
        RepeatMode::All => "\u{f0456}"@,
    }
}

/// Muted, low, medium or high, by thirds of the volume.
pub open spec fn volume_icon(volume: u8) -> Seq<char> {
    if volume == 0 {
        "\u{f0581}"@
    } else if volume <= 33 {
        "\u{f057f}"@
    } else if volume <= 66 {
        "\u{f0580}"@
    } else {
        "\u{f057e}"@
    }
}

pub open spec fn queue_icon(active: bool) -> Seq<char> {
    if active {
        "\u{f0cb8}"@
    } else {
        "\u{f0cb9}"@
    }
}

/// Cells of the progress bar that are filled: the elapsed share of `width`,
/// rounded to the nearest cell (halves up); none for an unknown duration.
pub open spec fn progress_filled(position: nat, duration: nat, width: nat) -> nat {
    if duration == 0 {
        0
    } else {
        let p = if position <= duration {
            position
        } else {
            duration
        };
        (2 * width * p + duration) / (2 * duration)
    }
}

pub open spec fn progress_bar(position: nat, duration: nat, width: nat) -> Seq<char> {
    let filled = progress_filled(position, duration, width);
    repeat_char('━', filled) + repeat_char('─', (width - filled) as nat)
}

/// The bar as three lines: cover, title and artist; the controls; elapsed
/// time, progress, duration, volume and queue.
pub open spec fn player_text(
    has_cover: bool,
    title: Seq<char>,
    artist: Seq<char>,
    p: PlaybackState,
    volume: u8,
    queue_active: bool,
) -> Seq<char> {
    let left = "["@ + (if has_cover {
        "🖼"@
    } else {
        "♪"@
    }) + "] "@ + title + " — "@ + artist;
    let controls = shuffle_icon(p.shuffle) + " ⏮ "@ + play_pause_icon(p.is_playing) + " ⏭ "@ + repeat_icon(
        p.repeat,
    );
    let progress = clock(p.position.secs as nat) + " "@ + progress_bar(
        span_nanos(p.position),
        span_nanos(p.duration),
        24,
    ) + " "@ + clock(p.duration.secs as nat) + "   "@ + volume_icon(volume) + " "@ + queue_icon(
        queue_active,
    );
    join_lines(seq![left, controls, progress])
}

fn push_shuffle_icon(out: &mut Vec<char>, active: bool)
    ensures
        final(out)@ == old(out)@ + shuffle_icon(active),
{
    if active {
        push_str(out, "\u{f049d}");
    } else {
        push_str(out, "\u{f049e}");
    }
}

fn push_play_pause_icon(out: &mut Vec<char>, is_playing: bool)
    ensures
        final(out)@ == old(out)@ + play_pause_icon(is_playing),
{
    if is_playing {
        push_str(out, "\u{f03e4}");
    } else {
        push_str(out, "\u{f040a}");
    }
}

fn push_repeat_icon(out: &mut Vec<char>, mode: RepeatMode)
    ensures
        final(out)@ == old(out)@ + repeat_icon(mode),
{
    match mode {
        RepeatMode::Off => push_str(out, "\u{f0457}"),
        RepeatMode::One => push_str(out, "\u{f0458}"),
        RepeatMode::All => push_str(out, "\u{f0456}"),
    }
}

fn push_volume_icon(out: &mut Vec<char>, volume: u8)
    ensures
        final(out)@ == old(out)@ + volume_icon(volume),
{
    if volume == 0 {
        push_str(out, "\u{f0581}");
    } else if volume <= 33 {
        push_str(out, "\u{f057f}");
    } else if volume <= 66 {
        push_str(out, "\u{f0580}");
    } else {
        push_str(out, "\u{f057e}");
    }
}

fn push_queue_icon(out: &mut Vec<char>, active: bool)
    ensures
        final(out)@ == old(out)@ + queue_icon(active),
{
    if active {
        push_str(out, "\u{f0cb8}");
    } else {
        push_str(out, "\u{f0cb9}");
    }
}

/// The length of a span in nanoseconds.
fn nanos_of(t: TimeSpan) -> (r: u128)
    ensures
        r == span_nanos(t),
        r < 0x1_0000_0000_0000_0000_0000_0000u128,
{
    assert((t.secs as u128) * 1_000_000_000 <= 0xffff_ffff_ffff_ffffu128 * 1_000_000_000) by (nonlinear_arith)
        requires
            t.secs <= 0xffff_ffff_ffff_ffffu64,
    ;
    (t.secs as u128) * 1_000_000_000 + (t.subsec_nanos as u128)
}

/// Appends the progress bar of `width` cells.
fn push_progress_bar(out: &mut Vec<char>, position: u128, duration: u128, width: usize)
    requires
        width <= 1_000_000,
        position < 0x1_0000_0000_0000_0000_0000_0000u128,
        duration < 0x1_0000_0000_0000_0000_0000_0000u128,
    ensures
        final(out)@ == old(out)@ + progress_bar(position as nat, duration as nat, width as nat),
{
    let filled: usize = if duration == 0 {
        0
    } else {
        let p: u128 = if position <= duration {
            position
        } else {
            duration
        };
        let w2: u128 = 2 * (width as u128);
        proof {
            assert(w2 * p <= 2_000_000 * 0x1_0000_0000_0000_0000_0000_0000u128) by (nonlinear_arith)
                requires
                    w2 <= 2_000_000,
                    p < 0x1_0000_0000_0000_0000_0000_0000u128,
            ;
        }
        let prod: u128 = w2 * p;
        let num: u128 = prod + duration;
        let den: u128 = 2 * duration;
        proof {
            assert(2 * (width as int) * (p as int) + duration < (2 * (width as int) + 2) * (duration as int))
                by (nonlinear_arith)
                requires
                    p <= duration,
                    duration >= 1,
            ;
            assert(num / den <= width as int) by (nonlinear_arith)
                requires
                    num < (2 * (width as int) + 2) * (duration as int),
                    den == 2 * (duration as int),
                    duration >= 1,
            ;
        }
        (num / den) as usize
    };
    push_repeat(out, '━', filled);
    push_repeat(out, '─', width - filled);
}

#[derive(Debug, Clone)]
pub struct PlayerBar {
    cover_path: Option<String>,
    title: String,
    artist: String,
    playback: PlaybackState,
    volume: u8,
    queue_active: bool,
    queue_message: Option<UiMessage>,
    inline_volume_bar_open: bool,
    inline_volume_toggle_message: Option<UiMessage>,
}

impl PlayerBar {
    pub closed spec fn cover(self) -> Option<String> {
        self.cover_path
    }

    pub closed spec fn title(self) -> Seq<char> {
        self.title@
    }

    pub closed spec fn artist(self) -> Seq<char> {
        self.artist@
    }

    pub closed spec fn playback(self) -> PlaybackState {
        self.playback
    }

    pub closed spec fn volume(self) -> u8 {
        self.volume
    }

    pub closed spec fn queue_active(self) -> bool {
        self.queue_active
    }

    pub closed spec fn queue_message(self) -> Option<UiMessage> {
        self.queue_message
    }

    pub closed spec fn inline_volume_bar_open(self) -> bool {
        self.inline_volume_bar_open
    }

    pub closed spec fn inline_volume_toggle_message(self) -> Option<UiMessage> {
        self.inline_volume_toggle_message
    }

    /// A bar for this title and artist: no cover, stopped at 0:00, volume
    /// 70, queue and volume bar closed.
    pub fn new(title: &str, artist: &str) -> (r: Self)
        ensures
            r.cover() is None,
            r.title() == title@,
            r.artist() == artist@,
            r.playback() == (PlaybackState {
                position: TimeSpan { secs: 0, subsec_nanos: 0 },
                duration: TimeSpan { secs: 0, subsec_nanos: 0 },
                is_playing: false,
                shuffle: false,
                repeat: RepeatMode::Off,
            }),
            r.volume() == 70,
            !r.queue_active(),
            r.queue_message() is None,
            !r.inline_volume_bar_open(),
            r.inline_volume_toggle_message() is None,
    {
        PlayerBar {
            cover_path: None,
            title: title.to_owned(),
            artist: artist.to_owned(),
            playback: PlaybackState::default(),
            volume: 70,
            queue_active: false,
            queue_message: None,
            inline_volume_bar_open: false,
            inline_volume_toggle_message: None,
        }
    }

    pub fn with_cover(self, cover_path: Option<String>) -> (r: Self)
        ensures
            r.cover() == cover_path,
            r.title() == self.title(),
            r.artist() == self.artist(),
            r.playback() == self.playback(),
            r.volume() == self.volume(),
            r.queue_active() == self.queue_active(),
            r.queue_message() == self.queue_message(),
            r.inline_volume_bar_open() == self.inline_volume_bar_open(),
            r.inline_volume_toggle_message() == self.inline_volume_toggle_message(),
    {
        let mut s = self;
        s.cover_path = cover_path;
        s
    }

    pub fn with_playback(self, playback: PlaybackState) -> (r: Self)
        ensures
            r.cover() == self.cover(),
            r.title() == self.title(),
            r.artist() == self.artist(),
            r.playback() == playback,
            r.volume() == self.volume(),
            r.queue_active() == self.queue_active(),
            r.queue_message() == self.queue_message(),
            r.inline_volume_bar_open() == self.inline_volume_bar_open(),
            r.inline_volume_toggle_message() == self.inline_volume_toggle_message(),
    {
        let mut s = self;
        s.playback = playback;
        s
    }

    /// The volume, at most 100.
    pub fn with_volume(self, volume: u8) -> (r: Self)
ensures
            r.cover() == self.cover(),
            r.title() == self.title(),
            r.artist() == self.artist(),
            r.playback() == self.playback(),
            r.volume() == (if volume <= 100 {
                volume
            } else {
                100
            }),
            r.queue_active() == self.queue_active(),
            r.queue_message() == self.queue_message(),
            r.inline_volume_bar_open() == self.inline_volume_bar_open(),
            r.inline_volume_toggle_message() == self.inline_volume_toggle_message(),
    {
        let mut s = self;
        s.volume = if volume <= 100 {
            volume
        } else {
            100
        };
        s
    }

    pub fn with_queue(self, queue_active: bool) -> (r: Self)
        ensures
            r.cover() == self.cover(),
            r.title() == self.title(),
            r.artist() == self.artist(),
            r.playback() == self.playback(),
            r.volume() == self.volume(),
            r.queue_active() == queue_active,
            r.queue_message() == self.queue_message(),
            r.inline_volume_bar_open() == self.inline_volume_bar_open(),
            r.inline_volume_toggle_message() == self.inline_volume_toggle_message(),
    {
        let mut s = self;
        s.queue_active = queue_active;
        s
    }

    pub fn with_queue_action(self, message: Option<UiMessage>) -> (r: Self)
        ensures
            r.cover() == self.cover(),
            r.title() == self.title(),
            r.artist() == self.artist(),
            r.playback() == self.playback(),
            r.volume() == self.volume(),
            r.queue_active() == self.queue_active(),
            r.queue_message() == message,
            r.inline_volume_bar_open() == self.inline_volume_bar_open(),
            r.inline_volume_toggle_message() == self.inline_volume_toggle_message(),
    {
        let mut s = self;
        s.queue_message = message;
        s
    }

    pub fn with_inline_volume_bar(self, inline_volume_bar_open: bool) -> (r: Self)
        ensures
            r.cover() == self.cover(),
            r.title() == self.title(),
            r.artist() == self.artist(),
            r.playback() == self.playback(),
            r.volume() == self.volume(),
            r.queue_active() == self.queue_active(),
            r.queue_message() == self.queue_message(),
            r.inline_volume_bar_open() == inline_volume_bar_open,
            r.inline_volume_toggle_message() == self.inline_volume_toggle_message(),
    {
        let mut s = self;
        s.inline_volume_bar_open = inline_volume_bar_open;
        s
    }

    pub fn with_inline_volume_toggle(self, message: Option<UiMessage>) -> (r: Self)
        ensures
            r.cover() == self.cover(),
            r.title() == self.title(),
            r.artist() == self.artist(),
            r.playback() == self.playback(),
            r.volume() == self.volume(),
            r.queue_active() == self.queue_active(),
            r.queue_message() == self.queue_message(),
            r.inline_volume_bar_open() == self.inline_volume_bar_open(),
            r.inline_volume_toggle_message() == message,
    {
        let mut s = self;
        s.inline_volume_toggle_message = message;
        s
    }

    pub fn toggle_play_pause_message(&self) -> (r: UiMessage)
        ensures
            r == UiMessage::Playback(PlaybackMessage::TogglePlayPause),
    {
        UiMessage::Playback(PlaybackMessage::TogglePlayPause)
    }

    pub fn next_track_message(&self) -> (r: UiMessage)
        ensures
            r == UiMessage::Playback(PlaybackMessage::NextTrack),
    {
        UiMessage::Playback(PlaybackMessage::NextTrack)
    }

    pub fn previous_track_message(&self) -> (r: UiMessage)
        ensures
            r == UiMessage::Playback(PlaybackMessage::PreviousTrack),
    {
        UiMessage::Playback(PlaybackMessage::PreviousTrack)
    }

    pub fn toggle_shuffle_message(&self) -> (r: UiMessage)
        ensures
            r == UiMessage::Playback(PlaybackMessage::ToggleShuffle),
    {
        UiMessage::Playback(PlaybackMessage::ToggleShuffle)
    }

    pub fn cycle_repeat_message(&self) -> (r: UiMessage)
        ensures
            r == UiMessage::Playback(PlaybackMessage::CycleRepeat),
    {
        UiMessage::Playback(PlaybackMessage::CycleRepeat)
    }

    /// The bar as text.
    pub fn render(&self) -> (r: String)
        ensures
            r@ == player_text(
                self.cover() is Some,
                self.title(),
                self.artist(),
                self.playback(),
                self.volume(),
                self.queue_active(),
            ),
    {
        let mut left: Vec<char> = Vec::new();
        push_str(&mut left, "[");
        if self.cover_path.is_some() {
            push_str(&mut left, "🖼");
        } else {
            push_str(&mut left, "♪");
        }
        push_str(&mut left, "] ");
        push_str(&mut left, self.title.as_str());
        push_str(&mut left, " — ");
        push_str(&mut left, self.artist.as_str());
        let mut controls: Vec<char> = Vec::new();
        push_shuffle_icon(&mut controls, self.playback.shuffle);
        push_str(&mut controls, " ⏮ ");
        push_play_pause_icon(&mut controls, self.playback.is_playing);
        push_str(&mut controls, " ⏭ ");
        push_repeat_icon(&mut controls, self.playback.repeat);
        let mut progress: Vec<char> = Vec::new();
        push_clock(&mut progress, self.playback.position.secs);
        push_str(&mut progress, " ");
        let position = nanos_of(self.playback.position);
        let duration = nanos_of(self.playback.duration);
        push_progress_bar(&mut progress, position, duration, 24);
        push_str(&mut progress, " ");
        push_clock(&mut progress, self.playback.duration.secs);
        push_str(&mut progress, "   ");
        push_volume_icon(&mut progress, self.volume);
        push_str(&mut progress, " ");
        push_queue_icon(&mut progress, self.queue_active);
        let mut out: Vec<char> = Vec::new();
        crate::ui::cells::push_chars(&mut out, &left);
        out.push('\n');
        crate::ui::cells::push_chars(&mut out, &controls);
        out.push('\n');
        crate::ui::cells::push_chars(&mut out, &progress);
        proof {
            let lines = seq![left@, controls@, progress@];
            assert(lines.drop_last().drop_last() =~= seq![left@]);
            assert(lines.drop_last() =~= seq![left@, controls@]);
            assert(join_lines(seq![left@]) == left@);
            assert(join_lines(seq![left@, controls@]) =~= left@ + seq!['\n'] + controls@);
            assert(out@ =~= join_lines(lines));
        }
        string_from_chars(&out)
    }
}

/// The progress bar always has `width` cells, and is full at the end of the
/// track.
pub proof fn lemma_progress_bar_width(position: nat, duration: nat, width: nat)
    ensures
        progress_filled(position, duration, width) <= width,
        progress_bar(position, duration, width).len() == width,
        duration > 0 && position >= duration ==> progress_filled(position, duration, width) == width,
{
    if duration > 0 {
        let p = if position <= duration {
            position
        } else {
            duration
        };
        assert((2 * width * p + duration) / (2 * duration) <= width) by (nonlinear_arith)
            requires
                p <= duration,
                duration > 0,
        ;
        if position >= duration {
            assert((2 * width * duration + duration) / (2 * duration) == width) by (nonlinear_arith)
                requires
                    duration > 0,
            ;
        }
    }
}

} // verus!

