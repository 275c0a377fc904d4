//! The UI state: active tab, selections, playback flags, search, overlays
//! and preferences, and how each message changes it.
use vstd::prelude::*;

use crate::config::UserSettings;
use crate::library::album::clone_opt_string;
use crate::ui::message::{PlaybackMessage, SearchMessage, UiMessage};

verus! {

#[derive(Debug, Clone, Copy, PartialEq, Eq, Structural)]
pub enum ActiveTab {
    Artists,
    Genres,
    Albums,
    Folders,
}

impl Default for ActiveTab {
    fn default() -> (r: Self)
        ensures
            r == ActiveTab::Artists,
    {
        ActiveTab::Artists
    }
}

#[derive(Debug, Clone, Copy, PartialEq, Eq, Structural)]
pub enum PreferencesTab {
    General,
    Appearance,
    Accessibility,
    Audio,
}

impl Default for PreferencesTab {
    fn default() -> (r: Self)
        ensures
            r == PreferencesTab::General,
    {
        PreferencesTab::General
    }
}

#[derive(Debug, Clone, PartialEq, Eq)]
pub struct Artist {
    pub id: usize,
    pub name: String,
}

#[derive(Debug, Clone, PartialEq, Eq)]
pub struct Album {
    pub id: usize,
    pub title: String,
    pub artist: String,
    pub year: Option<u32>,
    pub cover_path: Option<String>,
}

#[derive(Debug, Clone, PartialEq, Eq)]
pub struct Genre {
    pub id: usize,
    pub name: String,
    pub track_count: usize,
}

#[derive(Debug, Clone, PartialEq, Eq)]
pub struct Folder {
    pub id: usize,
    pub name: String,
    pub track_count: usize,
}

/// A track as the UI lists it; `duration_secs` is its length in seconds.
#[derive(Debug, Clone, PartialEq, Eq)]
pub struct Track {
    pub id: usize,
    pub title: String,
    pub album: String,
    pub artist: String,
    pub track_number: Option<u32>,
    pub duration_secs: u64,
    pub path: String,
    pub cover_path: Option<String>,
}

impl Artist {
    /// A field-by-field copy.
    pub fn duplicate(&self) -> (r: Self)
        ensures
            r == *self,
    {
        Artist { id: self.id, name: self.name.clone() }
    }
}

impl Album {
    /// A field-by-field copy.
    pub fn duplicate(&self) -> (r: Self)
        ensures
            r == *self,
    {
        Album {
            id: self.id,
            title: self.title.clone(),
            artist: self.artist.clone(),
            year: self.year,
            cover_path: clone_opt_string(&self.cover_path),
        }
    }
}

impl Genre {
    /// A field-by-field copy.
    pub fn duplicate(&self) -> (r: Self)
        ensures
            r == *self,
    {
        Genre { id: self.id, name: self.name.clone(), track_count: self.track_count }
    }
}

impl Folder {
    /// A field-by-field copy.
    pub fn duplicate(&self) -> (r: Self)
        ensures
            r == *self,
    {
        Folder { id: self.id, name: self.name.clone(), track_count: self.track_count }
    }
}

impl Track {
    /// A field-by-field copy.
    pub fn duplicate(&self) -> (r: Self)
        ensures
            r == *self,
    {
        Track {
            id: self.id,
            title: self.title.clone(),
            album: self.album.clone(),
            artist: self.artist.clone(),
            track_number: self.track_number,
            duration_secs: self.duration_secs,
            path: self.path.clone(),
            cover_path: clone_opt_string(&self.cover_path),
        }
    }
}

#[derive(Debug, Clone, PartialEq, Eq)]
pub struct SelectionState {
    pub selected_artist: Option<Artist>,
    pub selected_album: Option<Album>,
    pub selected_genre: Option<Genre>,
    pub selected_folder: Option<Folder>,
    pub selected_track: Option<Track>,
}

pub open spec fn nothing_selected(s: SelectionState) -> bool {
    &&& s.selected_artist is None
    &&& s.selected_album is None
    &&& s.selected_genre is None
    &&& s.selected_folder is None
    &&& s.selected_track is None
}

impl Default for SelectionState {
    fn default() -> (r: Self)
        ensures
            nothing_selected(r),
    {
        SelectionState {
            selected_artist: None,
            selected_album: None,
            selected_genre: None,
            selected_folder: None,
            selected_track: None,
        }
    }
}

#[derive(Debug, Clone, Copy, PartialEq, Eq, Structural)]
pub enum RepeatMode {
    Off,
    One,
    All,
}

impl Default for RepeatMode {
    fn default() -> (r: Self)
        ensures
            r == RepeatMode::Off,
    {
        RepeatMode::Off
    }
}

/// A length of time held as `std::time::Duration` holds it: whole seconds
/// and the nanoseconds past them (below one second).
#[derive(Debug, Clone, Copy, PartialEq, Eq, Structural)]
pub struct TimeSpan {
    pub secs: u64,
    pub subsec_nanos: u32,
}

/// The length in nanoseconds.
pub open spec fn span_nanos(t: TimeSpan) -> nat {
    t.secs as nat * 1_000_000_000 + t.subsec_nanos as nat
}

impl TimeSpan {
    /// `Duration::new`: whole seconds and nanoseconds, the nanoseconds past a
    /// second carried into the seconds.
    pub fn new(secs: u64, nanos: u32) -> (r: Self)
        requires
            secs + nanos / 1_000_000_000 <= u64::MAX,
        ensures
            r.secs == secs + nanos / 1_000_000_000,
            r.subsec_nanos == nanos % 1_000_000_000,
            span_nanos(r) == secs as nat * 1_000_000_000 + nanos as nat,
    {
        let carry = (nanos / 1_000_000_000) as u64;
        let r = TimeSpan { secs: secs + carry, subsec_nanos: nanos % 1_000_000_000 };
        assert(span_nanos(r) == secs as nat * 1_000_000_000 + nanos as nat) by (nonlinear_arith)
            requires
                r.secs == secs + nanos / 1_000_000_000,
                r.subsec_nanos == nanos % 1_000_000_000,
        ;
        r
    }
}

/// Progress and transport flags; the position and the length of the track
/// keep their fractions of a second.
#[derive(Debug, Clone, Copy, PartialEq, Eq, Structural)]
pub struct PlaybackState {
    pub position: TimeSpan,
    pub duration: TimeSpan,
    pub is_playing: bool,
    pub shuffle: bool,
    pub repeat: RepeatMode,
}

impl Default for PlaybackState {
    fn default() -> (r: Self)
        ensures
            r == (PlaybackState {
                position: TimeSpan { secs: 0, subsec_nanos: 0 },
                duration: TimeSpan { secs: 0, subsec_nanos: 0 },
                is_playing: false,
                shuffle: false,
                repeat: RepeatMode::Off,
            }),
    {
        PlaybackState {
            position: TimeSpan { secs: 0, subsec_nanos: 0 },
            duration: TimeSpan { secs: 0, subsec_nanos: 0 },
            is_playing: false,
            shuffle: false,
            repeat: RepeatMode::Off,
        }
    }
}

/// Repeat cycles Off, All, One, then Off again.
pub open spec fn next_repeat(r: RepeatMode) -> RepeatMode {
    match r {
        RepeatMode::Off => RepeatMode::All,
        RepeatMode::All => RepeatMode::One,
        RepeatMode::One => RepeatMode::Off,
    }
}

/// Shuffle and repeat change here; the transport messages are handled by
/// the player and leave this state alone.
pub open spec fn playback_after(p: PlaybackState, m: PlaybackMessage) -> PlaybackState {
    match m {
        PlaybackMessage::ToggleShuffle => PlaybackState { shuffle: !p.shuffle, ..p },
        PlaybackMessage::CycleRepeat => PlaybackState { repeat: next_repeat(p.repeat), ..p },
        _ => p,
    }
}

impl PlaybackState {
    pub fn update(&mut self, message: PlaybackMessage)
        ensures
            *final(self) == playback_after(*old(self), message),
    {
        match message {
            PlaybackMessage::ToggleShuffle => {
                self.shuffle = !self.shuffle;
            },
            PlaybackMessage::CycleRepeat => {
                self.repeat = match self.repeat {
                    RepeatMode::Off => RepeatMode::All,
                    RepeatMode::All => RepeatMode::One,
                    RepeatMode::One => RepeatMode::Off,
                };
            },
            PlaybackMessage::TogglePlayPause | PlaybackMessage::NextTrack | PlaybackMessage::PreviousTrack => {},
        }
    }
}

#[derive(Debug, Clone, Copy, PartialEq, Eq, Structural)]
pub enum SortOption {
    Alphabetical,
    ByAlbum,
}

impl Default for SortOption {
    fn default() -> (r: Self)
        ensures
            r == SortOption::Alphabetical,
    {
        SortOption::Alphabetical
    }
}

#[derive(Debug, Clone, PartialEq, Eq)]
pub struct SearchState {
    pub query: String,
    pub sort: SortOption,
}

impl Default for SearchState {
    fn default() -> (r: Self)
        ensures
            r.query@ == Seq::<char>::empty(),
            r.sort == SortOption::Alphabetical,
    {
        SearchState { query: String::new(), sort: SortOption::Alphabetical }
    }
}

pub open spec fn search_after(s: SearchState, m: SearchMessage) -> SearchState {
    match m {
        SearchMessage::QueryChanged(q) => SearchState { query: q, ..s },
        SearchMessage::SortChanged(o) => SearchState { sort: o, ..s },
    }
}

impl SearchState {
    pub fn update(&mut self, message: SearchMessage)
        ensures
            *final(self) == search_after(*old(self), message),
    {
        match message {
            SearchMessage::QueryChanged(query) => {
                self.query = query;
            },
            SearchMessage::SortChanged(sort) => {
                self.sort = sort;
            },
        }
    }
}

#[derive(Debug, Clone, PartialEq, Eq)]
pub struct UiState {
    pub active_tab: ActiveTab,
    pub selection: SelectionState,
    pub playback: PlaybackState,
    pub search: SearchState,
    pub menu_open: bool,
    pub playlist_open: bool,
    pub preferences_open: bool,
    pub preferences_tab: PreferencesTab,
    pub settings: UserSettings,
}

/// The state a window opens with, around the given settings.
pub open spec fn initial_state(s: UiState, settings: UserSettings) -> bool {
    &&& s.active_tab == ActiveTab::Artists
    &&& nothing_selected(s.selection)
    &&& s.playback == PlaybackState {
        position: TimeSpan { secs: 0, subsec_nanos: 0 },
        duration: TimeSpan { secs: 0, subsec_nanos: 0 },
        is_playing: false,
        shuffle: false,
        repeat: RepeatMode::Off,
    }
    &&& s.search.query@ == Seq::<char>::empty()
    &&& s.search.sort == SortOption::Alphabetical
    &&& !s.menu_open
    &&& !s.playlist_open
    &&& !s.preferences_open
    &&& s.preferences_tab == PreferencesTab::General
    &&& s.settings == settings
}

/// A default volume as the preferences accept it: at most 100.
pub open spec fn capped_volume(v: u8) -> u8 {
    if v <= 100 {
        v
    } else {
        100
    }
}

/// The state after one message.
pub open spec fn ui_after(s: UiState, m: UiMessage) -> UiState {
    match m {
        UiMessage::TabSelected(tab) => UiState {
            active_tab: tab,
            playlist_open: false,
            preferences_open: false,
            ..s
        },
        UiMessage::SelectArtist(a) => UiState {
            selection: SelectionState {
                selected_artist: Some(a),
                selected_album: None,
                selected_track: None,
                ..s.selection
            },
            ..s
        },
        UiMessage::SelectAlbum(a) => UiState {
            selection: SelectionState { selected_album: Some(a), selected_track: None, ..s.selection },
            ..s
        },
        UiMessage::SelectGenre(g) => UiState {
            selection: SelectionState { selected_genre: Some(g), selected_folder: None, ..s.selection },
            ..s
        },
        UiMessage::SelectFolder(f) => UiState {
            selection: SelectionState { selected_folder: Some(f), selected_genre: None, ..s.selection },
            ..s
        },
        UiMessage::SelectTrack(t) => UiState {
            selection: SelectionState { selected_track: Some(t), ..s.selection },
            ..s
        },
        UiMessage::Playback(p) => UiState { playback: playback_after(s.playback, p), ..s },
        UiMessage::Search(q) => UiState { search: search_after(s.search, q), ..s },
        UiMessage::ToggleLogoMenu => UiState { menu_open: !s.menu_open, ..s },
        UiMessage::OpenPlaylist => UiState {
            menu_open: false,
            playlist_open: true,
            preferences_open: false,
            ..s
        },
        UiMessage::ClosePlaylist => UiState { playlist_open: false, ..s },
        UiMessage::ShowLibrary => UiState {
            menu_open: false,
            playlist_open: false,
            preferences_open: false,
            ..s
        },
        UiMessage::OpenPreferences => UiState {
            menu_open: false,
            playlist_open: false,
            preferences_open: true,
            ..s
        },
        UiMessage::ClosePreferences => UiState { preferences_open: false, ..s },
        UiMessage::PreferencesTabSelected(t) => UiState { preferences_tab: t, ..s },
        UiMessage::SetThemeMode(t) => UiState {
            settings: UserSettings { theme_mode: t, ..s.settings },
            ..s
        },
        UiMessage::SetTextScale(t) => UiState {
            settings: UserSettings { text_scale: t, ..s.settings },
            ..s
        },
        UiMessage::SetDefaultVolume(v) => UiState {
            settings: UserSettings { default_volume: capped_volume(v), ..s.settings },
            ..s
        },
        UiMessage::CloseMenu => UiState { menu_open: false, ..s },
    }
}

impl UiState {
    pub fn new(settings: UserSettings) -> (r: Self)
        ensures
            initial_state(r, settings),
    {
        UiState {
            active_tab: ActiveTab::default(),
            selection: SelectionState::default(),
            playback: PlaybackState::default(),
            search: SearchState::default(),
            menu_open: false,
            playlist_open: false,
            preferences_open: false,
            preferences_tab: PreferencesTab::default(),
            settings,
        }
    }

    pub fn update(&mut self, message: UiMessage)
        ensures
            *final(self) == ui_after(*old(self), message),
    {
        match message {
            UiMessage::TabSelected(tab) => {
                self.active_tab = tab;
                self.playlist_open = false;
                self.preferences_open = false;
            },
            UiMessage::SelectArtist(artist) => {
                self.selection.selected_artist = Some(artist);
                self.selection.selected_album = None;
                self.selection.selected_track = None;
            },
            UiMessage::SelectAlbum(album) => {
                self.selection.selected_album = Some(album);
                self.selection.selected_track = None;
            },
            UiMessage::SelectGenre(genre) => {
                self.selection.selected_genre = Some(genre);
                self.selection.selected_folder = None;
            },
            UiMessage::SelectFolder(folder) => {
                self.selection.selected_folder = Some(folder);
                self.selection.selected_genre = None;
            },
            UiMessage::SelectTrack(track) => {
                self.selection.selected_track = Some(track);
            },
            UiMessage::Playback(message) => {
                self.playback.update(message);
            },
            UiMessage::Search(message) => {
                self.search.update(message);
            },
            UiMessage::ToggleLogoMenu => {
                self.menu_open = !self.menu_open;
            },
            UiMessage::OpenPlaylist => {
                self.menu_open = false;
                self.playlist_open = true;
                self.preferences_open = false;
            },
            UiMessage::ClosePlaylist => {
                self.playlist_open = false;
            },
            UiMessage::ShowLibrary => {
                self.menu_open = false;
                self.playlist_open = false;
                self.preferences_open = false;
            },
            UiMessage::OpenPreferences => {
                self.menu_open = false;
                self.playlist_open = false;
                self.preferences_open = true;
            },
            UiMessage::ClosePreferences => {
                self.preferences_open = false;
            },
            UiMessage::PreferencesTabSelected(tab) => {
                self.preferences_tab = tab;
            },
            UiMessage::SetThemeMode(theme_mode) => {
                self.settings.theme_mode = theme_mode;
            },
            UiMessage::SetTextScale(scale) => {
                self.settings.text_scale = scale;
            },
            UiMessage::SetDefaultVolume(volume) => {
                self.settings.default_volume = if volume <= 100 {
                    volume
                } else {
                    100
                };
            },
            UiMessage::CloseMenu => {
                self.menu_open = false;
            },
        }
    }
}

/// Cycling the repeat mode three times comes back to where it started.
pub proof fn lemma_repeat_cycle_returns(p: PlaybackState)
    ensures
        playback_after(
            playback_after(playback_after(p, PlaybackMessage::CycleRepeat), PlaybackMessage::CycleRepeat),
            PlaybackMessage::CycleRepeat,
        ) == p,
        playback_after(p, PlaybackMessage::CycleRepeat).repeat != p.repeat,
{
}

/// Toggling shuffle twice comes back to where it started.
pub proof fn lemma_shuffle_toggle_twice(p: PlaybackState)
    ensures
        playback_after(playback_after(p, PlaybackMessage::ToggleShuffle), PlaybackMessage::ToggleShuffle)
            == p,
{
}

/// The playlist and the preferences are never open together: no message
/// opens one without closing the other.
pub proof fn lemma_overlays_exclusive(s: UiState, m: UiMessage)
    requires
        !(s.playlist_open && s.preferences_open),
    ensures
        !(ui_after(s, m).playlist_open && ui_after(s, m).preferences_open),
{
}

/// The default volume stays at most 100, whatever the message.
pub proof fn lemma_volume_capped(s: UiState, m: UiMessage)
    requires
        s.settings.default_volume <= 100,
    ensures
        ui_after(s, m).settings.default_volume <= 100,
        m is SetDefaultVolume ==> ui_after(s, m).settings.default_volume == capped_volume(
            m->SetDefaultVolume_0,
        ),
{
}

/// Choosing an artist clears the album and track chosen before; choosing a
/// genre and choosing a folder exclude each other.
pub proof fn lemma_selection_narrows(s: UiState, m: UiMessage)
    ensures
        m is SelectArtist ==> ui_after(s, m).selection.selected_album is None
            && ui_after(s, m).selection.selected_track is None,
        m is SelectAlbum ==> ui_after(s, m).selection.selected_track is None,
        m is SelectGenre ==> ui_after(s, m).selection.selected_folder is None,
        m is SelectFolder ==> ui_after(s, m).selection.selected_genre is None,
{
}

/// Transport messages leave the UI state unchanged.
pub proof fn lemma_transport_keeps_state(s: UiState)
    ensures
        ui_after(s, UiMessage::Playback(PlaybackMessage::TogglePlayPause)) == s,
        ui_after(s, UiMessage::Playback(PlaybackMessage::NextTrack)) == s,
        ui_after(s, UiMessage::Playback(PlaybackMessage::PreviousTrack)) == s,
{
}

} // verus!
