//! Messages that drive the UI state.
use vstd::prelude::*;

use crate::config::{TextScale, ThemeMode};
use crate::ui::state::{ActiveTab, Album, Artist, Folder, Genre, PreferencesTab, SortOption, Track};

verus! {

#[derive(Debug, Clone, PartialEq)]
pub enum UiMessage {
    TabSelected(ActiveTab),
    SelectArtist(Artist),
    SelectAlbum(Album),
    SelectGenre(Genre),
    SelectFolder(Folder),
    SelectTrack(Track),
    Playback(PlaybackMessage),
    Search(SearchMessage),
    ToggleLogoMenu,
    OpenPlaylist,
    ClosePlaylist,
    ShowLibrary,
    OpenPreferences,
    ClosePreferences,
    PreferencesTabSelected(PreferencesTab),
    SetThemeMode(ThemeMode),
    SetTextScale(TextScale),
    SetDefaultVolume(u8),
    CloseMenu,
}

#[derive(Debug, Clone, Copy, PartialEq, Eq, Structural)]
pub enum PlaybackMessage {
    TogglePlayPause,
    NextTrack,
    PreviousTrack,
    ToggleShuffle,
    CycleRepeat,
}

#[derive(Debug, Clone, PartialEq, Eq)]
pub enum SearchMessage {
    QueryChanged(String),
    SortChanged(SortOption),
}

} // verus!
