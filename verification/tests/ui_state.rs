use grape::config::{TextScale, ThemeMode, UserSettings};
use grape::ui::message::{PlaybackMessage, SearchMessage, UiMessage};
use grape::ui::state::{
    ActiveTab, Album, Artist, Folder, Genre, PlaybackState, PreferencesTab, RepeatMode, SearchState,
    SortOption, Track, UiState,
};
use grape::ui::{main_view, ContentColumns, LeftSidebar, MainLayout, RightPanel, TopBar};

fn state() -> UiState {
    UiState::new(UserSettings::default())
}

fn artist(id: usize) -> Artist {
    Artist { id, name: format!("Artist {id}") }
}

fn album(id: usize) -> Album {
    Album { id, title: format!("Album {id}"), artist: "A".to_string(), year: Some(2001), cover_path: None }
}

fn track(id: usize) -> Track {
    Track {
        id,
        title: format!("T{id}"),
        album: "Album".to_string(),
        artist: "A".to_string(),
        track_number: Some(1),
        duration_secs: 60,
        path: "/x.mp3".to_string(),
        cover_path: None,
    }
}

#[test]
fn new_state_starts_on_artists_with_nothing_open() {
    let s = state();
    assert_eq!(s.active_tab, ActiveTab::Artists);
    assert!(s.selection.selected_artist.is_none());
    assert!(!s.menu_open && !s.playlist_open && !s.preferences_open);
    assert_eq!(s.preferences_tab, PreferencesTab::General);
    assert_eq!(s.search.query, "");
    assert_eq!(s.search.sort, SortOption::Alphabetical);
    assert_eq!(s.playback.repeat, RepeatMode::Off);
    assert_eq!(s.settings, UserSettings::default());
}

#[test]
fn repeat_cycles_off_all_one() {
    let mut p = PlaybackState::default();
    p.update(PlaybackMessage::CycleRepeat);
    assert_eq!(p.repeat, RepeatMode::All);
    p.update(PlaybackMessage::CycleRepeat);
    assert_eq!(p.repeat, RepeatMode::One);
    p.update(PlaybackMessage::CycleRepeat);
    assert_eq!(p.repeat, RepeatMode::Off);
}

#[test]
fn shuffle_toggles_and_transport_keeps_state() {
    let mut s = state();
    s.update(UiMessage::Playback(PlaybackMessage::ToggleShuffle));
    assert!(s.playback.shuffle);
    let before = s.clone();
    s.update(UiMessage::Playback(PlaybackMessage::TogglePlayPause));
    s.update(UiMessage::Playback(PlaybackMessage::NextTrack));
    s.update(UiMessage::Playback(PlaybackMessage::PreviousTrack));
    assert_eq!(s, before);
    s.update(UiMessage::Playback(PlaybackMessage::ToggleShuffle));
    assert!(!s.playback.shuffle);
}

#[test]
fn selecting_artist_clears_album_and_track() {
    let mut s = state();
    s.update(UiMessage::SelectAlbum(album(1)));
    s.update(UiMessage::SelectTrack(track(4)));
    assert!(s.selection.selected_track.is_some());
    s.update(UiMessage::SelectArtist(artist(2)));
    assert_eq!(s.selection.selected_artist, Some(artist(2)));
    assert!(s.selection.selected_album.is_none());
    assert!(s.selection.selected_track.is_none());
    s.update(UiMessage::SelectAlbum(album(3)));
    s.update(UiMessage::SelectTrack(track(5)));
    s.update(UiMessage::SelectAlbum(album(6)));
    assert!(s.selection.selected_track.is_none());
}

#[test]
fn genre_and_folder_selections_exclude_each_other() {
    let mut s = state();
    s.update(UiMessage::SelectGenre(Genre { id: 1, name: "Jazz".to_string(), track_count: 3 }));
    s.update(UiMessage::SelectFolder(Folder { id: 2, name: "A/B".to_string(), track_count: 4 }));
    assert!(s.selection.selected_genre.is_none());
    assert!(s.selection.selected_folder.is_some());
    s.update(UiMessage::SelectGenre(Genre { id: 1, name: "Jazz".to_string(), track_count: 3 }));
    assert!(s.selection.selected_folder.is_none());
}

#[test]
fn playlist_and_preferences_never_open_together() {
    let mut s = state();
    s.update(UiMessage::ToggleLogoMenu);
    assert!(s.menu_open);
    s.update(UiMessage::OpenPlaylist);
    assert!(s.playlist_open && !s.preferences_open && !s.menu_open);
    s.update(UiMessage::OpenPreferences);
    assert!(!s.playlist_open && s.preferences_open);
    s.update(UiMessage::OpenPlaylist);
    assert!(s.playlist_open && !s.preferences_open);
    s.update(UiMessage::TabSelected(ActiveTab::Genres));
    assert_eq!(s.active_tab, ActiveTab::Genres);
    assert!(!s.playlist_open && !s.preferences_open);
    s.update(UiMessage::OpenPreferences);
    s.update(UiMessage::ClosePreferences);
    assert!(!s.preferences_open);
    s.update(UiMessage::OpenPlaylist);
    s.update(UiMessage::ClosePlaylist);
    assert!(!s.playlist_open);
    s.update(UiMessage::OpenPreferences);
    s.update(UiMessage::ShowLibrary);
    assert!(!s.playlist_open && !s.preferences_open && !s.menu_open);
}

#[test]
fn preferences_messages_change_settings() {
    let mut s = state();
    s.update(UiMessage::PreferencesTabSelected(PreferencesTab::Audio));
    assert_eq!(s.preferences_tab, PreferencesTab::Audio);
    s.update(UiMessage::SetThemeMode(ThemeMode::Light));
    assert_eq!(s.settings.theme_mode, ThemeMode::Light);
    s.update(UiMessage::SetTextScale(TextScale::Large));
    assert_eq!(s.settings.text_scale, TextScale::Large);
    s.update(UiMessage::SetDefaultVolume(180));
    assert_eq!(s.settings.default_volume, 100);
    s.update(UiMessage::SetDefaultVolume(35));
    assert_eq!(s.settings.default_volume, 35);
    s.update(UiMessage::ToggleLogoMenu);
    s.update(UiMessage::CloseMenu);
    assert!(!s.menu_open);
}

#[test]
fn search_messages_update_query_and_sort() {
    let mut s = state();
    let bar = TopBar;
    s.update(bar.search_query_message("daft"));
    assert_eq!(s.search.query, "daft");
    s.update(bar.search_sort_message(SortOption::ByAlbum));
    assert_eq!(s.search.sort, SortOption::ByAlbum);
    assert_eq!(bar.tab_selected_message(ActiveTab::Folders), UiMessage::TabSelected(ActiveTab::Folders));
    let mut search = SearchState::default();
    search.update(SearchMessage::QueryChanged("x".to_string()));
    search.update(SearchMessage::SortChanged(SortOption::ByAlbum));
    assert_eq!(search, SearchState { query: "x".to_string(), sort: SortOption::ByAlbum });
}

#[test]
fn main_view_layout() {
    let view = main_view();
    assert_eq!(view.layout, MainLayout::new());
    assert_eq!(view.layout.content, ContentColumns::new());
    assert_eq!(view.layout.content.left, LeftSidebar);
    assert_eq!(view.layout.content.right, RightPanel);
}
