use grape::player::NowPlaying;
use grape::ui::components::albums_grid::AlbumsGrid;
use grape::ui::components::artists_panel::ArtistsPanel;
use grape::ui::components::folders_panel::{FolderEntry, FoldersPanel};
use grape::ui::components::genres_panel::GenresPanel;
use grape::ui::components::player_bar::PlayerBar;
use grape::ui::components::playlist_panel::PlaylistPanel;
use grape::ui::components::playlist_view::PlaylistView;
use grape::ui::components::queue_view::QueueView;
use grape::ui::components::songs_panel::SongsPanel;
use grape::ui::message::{PlaybackMessage, UiMessage};
use grape::ui::state::{Album, Artist, Genre, PlaybackState, RepeatMode, TimeSpan, Track};

const ARTISTS_SEL1: &str = "3 Song artists\nAphex Twin               A\n> Björk <                B\nDaft Punk                C";
const ARTISTS_SCROLL: &str = "3 Song artists\nBjörk                    A\n> Daft Punk <            B";
const GENRES_SEL0: &str = "3 Genres\n> Ambient <         12 tracks\nÉlectro              5 tracks\nJazz               120 tracks";
const GENRES_SCROLL: &str = "3 Genres\nÉlectro              5 tracks";
const FOLDERS_GRID: &str = "4 Folders · By name\nA/2001 - X       3  B/Y             12  > C/2010 - Z <   7\nD/W              1";
const FOLDERS_GRID2: &str = "4 Folders · By name\nC/2010 - Z       7  D/W              1";
const FOLDERS_LIST: &str = "4 Folders · Recent\n> B/Y <               12 tracks\nC/2010 - Z             7 tracks";
const ALBUMS_SEL1: &str = "Tri: A–Z\n██████                  ▓▓▓▓▓▓                  ██████\n██████                  ▓▓▓▓▓▓                  ██████\n██████                  ▓▓▓▓▓▓                  ██████\nHomework                > Vespertine <          Selected Ambient Works\nDaft Punk               > Björk <               Aphex Twin\n██████\n██████\n██████\nDiscovery\nDaft Punk";
const ALBUMS_LAYOUT: &str = "Tri: By year\n██████                  ██████\n██████                  ██████\n██████                  ██████\nSelected Ambient Works  Discovery\nAphex Twin              Daft Punk";
const SONGS_SEL2: &str = "3 Songs · Homework — Daft Punk\n 1. Da Funk               5:28\n    Daft Punk\n 2. Revolution 909        0:05\n    Daft Punk\n 7. > Around the World < 62:09\n    > Daft Punk <";
const SONGS_SCROLL: &str = "3 Songs · Homework — Daft Punk\n 2. Revolution 909        0:05\n    Daft Punk";
const PLAYER_NEW: &str = "[♪] Da Funk — Daft Punk\n\u{f049e} ⏮ \u{f040a} ⏭ \u{f0457}\n0:00 ──────────────────────── 0:00   \u{f057e} \u{f0cb9}";
const PLAYER_FULL: &str = "[🖼] Da Funk — Daft Punk\n\u{f049d} ⏮ \u{f03e4} ⏭ \u{f0456}\n1:05 ━━━━━─────────────────── 5:28   \u{f0580} \u{f0cb8}";
const PLAYER_MUTED: &str = "[♪] Da Funk — Daft Punk\n\u{f049e} ⏮ \u{f040a} ⏭ \u{f0458}\n6:40 ━━━━━━━━━━━━━━━━━━━━━━━━ 5:28   \u{f0581} \u{f0cb9}";

fn artists() -> Vec<Artist> {
    vec![
        Artist { id: 0, name: "Aphex Twin".to_string() },
        Artist { id: 1, name: "Björk".to_string() },
        Artist { id: 2, name: "Daft Punk".to_string() },
    ]
}

fn genres() -> Vec<Genre> {
    vec![
        Genre { id: 0, name: "Ambient".to_string(), track_count: 12 },
        Genre { id: 1, name: "Électro".to_string(), track_count: 5 },
        Genre { id: 2, name: "Jazz".to_string(), track_count: 120 },
    ]
}

fn folders() -> Vec<FolderEntry> {
    vec![
        FolderEntry { id: 0, name: "A/2001 - X".to_string(), track_count: 3 },
        FolderEntry { id: 1, name: "B/Y".to_string(), track_count: 12 },
        FolderEntry { id: 2, name: "C/2010 - Z".to_string(), track_count: 7 },
        FolderEntry { id: 3, name: "D/W".to_string(), track_count: 1 },
    ]
}

fn album(id: usize, title: &str, artist: &str) -> Album {
    Album { id, title: title.to_string(), artist: artist.to_string(), year: None, cover_path: None }
}

fn albums() -> Vec<Album> {
    vec![
        album(0, "Homework", "Daft Punk"),
        album(1, "Vespertine", "Björk"),
        album(2, "Selected Ambient Works", "Aphex Twin"),
        album(3, "Discovery", "Daft Punk"),
    ]
}

fn track(id: usize, title: &str, number: Option<u32>, duration_secs: u64) -> Track {
    Track {
        id,
        title: title.to_string(),
        album: "Homework".to_string(),
        artist: "Daft Punk".to_string(),
        track_number: number,
        duration_secs,
        path: format!("/music/{id}.mp3"),
        cover_path: None,
    }
}

fn tracks() -> Vec<Track> {
    vec![
        track(0, "Da Funk", Some(1), 328),
        track(1, "Revolution 909", None, 5),
        track(2, "Around the World", Some(7), 3729),
    ]
}

#[test]
fn artists_panel_renders_selection_and_index() {
    let panel = ArtistsPanel::new(artists()).with_selection(Some(1));
    assert_eq!(panel.render(), ARTISTS_SEL1);
}

#[test]
fn artists_panel_scrolls_and_caps_offset() {
    let panel = ArtistsPanel::new(artists()).with_selection(Some(2)).with_scroll(1, 2);
    assert_eq!(panel.render(), ARTISTS_SCROLL);
    let capped = ArtistsPanel::new(artists()).with_scroll(99, 0);
    assert_eq!(capped.render(), "3 Song artists");
}

#[test]
fn artists_panel_message_for_artist() {
    let panel = ArtistsPanel::new(artists());
    assert_eq!(
        panel.message_for_artist(1),
        Some(UiMessage::SelectArtist(Artist { id: 1, name: "Björk".to_string() }))
    );
    assert_eq!(panel.message_for_artist(7), None);
}

#[test]
fn genres_panel_renders_counts() {
    let panel = GenresPanel::new(genres()).with_selection(Some(0));
    assert_eq!(panel.render(), GENRES_SEL0);
    let scrolled = GenresPanel::new(genres()).with_scroll(1, 1);
    assert_eq!(scrolled.render(), GENRES_SCROLL);
}

#[test]
fn folders_panel_grid_and_list() {
    let grid = FoldersPanel::new(folders()).with_selection(Some(2));
    assert_eq!(grid.render(), FOLDERS_GRID);
    let grid2 = FoldersPanel::new(folders()).with_layout_grid(2, 5, 1);
    assert_eq!(grid2.render(), FOLDERS_GRID2);
    let list = FoldersPanel::new(folders())
        .with_sort_label("Recent")
        .with_selection(Some(1))
        .with_layout_list(1, 2);
    assert_eq!(list.render(), FOLDERS_LIST);
}

#[test]
fn folders_panel_empty_grid_and_zero_columns() {
    let empty = FoldersPanel::new(Vec::new());
    assert_eq!(empty.render(), "0 Folders · By name");
    let one_column = FoldersPanel::new(folders()).with_layout_grid(0, 0, 0);
    assert_eq!(
        one_column.render(),
        "4 Folders · By name\nA/2001 - X       3"
    );
}

#[test]
fn albums_grid_renders_cells() {
    let grid = AlbumsGrid::new(albums()).with_selection(Some(1));
    assert_eq!(grid.render(), ALBUMS_SEL1);
    let laid = AlbumsGrid::new(albums()).with_sort_label("By year").with_layout(2, 1, 1);
    assert_eq!(laid.render(), ALBUMS_LAYOUT);
}

#[test]
fn albums_grid_message_for_album() {
    let grid = AlbumsGrid::new(albums());
    assert_eq!(grid.message_for_album(3), Some(UiMessage::SelectAlbum(album(3, "Discovery", "Daft Punk"))));
    assert_eq!(grid.message_for_album(4), None);
    assert_eq!(AlbumsGrid::new(Vec::new()).render(), "Tri: A–Z");
}

#[test]
fn songs_panel_renders_numbers_titles_durations() {
    let panel = SongsPanel::new("Homework", "Daft Punk", tracks()).with_selection(Some(2));
    assert_eq!(panel.render(), SONGS_SEL2);
    let scrolled = SongsPanel::new("Homework", "Daft Punk", tracks()).with_scroll(1, 1);
    assert_eq!(scrolled.render(), SONGS_SCROLL);
}

#[test]
fn songs_panel_message_for_track() {
    let panel = SongsPanel::new("Homework", "Daft Punk", tracks());
    assert_eq!(panel.message_for_track(0), Some(UiMessage::SelectTrack(track(0, "Da Funk", Some(1), 328))));
    assert_eq!(panel.message_for_track(9), None);
}

#[test]
fn player_bar_renders_defaults() {
    let bar = PlayerBar::new("Da Funk", "Daft Punk");
    assert_eq!(bar.render(), PLAYER_NEW);
}

#[test]
fn player_bar_renders_progress_volume_and_queue() {
    let playback = PlaybackState {
        position: TimeSpan { secs: 65, subsec_nanos: 0 },
        duration: TimeSpan { secs: 328, subsec_nanos: 0 },
        is_playing: true,
        shuffle: true,
        repeat: RepeatMode::All,
    };
    let bar = PlayerBar::new("Da Funk", "Daft Punk")
        .with_cover(Some("/covers/a.jpg".to_string()))
        .with_playback(playback)
        .with_volume(50)
        .with_queue(true);
    assert_eq!(bar.render(), PLAYER_FULL);
}

#[test]
fn player_bar_full_bar_past_the_end_and_muted() {
    let playback = PlaybackState {
        position: TimeSpan { secs: 400, subsec_nanos: 0 },
        duration: TimeSpan { secs: 328, subsec_nanos: 0 },
        is_playing: false,
        shuffle: false,
        repeat: RepeatMode::One,
    };
    let bar = PlayerBar::new("Da Funk", "Daft Punk").with_playback(playback).with_volume(0);
    assert_eq!(bar.render(), PLAYER_MUTED);
}

#[test]
fn player_bar_volume_is_capped_and_messages() {
    let bar = PlayerBar::new("t", "a").with_volume(250);
    let rendered = bar.render();
    assert!(rendered.ends_with("\u{f057e} \u{f0cb9}"));
    assert_eq!(bar.toggle_play_pause_message(), UiMessage::Playback(PlaybackMessage::TogglePlayPause));
    assert_eq!(bar.next_track_message(), UiMessage::Playback(PlaybackMessage::NextTrack));
    assert_eq!(bar.previous_track_message(), UiMessage::Playback(PlaybackMessage::PreviousTrack));
    assert_eq!(bar.toggle_shuffle_message(), UiMessage::Playback(PlaybackMessage::ToggleShuffle));
    assert_eq!(bar.cycle_repeat_message(), UiMessage::Playback(PlaybackMessage::CycleRepeat));
    let with_actions = bar
        .with_queue_action(Some(UiMessage::OpenPlaylist))
        .with_inline_volume_bar(true)
        .with_inline_volume_toggle(Some(UiMessage::CloseMenu));
    assert_eq!(with_actions.render(), rendered);
}

#[test]
fn playlist_panel_and_views_build() {
    let item = NowPlaying {
        artist: "Daft Punk".to_string(),
        album: "Homework".to_string(),
        title: "Da Funk".to_string(),
        duration_secs: 328,
        path: "/music/1.mp3".to_string(),
    };
    let _panel = PlaylistPanel::new("Mix", "Mix 2", vec![item]);
    assert_eq!(PlaylistView::new(), PlaylistView);
    assert_eq!(QueueView::new(), QueueView);
}

#[test]
fn player_bar_progress_keeps_fractions_of_a_second() {
    // Half of a 0.8 s track: 12 of 24 cells, though both times show 0:00.
    let playback = PlaybackState {
        position: TimeSpan::new(0, 400_000_000),
        duration: TimeSpan::new(0, 800_000_000),
        is_playing: true,
        shuffle: false,
        repeat: RepeatMode::Off,
    };
    let rendered = PlayerBar::new("t", "a").with_playback(playback).render();
    let bar = format!("{}{}", "━".repeat(12), "─".repeat(12));
    assert!(rendered.contains(&format!("0:00 {bar} 0:00")));
    let carried = TimeSpan::new(1, 2_500_000_000);
    assert_eq!(carried, TimeSpan { secs: 3, subsec_nanos: 500_000_000 });
}
