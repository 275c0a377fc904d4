//! Text renderings of the panels and the messages they send.
pub mod artists_panel;
pub mod genres_panel;
pub mod folders_panel;
pub mod albums_grid;
pub mod songs_panel;
pub mod player_bar;
pub mod playlist_panel;
pub mod playlist_view;
pub mod queue_view;
