//! Grape: the verified core of a desktop music player (library model,
//! folder and file name parsing, playlists, queue and UI state).
pub mod text;
pub mod library;
pub mod mock_catalog;
pub mod paths;
pub mod config;
pub mod eq;
pub mod player;
pub mod playlist;
pub mod ui;
