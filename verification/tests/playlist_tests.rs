use grape::player::NowPlaying;
use grape::playlist::{Playlist, PlaylistManager, PLAYLIST_EXCHANGE_VERSION};

fn sample_track(index: u32) -> NowPlaying {
    NowPlaying {
        artist: format!("Artist {index}"),
        album: format!("Album {index}"),
        title: format!("Track {index}"),
        duration_secs: 180 + index,
        path: format!("/music/track_{index}.mp3"),
    }
}

#[test]
fn add_remove_items() {
    let mut playlist = Playlist::empty("Favorites");
    let first = sample_track(1);
    let second = sample_track(2);

    playlist.add(first.clone());
    playlist.add(second.clone());

    assert_eq!(playlist.items.len(), 2);
    assert_eq!(playlist.remove(0), Some(first));
    assert_eq!(playlist.items.len(), 1);
    assert_eq!(playlist.remove(10), None);
    assert_eq!(playlist.items, vec![second]);
}

#[test]
fn reorder_items() {
    let mut playlist = Playlist::empty("Mix");
    let first = sample_track(1);
    let second = sample_track(2);
    let third = sample_track(3);

    playlist.add(first.clone());
    playlist.add(second.clone());
    playlist.add(third.clone());

    assert!(playlist.reorder(0, 2));
    assert_eq!(
        playlist.items,
        vec![second.clone(), third.clone(), first.clone()]
    );
    assert!(playlist.reorder(1, 1));
    assert!(!playlist.reorder(10, 0));
}

#[test]
fn exchange_roundtrip_keeps_playlist() {
    let mut playlist = Playlist::empty("Roadtrip");
    playlist.add(sample_track(1));
    playlist.add(sample_track(2));

    let exchange = playlist.to_exchange();
    assert_eq!(exchange.version, PLAYLIST_EXCHANGE_VERSION);
    let back = Playlist::from_exchange(exchange);
    assert_eq!(back.name, playlist.name);
    assert_eq!(back.items, playlist.items);
}

#[test]
fn reorder_then_back_restores_order() {
    let mut playlist = Playlist::empty("Undo");
    for i in 0..4 {
        playlist.add(sample_track(i));
    }
    let before = playlist.items.clone();
    assert!(playlist.reorder(3, 1));
    assert!(playlist.reorder(1, 3));
    assert_eq!(playlist.items, before);
}

#[test]
fn clear_empties_playlist() {
    let mut playlist = Playlist::empty("Clear");
    playlist.add(sample_track(1));
    playlist.clear();
    assert!(playlist.items.is_empty());
    assert_eq!(playlist.name, "Clear");
}

#[test]
fn manager_starts_with_one_active_playlist() {
    let mut manager = PlaylistManager::new_default();
    assert_eq!(manager.playlists.len(), 1);
    assert!(manager.active().is_some());
    manager.add(sample_track(5));
    manager.add(sample_track(6));
    assert_eq!(manager.active().unwrap().items.len(), 2);
    assert!(manager.reorder(0, 1));
    assert_eq!(manager.active().unwrap().items[0], sample_track(6));
    assert_eq!(manager.remove(0), Some(sample_track(6)));
    manager.clear();
    assert!(manager.active().unwrap().items.is_empty());
}
