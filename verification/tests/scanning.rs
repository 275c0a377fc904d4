use grape::library::cache::{
    album_key, cache_subdir, folder_cache_path, hex_string, index_path, signature_of, stale_cache_file,
    track_key, track_source, CacheIndex, IndexEntry, TrackEntry, TrackSource, CACHE_VERSION,
};
use grape::library::covers::{
    cache_cover_filename, cache_cover_filename_with_extension, embedded_cover_art, folder_cover_art,
    pick_cover_file, plan_album_cover, CoverPlan,
};
use grape::library::metadata::{merge_tag_genres, TrackMetadata};
use grape::library::scan::{
    assemble_tracks, first_occurrences, has_audio_file, listing_order, normalized_path_key,
    classify_top_folder, find_cached_track, select_track_files, TopFolderKind, sort_by_number, track_keys, FileEntry, TrackInfo,
};
use grape::library::{EmbeddedCover, Track};

fn entry(name: &str) -> FileEntry {
    FileEntry {
        path: format!("/lib/A/{name}"),
        file_name: Some(name.to_string()),
        dedupe_key: name.to_lowercase(),
    }
}

fn plain(number: u8, title: &str) -> Track {
    Track {
        number,
        title: title.to_string(),
        duration_secs: 0,
        duration_millis: None,
        bitrate_kbps: None,
        codec: None,
        path: format!("/lib/{title}"),
        track_artist: None,
        artist: None,
        year: None,
        genre: None,
        embedded_cover: None,
    }
}

#[test]
fn select_track_files_numbers_and_filters() {
    let entries = vec![
        entry("01 - Intro.wav"),
        entry("02 - Suite.FLAC"),
        entry("Intro.mp3"),
        entry("notes.txt"),
        entry(".mp3"),
        entry("   .ogg"),
        entry("Outro.ogg"),
    ];
    let files = select_track_files(&entries);
    let got: Vec<(u8, &str)> = files.iter().map(|f| (f.number, f.title.as_str())).collect();
    assert_eq!(got, vec![(1, "Intro"), (2, "Suite"), (1, "Intro"), (2, "Outro")]);
    assert_eq!(files[1].path, "/lib/A/02 - Suite.FLAC");
}

#[test]
fn select_track_files_skips_duplicates_and_unreadable_names() {
    let mut dup = entry("03 - Again.mp3");
    dup.dedupe_key = "01 - intro.mp3".to_string();
    let unreadable = FileEntry { path: "/lib/A/?.mp3".to_string(), file_name: None, dedupe_key: "x".to_string() };
    let entries = vec![entry("01 - Intro.mp3"), dup, unreadable, entry("Free.mp3")];
    let files = select_track_files(&entries);
    let got: Vec<(u8, &str)> = files.iter().map(|f| (f.number, f.title.as_str())).collect();
    assert_eq!(got, vec![(1, "Intro"), (1, "Free")]);
}

#[test]
fn automatic_numbers_saturate() {
    let entries: Vec<FileEntry> = (0..300).map(|i| entry(&format!("Song {i:03}x.mp3"))).collect();
    let files = select_track_files(&entries);
    assert_eq!(files.len(), 300);
    assert_eq!(files[0].number, 1);
    assert_eq!(files[253].number, 254);
    assert_eq!(files[254].number, 255);
    assert_eq!(files[299].number, 255);
}

#[test]
fn sort_by_number_is_stable() {
    let tracks = vec![plain(3, "c"), plain(1, "a1"), plain(2, "b"), plain(1, "a2"), plain(0, "z")];
    let sorted = sort_by_number(tracks);
    let titles: Vec<&str> = sorted.iter().map(|t| t.title.as_str()).collect();
    assert_eq!(titles, vec!["z", "a1", "a2", "b", "c"]);
}

#[test]
fn assemble_tracks_prefers_tags_and_sorts() {
    let files = select_track_files(&vec![entry("01 - Intro.wav"), entry("02 - Suite.wav"), entry("Bonus.wav")]);
    let mut tags = TrackMetadata::default();
    tags.track_number = Some(9);
    tags.title = Some("Suite (tag)".to_string());
    tags.duration_secs = Some(125);
    tags.genre = Some("Jazz".to_string());
    let mut cached = plain(5, "From cache");
    cached.duration_secs = 77;
    let infos = vec![TrackInfo::Tags(TrackMetadata::default()), TrackInfo::Tags(tags), TrackInfo::Cached(cached)];
    let tracks = assemble_tracks(files, infos);
    let got: Vec<(u8, &str, u32)> = tracks.iter().map(|t| (t.number, t.title.as_str(), t.duration_secs)).collect();
    assert_eq!(got, vec![(1, "Intro", 0), (5, "From cache", 77), (9, "Suite (tag)", 125)]);
    assert_eq!(tracks[1].path, "/lib/A/Bonus.wav");
    assert_eq!(tracks[2].genre, Some("Jazz".to_string()));
}

#[test]
fn keys_and_listing_helpers() {
    let tracks = vec![plain(1, "A/b.mp3"), plain(2, "c.mp3")];
    assert_eq!(track_keys("/lib", &tracks), vec!["A/b.mp3".to_string(), "c.mp3".to_string()]);
    assert_eq!(track_key("/lib/", "/lib/A\\b.mp3"), "A/b.mp3");
    assert_eq!(track_key("/lib", "/other/x.mp3"), "/other/x.mp3");
    assert!(has_audio_file(&vec!["cover.jpg".to_string(), "x.OPUS".to_string()]));
    assert!(!has_audio_file(&vec!["cover.jpg".to_string()]));
    let keys = vec!["a".to_string(), "b".to_string(), "a".to_string(), "c".to_string(), "b".to_string()];
    assert_eq!(first_occurrences(&keys), vec![true, true, false, true, false]);
    assert_eq!(normalized_path_key("/Music", "/Music/Artist/Album"), "artist/album");
    let names = vec!["b".to_string(), "A".to_string(), "a".to_string(), "Ä".to_string()];
    assert_eq!(listing_order(&names), vec![1, 2, 0, 3]);
}

#[test]
fn cover_file_choice() {
    let names = vec![
        "scan.png".to_string(),
        "Folder.JPG".to_string(),
        "cover.txt".to_string(),
        "back.jpeg".to_string(),
        "Cover.webp".to_string(),
    ];
    assert_eq!(pick_cover_file(&names), Some(4));
    let others = vec!["b.png".to_string(), "a.png".to_string()];
    assert_eq!(pick_cover_file(&others), Some(1));
    assert_eq!(pick_cover_file(&vec!["notes.txt".to_string()]), None);
}

#[test]
fn cover_plan_prefers_embedded_then_cached() {
    let mut with_picture = plain(2, "b");
    with_picture.embedded_cover = Some(EmbeddedCover { mime_type: None, data: vec![9] });
    let tracks = vec![plain(1, "a"), with_picture];
    assert_eq!(plan_album_cover(&tracks, true), CoverPlan::Embedded(1));
    assert_eq!(plan_album_cover(&vec![plain(1, "a")], true), CoverPlan::Cached);
    assert_eq!(plan_album_cover(&vec![], false), CoverPlan::ScanFolder);
}

#[test]
fn cached_cover_names_are_hex_with_extension() {
    let a = cache_cover_filename("/lib/A/cover.jpg", 10);
    let b = cache_cover_filename("/lib/A/cover.jpg", 10);
    assert_eq!(a, b);
    assert!(a.ends_with(".jpg"));
    let stem = a.trim_end_matches(".jpg");
    assert!(!stem.is_empty() && stem.chars().all(|c| c.is_ascii_hexdigit() && !c.is_ascii_uppercase()));
    assert!(cache_cover_filename("/lib/A/cover", 10).ends_with(".img"));
    assert_eq!(
        cache_cover_filename_with_extension("/lib/A/cover.jpg", 10, "jpg"),
        a
    );
    let art = embedded_cover_art("/lib/.grape_cache/covers", "/lib/A/01.mp3", 3, Some("image/PNG"));
    assert_eq!(art.source_path, "/lib/A/01.mp3");
    assert!(art.cached_path.starts_with("/lib/.grape_cache/covers/"));
    assert!(art.cached_path.ends_with(".png"));
    assert_eq!(art.modified_secs, 3);
    let folder = folder_cover_art("/c", "/lib/A/front.webp", 4);
    assert!(folder.cached_path.starts_with("/c/") && folder.cached_path.ends_with(".webp"));
}

#[test]
fn tag_genres_merge_without_case_duplicates() {
    let values = vec!["Rock; pop".to_string(), "ROCK/Jazz".to_string(), " ".to_string()];
    assert_eq!(merge_tag_genres(&values), Some("Rock; pop; Jazz".to_string()));
    assert_eq!(merge_tag_genres(&vec![]), None);
    assert_eq!(merge_tag_genres(&vec![";;".to_string()]), None);
}

#[test]
fn hex_formatting() {
    assert_eq!(hex_string(0), "0");
    assert_eq!(hex_string(255), "ff");
    assert_eq!(hex_string(0x1a2b), "1a2b");
    assert_eq!(hex_string(u64::MAX), "ffffffffffffffff");
}

#[test]
fn cache_paths() {
    assert_eq!(index_path("/lib"), "/lib/.grape_cache/index.json");
    assert_eq!(folder_cache_path("/lib/", "abc"), "/lib/.grape_cache/folders/abc.json");
    assert_eq!(cache_subdir("/lib", "covers"), "/lib/.grape_cache/covers");
    let k1 = album_key("/lib", "/lib/A/B");
    assert_eq!(k1, album_key("/lib/", "/lib/A/B"));
    assert!(k1.chars().all(|c| c.is_ascii_hexdigit()));
    assert!(stale_cache_file("abc.json", &vec!["def".to_string()]));
    assert!(!stale_cache_file("abc.json", &vec!["abc".to_string()]));
    assert!(!stale_cache_file("abc.txt", &vec![]));
    assert!(!stale_cache_file(".json", &vec![]));
}

#[test]
fn cache_index_insert_lookup_retain() {
    let mut index = CacheIndex::new();
    let e1 = signature_of(1000, 5);
    let e2 = signature_of(2000, 6);
    assert_eq!(e1.modified_secs, 5);
    assert_eq!(e1, signature_of(1000, 5));
    index.insert("a.mp3".to_string(), e1);
    index.insert("b.mp3".to_string(), e2);
    assert_eq!(index.lookup("a.mp3"), Some(e1));
    index.insert("a.mp3".to_string(), e2);
    assert_eq!(index.lookup("a.mp3"), Some(e2));
    assert_eq!(index.track_entries().len(), 2);
    index.retain_keys(&vec!["b.mp3".to_string(), "zzz".to_string()]);
    assert_eq!(index.lookup("a.mp3"), None);
    assert_eq!(index.lookup("b.mp3"), Some(e2));
    index.upgrade_version();
    index.set_current_version();
    assert_eq!(index.track_entries().len(), 1);
    assert_eq!(CACHE_VERSION, 4);
}

#[test]
fn track_source_decisions() {
    let sig = TrackEntry { modified_secs: 1, hash: 2 };
    let other = TrackEntry { modified_secs: 1, hash: 3 };
    assert!(sig.matches_signature(&sig));
    assert!(!sig.matches_signature(&other));
    assert_eq!(track_source(Some(sig), Some(sig), Some(sig), true), TrackSource::CachedMetadata);
    assert_eq!(track_source(Some(sig), Some(sig), Some(other), true), TrackSource::Fresh);
    assert_eq!(track_source(Some(sig), Some(sig), None, true), TrackSource::CachedTrack);
    assert_eq!(track_source(Some(sig), Some(sig), None, false), TrackSource::Fresh);
    assert_eq!(track_source(Some(other), Some(sig), Some(sig), true), TrackSource::Fresh);
    assert_eq!(track_source(None, Some(sig), Some(sig), true), TrackSource::Fresh);
    assert_eq!(track_source(Some(sig), None, Some(sig), true), TrackSource::Fresh);
}

#[test]
fn cache_index_read_back_from_file() {
    let e1 = TrackEntry { modified_secs: 1, hash: 10 };
    let e2 = TrackEntry { modified_secs: 2, hash: 20 };
    let entries = vec![
        IndexEntry { key: "a.mp3".to_string(), entry: e1 },
        IndexEntry { key: "b.mp3".to_string(), entry: e1 },
        IndexEntry { key: "a.mp3".to_string(), entry: e2 },
    ];
    let index = CacheIndex::loaded(3, false, entries.clone());
    assert_eq!(index.version_number(), CACHE_VERSION);
    assert_eq!(index.lookup("a.mp3"), Some(e2));
    assert_eq!(index.lookup("b.mp3"), Some(e1));
    assert_eq!(index.track_entries().len(), 2);
    let legacy = CacheIndex::loaded(1, true, entries);
    assert_eq!(legacy.version_number(), CACHE_VERSION);
    assert_eq!(legacy.lookup("a.mp3"), Some(e2));
    assert_eq!(CacheIndex::new().version_number(), 0);
}

#[test]
fn cached_track_found_by_path() {
    let mut a = plain(1, "A");
    a.path = "/lib/A/1.mp3".to_string();
    let mut b = plain(2, "B");
    b.path = "/lib/A/2.mp3".to_string();
    let mut c = plain(3, "C");
    c.path = "/lib/A/1.mp3".to_string();
    let cached = vec![a, b, c];
    assert_eq!(find_cached_track(&cached, "/lib/A/1.mp3"), Some(2));
    assert_eq!(find_cached_track(&cached, "/lib/A/2.mp3"), Some(1));
    assert_eq!(find_cached_track(&cached, "/lib/A/3.mp3"), None);
}

#[test]
fn top_folders_with_audio_are_albums() {
    let album = vec!["cover.jpg".to_string(), "01 - Intro.FLAC".to_string()];
    let artist = vec!["notes.txt".to_string(), "folder.png".to_string()];
    assert_eq!(classify_top_folder(&album), TopFolderKind::Album);
    assert_eq!(classify_top_folder(&artist), TopFolderKind::Artist);
    assert_eq!(classify_top_folder(&vec![]), TopFolderKind::Artist);
}
