use grape::config::UserSettings;
use grape::library::online::{
    api_key_of, cache_usable, cover_download_url, cover_extension_from_url, cover_needs_update,
    enrich_metadata, extract_cover_url, extract_genre, extract_year, metadata_cache_key, metadata_cache_path,
    online_cover_path, parse_year, cover_file_to_check, reply_tags,
    refreshed_entry, should_update_cover, ttl_secs, user_override_of, with_user_override,
    CachedOnlineMetadata, ImageEntry, LastFmMetadata, OnlineMetadata, TagField, TagName,
    UserMetadataOverride,
};
use grape::library::CoverArt;
use grape::paths::{file_name_of, join, relative_path};
use grape::ui::search::{
    apply_limit, codec_matches, duration_matches, move_selection, normalize_text, normalized_contains,
    normalized_query, year_matches,
};

fn cover(path: &str) -> CoverArt {
    CoverArt { source_path: path.to_string(), cached_path: path.to_string(), modified_secs: 0 }
}

#[test]
fn parse_year_takes_first_nonzero_group_of_four() {
    assert_eq!(parse_year("6 Apr 1999, 00:00"), Some(1999));
    assert_eq!(parse_year("0000 2003"), Some(2003));
    assert_eq!(parse_year("12345678"), Some(1234));
    assert_eq!(parse_year("99-12"), None);
    assert_eq!(parse_year(""), None);
    assert_eq!(parse_year("x0042y"), Some(42));
}

#[test]
fn extract_year_prefers_release_date() {
    assert_eq!(extract_year(Some("1 Jan 2001"), Some("2005")), Some(2001));
    assert_eq!(extract_year(Some("none"), Some("2005")), None);
    assert_eq!(extract_year(None, Some("published 2005")), Some(2005));
    assert_eq!(extract_year(None, None), None);
}

#[test]
fn extract_genre_reads_first_named_tag() {
    let list = TagField::List(vec![
        TagName::Absent,
        TagName::Text("  electronic ".to_string()),
        TagName::Text("house".to_string()),
    ]);
    assert_eq!(extract_genre(&list), Some("electronic".to_string()));
    let not_text = TagField::List(vec![TagName::NotText, TagName::Text("x".to_string())]);
    assert_eq!(extract_genre(&not_text), None);
    assert_eq!(extract_genre(&TagField::Object(TagName::Text("jazz".to_string()))), Some("jazz".to_string()));
    assert_eq!(extract_genre(&TagField::Object(TagName::Text("   ".to_string()))), None);
    assert_eq!(extract_genre(&TagField::Missing), None);
    assert_eq!(extract_genre(&TagField::List(vec![])), None);
}

#[test]
fn extract_cover_url_prefers_large_images() {
    let img = |u: Option<&str>, s: Option<&str>| ImageEntry { url: u.map(|x| x.to_string()), size: s.map(|x| x.to_string()) };
    let images = vec![img(Some(" "), Some("mega")), img(Some("http://s"), Some("small")), img(Some("http://xl"), Some("extralarge"))];
    assert_eq!(extract_cover_url(&Some(images)), Some("http://xl".to_string()));
    let small_only = vec![img(None, Some("mega")), img(Some(" http://s "), Some("small")), img(Some("http://m"), None)];
    assert_eq!(extract_cover_url(&Some(small_only)), Some("http://s".to_string()));
    assert_eq!(extract_cover_url(&Some(vec![])), None);
    assert_eq!(extract_cover_url(&None), None);
}

#[test]
fn cover_extension_from_urls() {
    assert_eq!(cover_extension_from_url("https://x.org/a/b/cover.png?size=3"), "png");
    assert_eq!(cover_extension_from_url("https://x.org/a/b/cover"), "jpg");
    assert_eq!(cover_extension_from_url("https://x.org/a/b.webp/"), "webp");
    assert_eq!(cover_extension_from_url("https://x.org/img/.hidden"), "jpg");
    assert_eq!(cover_extension_from_url(""), "jpg");
}

#[test]
fn file_names_of_paths() {
    assert_eq!(file_name_of("/a/b/c.txt"), Some("c.txt".to_string()));
    assert_eq!(file_name_of("/a/b/"), Some("b".to_string()));
    assert_eq!(file_name_of("/a/b/."), Some("b".to_string()));
    assert_eq!(file_name_of("/a/.."), None);
    assert_eq!(file_name_of("/"), None);
    assert_eq!(file_name_of("."), None);
    assert_eq!(join("/a", "b"), "/a/b");
    assert_eq!(join("/a/", "b"), "/a/b");
    assert_eq!(join("", "b"), "b");
    assert_eq!(relative_path("/lib", "/lib"), "");
    assert_eq!(relative_path("/lib", "/library/x"), "/library/x");
}

#[test]
fn cache_key_ignores_case_and_spaces() {
    let a = metadata_cache_key(" Daft Punk ", "Homework");
    let b = metadata_cache_key("daft punk", " HOMEWORK");
    assert_eq!(a, b);
    assert_ne!(a, metadata_cache_key("daft punk", "discovery"));
    assert!(a.chars().all(|c| c.is_ascii_hexdigit()));
}

#[test]
fn cover_update_decisions() {
    let mut m = OnlineMetadata::default();
    assert!(cover_needs_update(&m, false, true));
    m.cover_checked = true;
    assert!(!cover_needs_update(&m, false, true));
    assert!(cover_needs_update(&m, true, true));
    m.cover = Some(cover("/nowhere/at/all.jpg"));
    assert!(cover_needs_update(&m, false, false));
    assert!(!cover_needs_update(&m, false, true));
    assert!(should_update_cover(&m, false));
    assert!(should_update_cover(&m, true));
    let fm = LastFmMetadata { genre: None, year: None, cover_url: Some("http://c".to_string()) };
    assert_eq!(cover_download_url(&m, &fm, false, false), Some("http://c".to_string()));
    assert_eq!(cover_download_url(&m, &fm, false, true), None);
}

#[test]
fn enrichment_fills_gaps_only() {
    let base = OnlineMetadata { genre: Some("Rock".to_string()), year: None, cover: None, cover_checked: false };
    let fm = LastFmMetadata { genre: Some("Jazz".to_string()), year: Some(1959), cover_url: None };
    let m = enrich_metadata(base.clone(), fm.clone(), None);
    assert_eq!(m.genre, Some("Rock".to_string()));
    assert_eq!(m.year, Some(1959));
    assert!(m.cover_checked);
    let with_cover = enrich_metadata(base, fm, Some(Some(cover("/c.jpg"))));
    assert_eq!(with_cover.cover, Some(cover("/c.jpg")));
}

#[test]
fn cached_reply_freshness() {
    let entry = CachedOnlineMetadata {
        fetched_at: 1000,
        metadata: OnlineMetadata { genre: None, year: None, cover: None, cover_checked: true },
        user_override: None,
    };
    assert_eq!(ttl_secs(24), 86_400);
    assert!(cache_usable(&entry, 1500, 3600, false));
    assert!(!cache_usable(&entry, 5000, 3600, false));
    assert!(!cache_usable(&entry, 1500, 0, false));
    assert!(cache_usable(&entry, 10, 3600, false));
    let mut unchecked = entry.clone();
    unchecked.metadata.cover_checked = false;
    assert!(!cache_usable(&unchecked, 1500, 3600, false));
    unchecked.metadata.cover = Some(cover("/c.jpg"));
    assert!(cache_usable(&unchecked, 1500, 3600, true));
}

#[test]
fn user_override_entries() {
    let edit = UserMetadataOverride::edited(Some("Blues".to_string()), Some(1970));
    assert!(edit.genre_overridden && edit.year_overridden);
    assert_eq!(edit.edited_at, 0);
    let fresh = with_user_override(None, edit.clone(), 42);
    assert_eq!(fresh.fetched_at, 0);
    assert_eq!(fresh.metadata, OnlineMetadata::default());
    assert_eq!(fresh.user_override.as_ref().unwrap().edited_at, 42);
    let refreshed = refreshed_entry(Some(fresh.clone()), OnlineMetadata::default(), 99);
    assert_eq!(refreshed.fetched_at, 99);
    assert_eq!(refreshed.user_override.as_ref().unwrap().genre, Some("Blues".to_string()));
    assert_eq!(user_override_of(Some(refreshed)).unwrap().year, Some(1970));
    assert!(user_override_of(None).is_none());
}

#[test]
fn api_key_is_trimmed() {
    let mut s = UserSettings::default();
    assert_eq!(api_key_of(&s), None);
    s.metadata_api_key = "  abc ".to_string();
    assert_eq!(api_key_of(&s), Some("abc".to_string()));
}

#[test]
fn normalization_drops_accents_and_case() {
    assert_eq!(normalize_text("Éclat"), "eclat");
    assert_eq!(normalize_text("Ｂjörk"), "bjork");
    assert!(normalized_contains("bjo", "Björk"));
    assert!(!normalized_contains("bjö", "Björk"));
    assert!(normalized_contains("", "anything"));
    assert_eq!(normalized_query("  Déjà "), Some("deja".to_string()));
    assert_eq!(normalized_query("   "), None);
    assert!(codec_matches("flac", Some("FLAC")));
    assert!(!codec_matches("flac", None));
}

#[test]
fn year_and_duration_matching() {
    assert!(year_matches("99", Some(1999)));
    assert!(!year_matches("2000", Some(1999)));
    assert!(!year_matches("1", None));
    assert!(duration_matches("3725", 3725));
    assert!(duration_matches("62", 3725));
    assert!(duration_matches("02:05", 3725));
    assert!(duration_matches("1:02:05", 3725));
    assert!(!duration_matches("9:99", 3725));
    assert!(duration_matches("00:07", 7));
}

#[test]
fn selection_moves_within_bounds() {
    let ids = vec![10, 20, 30, 40];
    assert_eq!(move_selection(&ids, Some(20), 1), Some(2));
    assert_eq!(move_selection(&ids, Some(20), 10), Some(3));
    assert_eq!(move_selection(&ids, Some(20), -5), Some(0));
    assert_eq!(move_selection(&ids, None, 2), Some(2));
    assert_eq!(move_selection(&ids, Some(99), 0), Some(0));
    assert_eq!(move_selection(&ids, Some(40), isize::MIN), Some(0));
    assert_eq!(move_selection(&ids, Some(10), isize::MAX), Some(3));
    assert_eq!(move_selection(&vec![], Some(1), 1), None);
    let (kept, total) = apply_limit(vec![1, 2, 3], 2);
    assert_eq!((kept, total), (vec![1, 2], 3));
    let (kept, total) = apply_limit(vec![1, 2, 3], 9);
    assert_eq!((kept, total), (vec![1, 2, 3], 3));
}

#[test]
fn metadata_and_online_cover_paths() {
    let key = metadata_cache_key(" Artist ", "Album");
    assert_eq!(metadata_cache_path("/lib/.grape_cache/metadata", " Artist ", "Album"), format!("/lib/.grape_cache/metadata/{key}.json"));
    assert_eq!(metadata_cache_path("/m", "artist", "album"), format!("/m/{key}.json"));
    assert_eq!(online_cover_path("/lib/.grape_cache/covers", "abc", "png"), "/lib/.grape_cache/covers/online-abc.png");
}

#[test]
fn relative_paths_follow_components() {
    assert_eq!(relative_path("/music", "/music//a/b"), "a/b");
    assert_eq!(relative_path("/music/", "/music/a/b/"), "a/b");
    assert_eq!(relative_path("/music", "/music/./a"), "a");
    assert_eq!(relative_path("./lib", "./lib/x"), "x");
    assert_eq!(relative_path("lib", "./lib/x"), "./lib/x");
    assert_eq!(relative_path("/", "/a"), "a");
    assert_eq!(relative_path("", "/a/b/"), "/a/b");
    assert_eq!(relative_path("/music", "/musicx/a"), "/musicx/a");
    assert_eq!(relative_path("/music/a", "/music"), "/music");
    assert_eq!(relative_path("/music", "music/a"), "music/a");
}

#[test]
fn reply_tags_prefer_toptags() {
    let top = TagField::Object(TagName::Text("Rock".to_string()));
    let other = TagField::Object(TagName::Text("Pop".to_string()));
    assert_eq!(extract_genre(&reply_tags(Some(top.clone()), Some(other.clone()))), Some("Rock".to_string()));
    assert_eq!(extract_genre(&reply_tags(None, Some(other))), Some("Pop".to_string()));
    assert_eq!(extract_genre(&reply_tags(Some(TagField::Missing), Some(top))), None);
    assert_eq!(extract_genre(&reply_tags(None, None)), None);
}

#[test]
fn cover_file_checked_only_without_forced_refresh() {
    let mut m = OnlineMetadata::default();
    assert_eq!(cover_file_to_check(&m, false), None);
    m.cover = Some(CoverArt { source_path: "s".to_string(), cached_path: "/c.jpg".to_string(), modified_secs: 0 });
    assert_eq!(cover_file_to_check(&m, false), Some("/c.jpg".to_string()));
    assert_eq!(cover_file_to_check(&m, true), None);
}
