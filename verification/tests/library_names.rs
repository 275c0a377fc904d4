use grape::library::names::{
    cover_priority, embedded_cover_extension, is_audio_file, is_image_file, parse_album_folder,
    parse_track_filename, root_album_title, split_genre_field,
};

#[test]
fn parse_track_filename_extracts_number_and_title() {
    let (number, title) = parse_track_filename("01 - Lumiere");
    assert_eq!(number, Some(1));
    assert_eq!(title, "Lumiere");

    let (number, title) = parse_track_filename("7_Titre");
    assert_eq!(number, Some(7));
    assert_eq!(title, "Titre");

    let (number, title) = parse_track_filename("Sans numero");
    assert_eq!(number, None);
    assert_eq!(title, "Sans numero");
}

#[test]
fn parse_track_filename_keeps_title_when_only_digits() {
    let (number, title) = parse_track_filename("  42  ");
    assert_eq!(number, Some(42));
    assert_eq!(title, "42");
}

#[test]
fn parse_track_filename_number_too_large_for_u8() {
    let (number, title) = parse_track_filename("300. Grand");
    assert_eq!(number, None);
    assert_eq!(title, "Grand");
}

#[test]
fn parse_album_folder_reads_year_and_title() {
    assert_eq!(parse_album_folder("2003 - Album Name"), (2003, "Album Name".to_string()));
    assert_eq!(parse_album_folder("2022_Suite"), (2022, "Suite".to_string()));
    assert_eq!(parse_album_folder("Album sans annee"), (0, "Album sans annee".to_string()));
    assert_eq!(parse_album_folder("99 Problems"), (0, "99 Problems".to_string()));
    assert_eq!(parse_album_folder("1999"), (1999, "1999".to_string()));
    assert_eq!(parse_album_folder("70000 - Big"), (0, "70000 - Big".to_string()));
}

#[test]
fn audio_and_image_extensions() {
    assert!(is_audio_file("01 - Intro.mp3"));
    assert!(is_audio_file("02 - Suite.FLAC"));
    assert!(is_audio_file("a.wav"));
    assert!(!is_audio_file("notes.txt"));
    assert!(!is_audio_file(".mp3"));
    assert!(!is_audio_file("mp3"));
    assert!(is_image_file("cover.JPG"));
    assert!(is_image_file("front.webp"));
    assert!(!is_image_file("cover.gif"));
}

#[test]
fn cover_priority_ranks_known_names() {
    assert_eq!(cover_priority("cover"), 0);
    assert_eq!(cover_priority("folder"), 1);
    assert_eq!(cover_priority("front"), 2);
    assert_eq!(cover_priority("artwork"), 3);
    assert_eq!(cover_priority("album"), 4);
    assert_eq!(cover_priority("scan"), 5);
}

#[test]
fn embedded_cover_extension_from_mime() {
    assert_eq!(embedded_cover_extension(Some("image/JPEG")), "jpg");
    assert_eq!(embedded_cover_extension(Some("image/jpg")), "jpg");
    assert_eq!(embedded_cover_extension(Some("image/png")), "png");
    assert_eq!(embedded_cover_extension(Some("image/webp")), "webp");
    assert_eq!(embedded_cover_extension(Some("image/gif")), "img");
    assert_eq!(embedded_cover_extension(None), "img");
}

#[test]
fn root_album_title_falls_back() {
    assert_eq!(root_album_title(Some(" Musique "), "/home/me/Musique"), "Musique");
    assert_eq!(root_album_title(Some("   "), "/srv/lib"), "/srv/lib");
    assert_eq!(root_album_title(None, "  "), "Library");
}

#[test]
fn split_genre_field_splits_and_trims() {
    assert_eq!(
        split_genre_field("Rock; Pop / Jazz ,, |Blues\\Soul"),
        vec!["Rock", "Pop", "Jazz", "Blues", "Soul"]
    );
    assert!(split_genre_field(" ; / ").is_empty());
}
