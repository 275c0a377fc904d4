//! The music library: catalog model, scanning decisions and metadata merging.
pub mod album;
pub mod cache;
pub mod catalog;
pub mod covers;
pub mod metadata;
pub mod names;
pub mod online;
pub mod scan;
pub mod sorting;
pub mod tally;

use vstd::prelude::*;

verus! {

/// Artists, each with albums, each with tracks.
#[derive(Debug, Clone, PartialEq)]
pub struct Catalog {
    pub artists: Vec<Artist>,
}

#[derive(Debug, Clone, PartialEq, Eq)]
pub struct GenreSummary {
    pub name: String,
    pub track_count: usize,
}

#[derive(Debug, Clone, PartialEq, Eq)]
pub struct FolderSummary {
    pub name: String,
    pub track_count: usize,
}

#[derive(Debug, Clone, PartialEq)]
pub struct Artist {
    pub name: String,
    pub albums: Vec<Album>,
    pub genre: Option<String>,
}

#[derive(Debug, Clone, PartialEq)]
pub struct Album {
    pub title: String,
    pub year: u16,
    pub tracks: Vec<Track>,
    pub genre: Option<String>,
    pub path: String,
    pub total_duration_secs: u32,
    pub cover: Option<CoverArt>,
}

#[derive(Debug, Clone, PartialEq)]
pub struct Track {
    pub number: u8,
    pub title: String,
    pub duration_secs: u32,
    pub duration_millis: Option<u64>,
    pub bitrate_kbps: Option<u32>,
    pub codec: Option<String>,
    pub path: String,
    pub track_artist: Option<String>,
    pub artist: Option<String>,
    pub year: Option<u16>,
    pub genre: Option<String>,
    pub embedded_cover: Option<EmbeddedCover>,
}

/// A cover image copied into the cache.
#[derive(Debug, Clone, PartialEq)]
pub struct CoverArt {
    pub source_path: String,
    pub cached_path: String,
    pub modified_secs: u64,
}

/// A picture stored inside an audio file.
#[derive(Debug, Clone, PartialEq)]
pub struct EmbeddedCover {
    pub mime_type: Option<String>,
    pub data: Vec<u8>,
}

/// Artist name used when no track names one.
pub open spec fn unknown_artist_name() -> Seq<char> {
    "Unknown Artist"@
}

/// Which album fields a user edit has fixed.
#[derive(Debug, Clone, Copy, Default, PartialEq, Eq, Structural)]
pub struct MetadataLocks {
    pub genre: bool,
    pub year: bool,
}

} // verus!
