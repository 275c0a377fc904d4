//! What the tags of an audio file tell about a track, and how the genre
//! fields of its tags combine into one.
use vstd::prelude::*;

use crate::library::album::lowercase_all;
use crate::library::names::{split_genre_field, split_genres};
use crate::library::tally::{find_key, views};
use crate::library::EmbeddedCover;
use crate::text::{chars_of, lowercase, string_from_chars, to_lowercase};
use crate::ui::cells::push_chars;

verus! {

/// Tag values of one audio file; each is missing when the file does not say.
#[derive(Debug, Clone)]
pub struct TrackMetadata {
    pub duration_secs: Option<u32>,
    pub duration_millis: Option<u64>,
    pub bitrate_kbps: Option<u32>,
    pub codec: Option<String>,
    pub track_number: Option<u8>,
    pub title: Option<String>,
    pub track_artist: Option<String>,
    pub artist: Option<String>,
    pub year: Option<u16>,
    pub genre: Option<String>,
    pub embedded_cover: Option<EmbeddedCover>,
}

pub open spec fn no_metadata(m: TrackMetadata) -> bool {
    &&& m.duration_secs is None
    &&& m.duration_millis is None
    &&& m.bitrate_kbps is None
    &&& m.codec is None
    &&& m.track_number is None
    &&& m.title is None
    &&& m.track_artist is None
    &&& m.artist is None
    &&& m.year is None
    &&& m.genre is None
    &&& m.embedded_cover is None
}

impl Default for TrackMetadata {
    fn default() -> (r: Self)
        ensures
            no_metadata(r),
    {
        TrackMetadata {
            duration_secs: None,
            duration_millis: None,
            bitrate_kbps: None,
            codec: None,
            track_number: None,
            title: None,
            track_artist: None,
            artist: None,
            year: None,
            genre: None,
            embedded_cover: None,
        }
    }
}

/// The genres of all the genre values of the tags, in order.
pub open spec fn tag_genre_pieces(values: Seq<Seq<char>>) -> Seq<Seq<char>>
    decreases values.len(),
{
    if values.len() == 0 {
        Seq::empty()
    } else {
        tag_genre_pieces(values.drop_last()) + split_genres(values.last())
    }
}

/// Each genre kept the first time its lower-case form appears.
pub open spec fn distinct_genres(pieces: Seq<Seq<char>>) -> Seq<Seq<char>>
    decreases pieces.len(),
{
    if pieces.len() == 0 {
        Seq::empty()
    } else {
        let before = distinct_genres(pieces.drop_last());
        if lowercase_all(before).contains(lowercase(pieces.last())) {
            before
        } else {
            before.push(pieces.last())
        }
    }
}

/// Genres joined with `; ` between them.
pub open spec fn join_genres(gs: Seq<Seq<char>>) -> Seq<char>
    decreases gs.len(),
{
    if gs.len() == 0 {
        Seq::empty()
    } else if gs.len() == 1 {
        gs[0]
    } else {
        join_genres(gs.drop_last()) + seq![';', ' '] + gs.last()
    }
}

/// The genre of a file from the genre values of its tags: every genre they
/// name, once regardless of case, joined with `; `; none when they name none.
pub open spec fn merged_tag_genre(values: Seq<Seq<char>>) -> Option<Seq<char>> {
    let gs = distinct_genres(tag_genre_pieces(values));
    if gs.len() == 0 {
        None
    } else {
        Some(join_genres(gs))
    }
}

proof fn lemma_join_genres_push(gs: Seq<Seq<char>>, x: Seq<char>)
    requires
        gs.len() >= 1,
    ensures
        join_genres(gs.push(x)) == join_genres(gs) + seq![';', ' '] + x,
{
    assert(gs.push(x).drop_last() =~= gs);
}

/// Combines the genre values read from the tags of one file.
pub fn merge_tag_genres(values: &Vec<String>) -> (r: Option<String>)
    ensures
        match merged_tag_genre(values@.map_values(|v: String| v@)) {
            Some(g) => r is Some && r.unwrap()@ == g,
            None => r is None,
        },
{
    let ghost vals = values@.map_values(|v: String| v@);
    let mut kept: Vec<Vec<char>> = Vec::new();
    let mut seen: Vec<Vec<char>> = Vec::new();
    let mut out: Vec<char> = Vec::new();
    let mut i: usize = 0;
    proof {
        assert(vals.take(0) =~= Seq::<Seq<char>>::empty());
        assert(lowercase_all(Seq::<Seq<char>>::empty()) =~= Seq::<Seq<char>>::empty());
    }
    while i < values.len()
        invariant
            i <= values.len(),
            vals == values@.map_values(|v: String| v@),
            views(kept@) == distinct_genres(tag_genre_pieces(vals.take(i as int))),
            views(seen@) == lowercase_all(views(kept@)),
            kept.len() == 0 ==> out@.len() == 0,
            kept.len() > 0 ==> out@ == join_genres(views(kept@)),
        decreases values.len() - i,
    {
        let parts = split_genre_field(values[i].as_str());
        let ghost toks = parts@.map_values(|p: String| p@);
        let ghost base = tag_genre_pieces(vals.take(i as int));
        proof {
            assert(vals.take(i + 1).drop_last() =~= vals.take(i as int));
            assert(vals.take(i + 1).last() == values@[i as int]@);
        }
        let mut k: usize = 0;
        proof {
            assert(base + toks.take(0) =~= base);
        }
        while k < parts.len()
            invariant
                k <= parts.len(),
                toks == parts@.map_values(|p: String| p@),
                views(kept@) == distinct_genres(base + toks.take(k as int)),
                views(seen@) == lowercase_all(views(kept@)),
                kept.len() == 0 ==> out@.len() == 0,
                kept.len() > 0 ==> out@ == join_genres(views(kept@)),
            decreases parts.len() - k,
        {
            let g = chars_of(parts[k].as_str());
            let lower = chars_of(to_lowercase(parts[k].as_str()).as_str());
            let ghost pieces = base + toks.take(k + 1);
            proof {
                assert(toks[k as int] == g@);
                assert(pieces.drop_last() =~= base + toks.take(k as int));
                assert(pieces.last() == g@);
            }
            match find_key(&seen, &lower) {
                Some(m) => {
                    proof {
                        assert(views(seen@)[m as int] == seen@[m as int]@);
                        assert(lowercase_all(views(kept@))[m as int] == lowercase(g@));
                        assert(lowercase_all(views(kept@)).contains(lowercase(g@)));
                    }
                },
                None => {
                    proof {
                        assert(!lowercase_all(views(kept@)).contains(lowercase(g@))) by {
                            if lowercase_all(views(kept@)).contains(lowercase(g@)) {
                                let m = choose|m: int|
                                    0 <= m < lowercase_all(views(kept@)).len() && lowercase_all(
                                        views(kept@),
                                    )[m] == lowercase(g@);
                                assert(views(seen@)[m] == seen@[m]@);
                            }
                        }
                    }
                    let ghost before = views(kept@);
                    if kept.len() > 0 {
                        out.push(';');
                        out.push(' ');
                        proof {
                            lemma_join_genres_push(before, g@);
                        }
                    }
                    push_chars(&mut out, &g);
                    kept.push(g);
                    seen.push(lower);
                    proof {
                        assert(views(kept@) =~= before.push(g@));
                        assert(lowercase_all(views(kept@)) =~= lowercase_all(before).push(lowercase(g@)));
                        assert(views(seen@) =~= lowercase_all(views(kept@)));
                        if before.len() == 0 {
                            assert(out@ =~= join_genres(views(kept@)));
                        }
                    }
                },
            }
            k = k + 1;
        }
        proof {
            assert(toks.take(parts.len() as int) =~= toks);
        }
        i = i + 1;
    }
    proof {
        assert(vals.take(values.len() as int) =~= vals);
    }
    if kept.len() == 0 {
        None
    } else {
        Some(string_from_chars(&out))
    }
}

} // verus!
