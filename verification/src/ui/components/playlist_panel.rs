//! The panel that edits the active playlist.
use vstd::prelude::*;

use crate::player::NowPlaying;

verus! {

#[derive(Debug, Clone)]
pub struct PlaylistPanel {
    name: String,
    name_draft: String,
    items: Vec<NowPlaying>,
}

impl PlaylistPanel {
    pub closed spec fn name(self) -> Seq<char> {
        self.name@
    }

    pub closed spec fn name_draft(self) -> Seq<char> {
        self.name_draft@
    }

    pub closed spec fn items(self) -> Seq<NowPlaying> {
        self.items@
    }

    /// The panel for a playlist, with the name being typed and its items.
    pub fn new(name: &str, name_draft: &str, items: Vec<NowPlaying>) -> (r: Self)
        ensures
            r.name() == name@,
            r.name_draft() == name_draft@,
            r.items() == items@,
    {
        PlaylistPanel { name: name.to_owned(), name_draft: name_draft.to_owned(), items }
    }
}

} // verus!
