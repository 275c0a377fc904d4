//! The full-page playlist view.
use vstd::prelude::*;

verus! {

#[derive(Debug, Clone, Copy, PartialEq, Eq, Structural)]
pub struct PlaylistView;

impl PlaylistView {
    pub fn new() -> (r: Self)
        ensures
            r == PlaylistView,
    {
        PlaylistView
    }
}

} // verus!
