//! The full-page view of the play queue.
use vstd::prelude::*;

verus! {

#[derive(Debug, Clone, Copy, PartialEq, Eq, Structural)]
pub struct QueueView;

impl QueueView {
    pub fn new() -> (r: Self)
        ensures
            r == QueueView,
    {
        QueueView
    }
}

} // verus!
