//! Equalizer layouts.
use vstd::prelude::*;

verus! {

#[derive(Debug, Clone, Copy, PartialEq, Eq, Structural)]
pub enum EqBandCount {
    Three,
    Five,
}

impl Default for EqBandCount {
    fn default() -> (r: Self)
        ensures
            r == EqBandCount::Five,
    {
        EqBandCount::Five
    }
}

impl EqBandCount {
    /// Number of bands of the layout.
    pub fn band_count(self) -> (r: usize)
        ensures
            r == (match self {
                EqBandCount::Three => 3usize,
                EqBandCount::Five => 5usize,
            }),
    {
        match self {
            EqBandCount::Three => 3,
            EqBandCount::Five => 5,
        }
    }
}

} // verus!
