//! A three-color status band shared by every threshold-based metric.
//! Each metric decides its own comparison direction; the band itself is
//! only a label.

use vstd::prelude::*;

verus! {

#[derive(Debug, Clone, Copy, PartialEq, Eq, Structural)]
pub enum ThresholdBand {
    Red,
    Yellow,
    Green,
}

pub open spec fn band_label(b: ThresholdBand) -> Seq<char> {
    match b {
        ThresholdBand::Red => "Red"@,
        ThresholdBand::Yellow => "Yellow"@,
        ThresholdBand::Green => "Green"@,
    }
}

impl ThresholdBand {
    /// The band's name as shown to the user.
    pub fn label(&self) -> (r: &'static str)
        ensures
            r@ == band_label(*self),
    {
        match self {
            ThresholdBand::Red => "Red",
            ThresholdBand::Yellow => "Yellow",
            ThresholdBand::Green => "Green",
        }
    }
}

} // verus!
