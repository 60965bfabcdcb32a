use vstd::prelude::*;

verus! {

/// A change of one of the two LEDs on port F (red on PF9, green on PF10;
/// both light when their pin is low).
#[derive(Debug, PartialEq, Eq, Structural, Clone, Copy)]
pub enum LedOp {
    RedLight,
    RedDark,
    GreenLight,
    GreenDark,
}

} // verus!
