use vstd::prelude::*;

verus! {

/// Bit pattern of the double 6.67430e-11, the Newtonian gravitational
/// constant the seed scenario starts from.
pub const NEWTON_G_BITS: u64 = 0x3dd2589effed8acc;

/// Global simulation constants, each the raw bit pattern of an IEEE-754
/// double: the gravitational interaction constant and the dimensionless
/// multiplier that maps wall-clock seconds to simulated seconds.
#[derive(Clone, Copy, PartialEq, Eq, Structural, Debug)]
pub struct SimMetaData {
    pub interaction_constant: u64,
    pub time_scaling: u64,
}

impl SimMetaData {
    /// Metadata with the given constants.
    pub fn new(interaction_constant: u64, time_scaling: u64) -> (m: SimMetaData)
        ensures
            m == (SimMetaData { interaction_constant, time_scaling }),
    {
        SimMetaData { interaction_constant, time_scaling }
    }
}

} // verus!
