//! Filter responses that a biquad filter can take.

use vstd::prelude::*;

verus! {

/// Filter types that a biquad filter can implement.
#[derive(Debug, Clone, Copy, PartialEq, Eq, Structural)]
pub enum FilterType {
    /// Low-pass filter - attenuates frequencies above the cutoff
    LowPass,
    /// High-pass filter - attenuates frequencies below the cutoff
    HighPass,
    /// Band-pass filter - passes frequencies near the center, attenuates others
    BandPass,
    /// Notch/band-reject filter - attenuates frequencies near the center
    Notch,
    /// All-pass filter - passes all frequencies but shifts phase
    AllPass,
}

} // verus!
