//! The visual state: a normalized intensity in fixed point, advanced by each
//! control message and wrapped around at one.
use vstd::prelude::*;

verus! {

/// Fixed-point value of an intensity of one: intensities are counted in
/// millionths.
pub const INTENSITY_ONE: u32 = 1_000_000;

/// Amount a control message adds to the intensity (a tenth).
pub const INTENSITY_STEP: u32 = 100_000;

/// Intensity of a freshly made engine (one half).
pub const INTENSITY_START: u32 = 500_000;

/// The intensity after one update, with or without a message.
pub open spec fn updated_intensity(intensity: nat, has_message: bool) -> nat {
    if has_message {
        ((intensity + INTENSITY_STEP) % (INTENSITY_ONE as int)) as nat
    } else {
        intensity
    }
}

/// The state of the visuals.
pub struct VisualEngine {
    /// Current intensity, in millionths: always below `INTENSITY_ONE`.
    pub intensity: u32,
}

impl VisualEngine {
    pub open spec fn wf(&self) -> bool {
        self.intensity < INTENSITY_ONE
    }

    /// An engine at the starting intensity.
    pub fn new() -> (r: Self)
        ensures
            r.wf(),
            r.intensity == INTENSITY_START,
    {
        VisualEngine { intensity: INTENSITY_START }
    }

    /// Advances the state: a message moves the intensity on by one step,
    /// wrapping around at one; no message leaves it as it is.
    pub fn update(&mut self, packet: Option<rosc::OscPacket>)
        requires
            old(self).wf(),
        ensures
            final(self).wf(),
            final(self).intensity == updated_intensity(old(self).intensity as nat, packet is Some),
    {
        if let Some(_) = packet {
            self.intensity = (self.intensity + INTENSITY_STEP) % INTENSITY_ONE;
        }
    }

    /// The state that a frame shows.
    pub fn render(&self) -> (r: u32)
        ensures
            r == self.intensity,
    {
        self.intensity
    }
}

} // verus!
