use vstd::prelude::*;

verus! {

/// Ten-thousandths of a semitone per MIDI unit.
pub const MIDI_SCALE: i32 = 10000;

/// Millionths per unit of amplitude.
pub const AMPLITUDE_SCALE: i32 = 1000000;

/// A pitch, given both as a frequency (in millihertz) and as a continuous
/// MIDI number (in ten-thousandths of a semitone, 69 * MIDI_SCALE being A4).
#[derive(Debug, Clone, Copy)]
pub struct Pitch {
    frequency: u32,
    midi: i32,
}

impl Pitch {
    pub closed spec fn frequency_spec(&self) -> u32 {
        self.frequency
    }

    pub closed spec fn midi_spec(&self) -> i32 {
        self.midi
    }

    /// A pitch from a frequency and the MIDI number that goes with it.
    pub fn new(frequency: u32, midi: i32) -> (r: Pitch)
        ensures
            r.frequency_spec() == frequency,
            r.midi_spec() == midi,
    {
        Pitch { frequency, midi }
    }

    pub fn midi(&self) -> (r: i32)
        ensures
            r == self.midi_spec(),
    {
        self.midi
    }

    pub fn frequency(&self) -> (r: u32)
        ensures
            r == self.frequency_spec(),
    {
        self.frequency
    }
}

/// Two pitches are equal when their frequencies are.
impl PartialEq for Pitch {
    fn eq(&self, other: &Pitch) -> (r: bool) {
        self.frequency == other.frequency
    }
}

impl vstd::std_specs::cmp::PartialEqSpecImpl for Pitch {
    open spec fn obeys_eq_spec() -> bool {
        true
    }

    open spec fn eq_spec(&self, other: &Pitch) -> bool {
        self.frequency_spec() == other.frequency_spec()
    }
}

} // verus!
