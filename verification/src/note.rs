//! The twelve notes of the octave.

use vstd::prelude::*;

verus! {

/// A note of the chromatic scale, counted upwards from A.
#[derive(Copy, Clone, PartialEq, Eq, Structural, Debug)]
pub enum Note {
    A,
    As,
    B,
    C,
    Cs,
    D,
    Ds,
    E,
    F,
    Fs,
    G,
    Gs,
}

impl Note {
    /// How many semitones the note lies above A.
    pub open spec fn steps(self) -> nat {
        match self {
            Note::A => 0,
            Note::As => 1,
            Note::B => 2,
            Note::C => 3,
            Note::Cs => 4,
            Note::D => 5,
            Note::Ds => 6,
            Note::E => 7,
            Note::F => 8,
            Note::Fs => 9,
            Note::G => 10,
            Note::Gs => 11,
        }
    }

    /// How many semitones the note lies above A: the twelfths of an octave
    /// by which its frequency is raised.
    pub fn semitone(self) -> (n: u8)
        ensures
            n == self.steps(),
            n < 12,
    {
        match self {
            Note::A => 0,
            Note::As => 1,
            Note::B => 2,
            Note::C => 3,
            Note::Cs => 4,
            Note::D => 5,
            Note::Ds => 6,
            Note::E => 7,
            Note::F => 8,
            Note::Fs => 9,
            Note::G => 10,
            Note::Gs => 11,
        }
    }
}

} // verus!
