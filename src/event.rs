use vstd::prelude::*;

verus! {

/// A channel-voice event that the core reacts to. Other device events are
/// dropped before they reach the library.
#[derive(Clone, Copy, Debug, PartialEq, Eq, Structural)]
pub enum NoteEvent {
    NoteOn { pitch: u8, velocity: u8 },
    NoteOff { pitch: u8, velocity: u8 },
}

/// Where an event on the output path came from.
#[derive(Clone, Copy, Debug, PartialEq, Eq, Structural)]
pub enum Source {
    Human,
    Ai,
}

impl NoteEvent {
    pub open spec fn pitch_spec(self) -> u8 {
        match self {
            NoteEvent::NoteOn { pitch, .. } => pitch,
            NoteEvent::NoteOff { pitch, .. } => pitch,
        }
    }

    pub open spec fn velocity_spec(self) -> u8 {
        match self {
            NoteEvent::NoteOn { velocity, .. } => velocity,
            NoteEvent::NoteOff { velocity, .. } => velocity,
        }
    }

    /// Whether the event starts a sounding note. For phrase capture a note-on
    /// with velocity zero counts as a release, as MIDI devices use it.
    pub open spec fn starts_sound(self) -> bool {
        self is NoteOn && self.velocity_spec() > 0
    }

    pub fn pitch(&self) -> (r: u8)
        ensures
            r == self.pitch_spec(),
    {
        match self {
            NoteEvent::NoteOn { pitch, .. } => *pitch,
            NoteEvent::NoteOff { pitch, .. } => *pitch,
        }
    }

    pub fn velocity(&self) -> (r: u8)
        ensures
            r == self.velocity_spec(),
    {
        match self {
            NoteEvent::NoteOn { velocity, .. } => *velocity,
            NoteEvent::NoteOff { velocity, .. } => *velocity,
        }
    }

    pub fn is_sounding(&self) -> (r: bool)
        ensures
            r == self.starts_sound(),
    {
        match self {
            NoteEvent::NoteOn { velocity, .. } => *velocity > 0,
            NoteEvent::NoteOff { .. } => false,
        }
    }
}

} // verus!
