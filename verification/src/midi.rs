//! Note events as they arrive from a MIDI input.

use vstd::prelude::*;

verus! {

/// What a status byte asks of the synthesizer.
#[derive(Clone, Copy, Debug, PartialEq, Eq, Structural)]
pub enum EventKind {
    /// Start a note: the upper four bits of the status byte are `0x9`.
    NoteOn,
    /// Stop a note: the upper four bits of the status byte are `0x8`.
    NoteOff,
    /// Anything else; the synthesizer ignores it.
    Other,
}

/// The kind of event that a status byte announces. The lower four bits carry
/// the channel and do not matter.
pub open spec fn kind_of(status: u8) -> EventKind {
    if 0x90 <= status <= 0x9f {
        EventKind::NoteOn
    } else if 0x80 <= status <= 0x8f {
        EventKind::NoteOff
    } else {
        EventKind::Other
    }
}

/// Classifies a status byte by its upper four bits.
pub fn classify(status: u8) -> (kind: EventKind)
    ensures
        kind == kind_of(status),
{
    let high: u8 = status & 0xf0;
    assert(high == 0x90u8 <==> 0x90u8 <= status <= 0x9fu8) by (bit_vector)
        requires
            high == status & 0xf0,
    ;
    assert(high == 0x80u8 <==> 0x80u8 <= status <= 0x8fu8) by (bit_vector)
        requires
            high == status & 0xf0,
    ;
    if high == 0x90 {
        EventKind::NoteOn
    } else if high == 0x80 {
        EventKind::NoteOff
    } else {
        EventKind::Other
    }
}

/// One event from the input: the status byte and its two data bytes, as
/// received.
#[derive(Clone, Copy, Debug, PartialEq, Eq, Structural)]
pub struct NoteEvent {
    /// Kind of event in the upper four bits, channel in the lower four.
    pub status: u8,
    /// First data byte: the note number.
    pub data1: u8,
    /// Second data byte: the velocity, which the synthesizer does not use.
    pub data2: u8,
}

impl NoteEvent {
    /// An event from its three bytes.
    pub fn new(status: u8, data1: u8, data2: u8) -> (event: NoteEvent)
        ensures
            event == (NoteEvent { status, data1, data2 }),
    {
        NoteEvent { status, data1, data2 }
    }

    /// The kind of this event.
    pub open spec fn spec_kind(&self) -> EventKind {
        kind_of(self.status)
    }

    /// The note that this event is about.
    pub open spec fn spec_note(&self) -> u8 {
        self.data1
    }

    /// The kind of this event.
    #[verifier::when_used_as_spec(spec_kind)]
    pub fn kind(&self) -> (kind: EventKind)
        ensures
            kind == self.spec_kind(),
    {
        classify(self.status)
    }

    /// The note that this event is about.
    #[verifier::when_used_as_spec(spec_note)]
    pub fn note(&self) -> (note: u8)
        ensures
            note == self.spec_note(),
    {
        self.data1
    }
}

} // verus!
