use vstd::prelude::*;

verus! {

/// Status byte announcing a note-off event.
pub const NOTE_OFF_STATUS: u8 = 128;

/// Status byte announcing a note-on event.
pub const NOTE_ON_STATUS: u8 = 144;

/// A decoded note event: which action to take and the pitch it names.
#[derive(Copy, Clone, Debug, PartialEq, Eq, Structural)]
pub enum NoteEvent {
    On(u8),
    Off(u8),
}

/// The event a raw 3-byte message denotes: the status byte selects
/// on/off, the second byte carries the pitch, and any other status is
/// ignored.
pub open spec fn decode_spec(status: u8, pitch: u8) -> Option<NoteEvent> {
    if status == NOTE_OFF_STATUS {
        Some(NoteEvent::Off(pitch))
    } else if status == NOTE_ON_STATUS {
        Some(NoteEvent::On(pitch))
    } else {
        None
    }
}

/// Decode one raw 3-byte event message.
pub fn decode_midi_event(data: [u8; 3]) -> (e: Option<NoteEvent>)
    ensures
        e == decode_spec(data@[0], data@[1]),
{
    match data[0] {
        128 => Some(NoteEvent::Off(data[1])),
        144 => Some(NoteEvent::On(data[1])),
        _ => None,
    }
}

} // verus!
