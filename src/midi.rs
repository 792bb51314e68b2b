//! MIDI note messages: decoding raw channel-voice bytes and the message
//! record posted to the audio worker.
use vstd::prelude::*;

verus! {

/// Status nibble of a note-on message.
pub const NOTE_ON: u8 = 0x90;

/// Status nibble of a note-off message.
pub const NOTE_OFF: u8 = 0x80;

/// A decoded note event: a key pressed (`pressed`) or released, with the
/// velocity byte that came with it.
#[derive(Clone, Copy, Debug, PartialEq, Eq, Structural)]
pub struct NoteEvent {
    pub pressed: bool,
    pub key: u8,
    pub velocity: u8,
}

/// The event that a raw MIDI message stands for: only three-byte messages
/// whose status nibble is note-on or note-off are notes; the channel (low
/// nibble) is ignored.
pub open spec fn note_event_of(bytes: Seq<u8>) -> Option<NoteEvent> {
    if bytes.len() == 3 && ((bytes[0] & 0xF0u8) == NOTE_ON || (bytes[0] & 0xF0u8) == NOTE_OFF) {
        Some(NoteEvent { pressed: (bytes[0] & 0xF0u8) == NOTE_ON, key: bytes[1], velocity: bytes[2] })
    } else {
        None
    }
}

/// Decodes a raw MIDI message into a note event; any other message (wrong
/// length, another status) gives `None`.
pub fn parse_note_message(bytes: &[u8]) -> (r: Option<NoteEvent>)
    ensures
        r == note_event_of(bytes@),
{
    if bytes.len() != 3 {
        return None;
    }
    let kind = bytes[0] & 0xF0u8;
    if kind != NOTE_ON && kind != NOTE_OFF {
        return None;
    }
    Some(NoteEvent { pressed: kind == NOTE_ON, key: bytes[1], velocity: bytes[2] })
}

/// The note message that the control side posts to the audio worker.
pub struct MidiMessage {
    pub typ: String,
    pub is_active: bool,
    pub note: u8,
    pub velocity: u8,
}

impl MidiMessage {
    /// A message of type `"midi"` carrying one note event.
    pub fn new(is_active: bool, note: u8, velocity: u8) -> (r: MidiMessage)
        ensures
            r.typ@ == "midi"@,
            r.is_active == is_active,
            r.note == note,
            r.velocity == velocity,
    {
        MidiMessage { typ: String::from_str("midi"), is_active, note, velocity }
    }

    /// The note event this message carries.
    pub fn event(&self) -> (r: NoteEvent)
        ensures
            r == (NoteEvent { pressed: self.is_active, key: self.note, velocity: self.velocity }),
    {
        NoteEvent { pressed: self.is_active, key: self.note, velocity: self.velocity }
    }
}

} // verus!
