//! The two musical events the engine reacts to, and how they are read from the
//! bytes of a MIDI message.

use vstd::prelude::*;

verus! {

/// What a MIDI message means to the engine.
#[derive(Clone, Copy, Debug, PartialEq, Eq, Structural)]
pub enum MidiEvent {
    /// A note started: pitch and velocity.
    NoteOn(u8, u8),
    /// A note ended: pitch.
    NoteOff(u8),
    /// Any other message, and any byte string that is no message.
    Other,
}

/// Whether `bytes` starts with a status byte of the family `family` (its high
/// nibble), followed by two data bytes.
pub open spec fn voice_message(bytes: Seq<u8>, family: u8) -> bool {
    &&& bytes.len() >= 3
    &&& family <= bytes[0] <= family + 0x0F
    &&& bytes[1] < 0x80
    &&& bytes[2] < 0x80
}

/// The event that a MIDI message stands for. A note-on with velocity zero is
/// a note-off.
pub open spec fn midi_event(bytes: Seq<u8>) -> MidiEvent {
    if voice_message(bytes, 0x90) && bytes[2] != 0 {
        MidiEvent::NoteOn(bytes[1], bytes[2])
    } else if voice_message(bytes, 0x90) || voice_message(bytes, 0x80) {
        MidiEvent::NoteOff(bytes[1])
    } else {
        MidiEvent::Other
    }
}

/// Parses `bytes` with `wmidi::MidiMessage::try_from` and keeps the pitch and
/// velocity of a note-on and the pitch of a note-off. The parser yields a
/// note message exactly for a status byte `0x8n` or `0x9n` followed by two
/// bytes below `0x80`, and reads `0x9n` with velocity zero as a note-off.
#[verifier::external_body]
pub(crate) fn decode(bytes: &[u8]) -> (event: MidiEvent)
    ensures
        event == midi_event(bytes@),
{
    match wmidi::MidiMessage::try_from(bytes) {
        Ok(wmidi::MidiMessage::NoteOn(_, note, velocity)) => {
            MidiEvent::NoteOn(u8::from(note), u8::from(velocity))
        },
        Ok(wmidi::MidiMessage::NoteOff(_, note, _)) => MidiEvent::NoteOff(u8::from(note)),
        _ => MidiEvent::Other,
    }
}

} // verus!
