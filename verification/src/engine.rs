//! The capture/playback engine: while a note is held it records the input and
//! keeps the output silent; once the note is released it replays what it
//! recorded, backward and endlessly.

use vstd::prelude::*;
use crate::cursor::{
    capture_into, captured, cursor_after, fill_with, loop_index, replay_into, replayed, smaller,
    smaller_of,
};
use crate::midi::{decode, midi_event, MidiEvent};
use crate::shaper::{add_attack, is_attack, steps_total};

verus! {

/// Samples per second that a new engine assumes.
pub const SAMPLE_RATE: u32 = 48_000;

/// Samples per channel that a new engine captures: ten seconds.
pub const BUFFER_SIZE: usize = 480_000;

/// Samples per channel of a new engine's envelope: a hundredth of a second.
pub const ENVELOPE_SIZE: usize = 480;

/// The engine's state. `T` is the sample type.
pub struct Orbsat<T> {
    /// Pitch and velocity of the held note; `None` while looping.
    pub note: Option<(u8, u8)>,
    pub enabled: bool,
    pub sample_rate: u32,
    /// Elapsed time, reset whenever the sample rate is set.
    pub time: u64,
    /// The sample that is silence.
    pub silence: T,
    pub captured_left: Vec<T>,
    pub captured_right: Vec<T>,
    /// Write cursor: where the next captured sample goes.
    pub i_sample: usize,
    /// Read cursor: how many samples of the current loop pass were replayed.
    pub o_sample: usize,
    pub last_output_left: T,
    pub last_output_right: T,
    pub attack_left: Vec<T>,
    pub attack_right: Vec<T>,
}

impl<T: Copy> Orbsat<T> {
    /// Samples per channel of the capture buffer.
    pub open spec fn capacity(&self) -> int {
        self.captured_left@.len() as int
    }

    /// Both channels have the same nonzero capacity and both cursors lie
    /// inside it.
    pub open spec fn wf(&self) -> bool {
        &&& self.captured_left@.len() > 0
        &&& self.captured_right@.len() == self.captured_left@.len()
        &&& self.i_sample < self.captured_left@.len()
        &&& self.o_sample < self.captured_left@.len()
    }

    /// A note is held: input is recorded, output is silent.
    pub open spec fn capturing(&self) -> bool {
        self.note.is_some()
    }

    /// What the engine is made with: silent buffers, cursors at zero, no note.
    pub open spec fn fresh(
        &self,
        silence: T,
        sample_rate: u32,
        capacity: usize,
        envelope: usize,
    ) -> bool {
        &&& self.note.is_none()
        &&& self.enabled
        &&& self.sample_rate == sample_rate
        &&& self.time == 0
        &&& self.silence == silence
        &&& self.captured_left@ == Seq::new(capacity as nat, |k: int| silence)
        &&& self.captured_right@ == Seq::new(capacity as nat, |k: int| silence)
        &&& self.i_sample == 0
        &&& self.o_sample == 0
        &&& self.last_output_left == silence
        &&& self.last_output_right == silence
        &&& self.attack_left@ == Seq::new(envelope as nat, |k: int| silence)
        &&& self.attack_right@ == Seq::new(envelope as nat, |k: int| silence)
    }

    /// An engine for 48 kHz with ten seconds of capture.
    pub fn new(silence: T) -> (engine: Self)
        ensures
            engine.wf(),
            engine.fresh(silence, SAMPLE_RATE, BUFFER_SIZE, ENVELOPE_SIZE),
    {
        Self::with_capacity(silence, SAMPLE_RATE, BUFFER_SIZE, ENVELOPE_SIZE)
    }

    /// An engine that captures `capacity` samples per channel and shapes an
    /// envelope of `envelope` samples.
    pub fn with_capacity(silence: T, sample_rate: u32, capacity: usize, envelope: usize) -> (engine:
        Self)
        requires
            capacity > 0,
        ensures
            engine.wf(),
            engine.fresh(silence, sample_rate, capacity, envelope),
    {
        Orbsat {
            note: None,
            enabled: true,
            sample_rate,
            time: 0,
            silence,
            captured_left: silent(silence, capacity),
            captured_right: silent(silence, capacity),
            i_sample: 0,
            o_sample: 0,
            last_output_left: silence,
            last_output_right: silence,
            attack_left: silent(silence, envelope),
            attack_right: silent(silence, envelope),
        }
    }

    /// The state after a note started: the note is held and the write cursor
    /// is back at zero.
    pub open spec fn after_note_on(self, pitch: u8, velocity: u8) -> Self {
        Orbsat { note: Some((pitch, velocity)), enabled: true, i_sample: 0, ..self }
    }

    /// The state after a note ended: the held note is cleared if it has this
    /// pitch.
    pub open spec fn after_note_off(self, pitch: u8) -> Self {
        match self.note {
            Some((held, _)) if held == pitch => Orbsat { note: None, ..self },
            _ => self,
        }
    }

    /// The state after one event.
    pub open spec fn after_event(self, event: MidiEvent) -> Self {
        match event {
            MidiEvent::NoteOn(pitch, velocity) => self.after_note_on(pitch, velocity),
            MidiEvent::NoteOff(pitch) => self.after_note_off(pitch),
            MidiEvent::Other => self,
        }
    }

    /// The state after a run of MIDI messages, taken in order.
    pub open spec fn after_messages(self, messages: Seq<[u8; 3]>) -> Self
        decreases messages.len(),
    {
        if messages.len() == 0 {
            self
        } else {
            self.after_messages(messages.drop_last()).after_event(midi_event(messages.last()@))
        }
    }

    /// A note starts: it is held from now on, and capture begins at the buffer's start.
    pub fn note_on(&mut self, pitch: u8, velocity: u8)
        ensures
            *final(self) == old(self).after_note_on(pitch, velocity),
            old(self).wf() ==> final(self).wf(),
    {
        self.note = Some((pitch, velocity));
        self.enabled = true;
        self.i_sample = 0;
    }

    /// A note ends: if it is the held one, no note is held any more.
    pub fn note_off(&mut self, pitch: u8)
        ensures
            *final(self) == old(self).after_note_off(pitch),
            old(self).wf() ==> final(self).wf(),
    {
        match self.note {
            Some((held, _)) => {
                if held == pitch {
                    self.note = None;
                }
            },
            None => {},
        }
    }

    /// Applies one event to the held note.
    pub fn handle_event(&mut self, event: MidiEvent)
        ensures
            *final(self) == old(self).after_event(event),
            old(self).wf() ==> final(self).wf(),
    {
        match event {
            MidiEvent::NoteOn(pitch, velocity) => self.note_on(pitch, velocity),
            MidiEvent::NoteOff(pitch) => self.note_off(pitch),
            MidiEvent::Other => {},
        }
    }

    /// Reads one MIDI message and applies it to the held note.
    pub fn handle_message(&mut self, bytes: &[u8])
        ensures
            *final(self) == old(self).after_event(midi_event(bytes@)),
            old(self).wf() ==> final(self).wf(),
    {
        let event = decode(bytes);
        self.handle_event(event);
    }

    /// Reads a run of MIDI messages and applies each to the held note, in order.
    pub fn process_events(&mut self, messages: &[[u8; 3]])
        ensures
            *final(self) == old(self).after_messages(messages@),
            old(self).wf() ==> final(self).wf(),
    {
        let mut k: usize = 0;
        while k < messages.len()
            invariant
                k <= messages@.len(),
                *self == old(self).after_messages(messages@.take(k as int)),
                old(self).wf() ==> self.wf(),
            decreases messages@.len() - k,
        {
            self.handle_message(messages[k].as_slice());
            k += 1;
            assert(messages@.take(k as int).drop_last() =~= messages@.take(k - 1));
        }
        assert(messages@.take(k as int) =~= messages@);
    }

    /// Whether a block with this many input and output channels is processed
    /// at all: the engine works on stereo, and leaves a block with fewer than
    /// two channels on either side untouched.
    pub fn accepts(inputs: usize, outputs: usize) -> (yes: bool)
        ensures
            yes == (inputs >= 2 && outputs >= 2),
    {
        outputs >= 2 && inputs >= 2
    }

    /// What one block does while a note is held: each channel's input is
    /// written at the write cursor, the cursor moves on by the left channel's
    /// count and wraps at the capacity, the read cursor restarts, the output is
    /// silent, and the envelopes are shaped anew exactly when the write cursor
    /// wrapped.
    pub open spec fn capture_step<N: Fn(T) -> T, D: Fn(T, usize) -> T>(
        self,
        next: Self,
        in_left: Seq<T>,
        in_right: Seq<T>,
        out_left: Seq<T>,
        out_right: Seq<T>,
        next_left: Seq<T>,
        next_right: Seq<T>,
        negate: &N,
        fall: &D,
    ) -> bool {
        let count_left = smaller_of(out_left.len() as int, in_left.len() as int);
        let count_right = smaller_of(out_right.len() as int, in_right.len() as int);
        let wrapped = self.i_sample + count_left >= self.capacity();
        &&& next.captured_left@ == captured(
            self.captured_left@,
            self.i_sample as int,
            in_left,
            count_left,
        )
        &&& next.captured_right@ == captured(
            self.captured_right@,
            self.i_sample as int,
            in_right,
            count_right,
        )
        &&& next.i_sample == cursor_after(self.i_sample as int, count_left, self.capacity())
        &&& next.o_sample == 0
        &&& next_left == Seq::new(out_left.len(), |k: int| self.silence)
        &&& next_right == Seq::new(out_right.len(), |k: int| self.silence)
        &&& next.last_output_left == self.silence
        &&& next.last_output_right == self.silence
        &&& next.attack_left@.len() == self.attack_left@.len()
        &&& next.attack_right@.len() == self.attack_right@.len()
        &&& wrapped ==> is_attack(next.attack_left@, next.captured_left@[0], negate, fall)
        &&& wrapped ==> is_attack(next.attack_right@, next.captured_right@[0], negate, fall)
        &&& !wrapped ==> next.attack_left@ == self.attack_left@
        &&& !wrapped ==> next.attack_right@ == self.attack_right@
    }

    /// What one block does while no note is held: the front of each output
    /// channel is replayed from the capture buffer, backward from the write
    /// cursor and on from the read cursor, which then moves on and wraps at the
    /// capacity. The latches keep the last sample replayed.
    pub open spec fn loop_step(
        self,
        next: Self,
        out_left: Seq<T>,
        out_right: Seq<T>,
        next_left: Seq<T>,
        next_right: Seq<T>,
    ) -> bool {
        let count_left = smaller_of(out_left.len() as int, self.capacity());
        let count_right = smaller_of(out_right.len() as int, self.capacity());
        &&& next.captured_left@ == self.captured_left@
        &&& next.captured_right@ == self.captured_right@
        &&& next.attack_left@ == self.attack_left@
        &&& next.attack_right@ == self.attack_right@
        &&& next.i_sample == self.i_sample
        &&& next.o_sample == cursor_after(self.o_sample as int, count_left, self.capacity())
        &&& next_left == replayed(
            out_left,
            self.captured_left@,
            self.i_sample as int,
            self.o_sample as int,
            count_left,
        )
        &&& next_right == replayed(
            out_right,
            self.captured_right@,
            self.i_sample as int,
            self.o_sample as int,
            count_right,
        )
        &&& next.last_output_left == if count_left > 0 {
            self.captured_left@[loop_index(
                self.capacity(),
                self.i_sample as int,
                self.o_sample + count_left - 1,
            )]
        } else {
            self.last_output_left
        }
        &&& next.last_output_right == if count_right > 0 {
            self.captured_right@[loop_index(
                self.capacity(),
                self.i_sample as int,
                self.o_sample + count_right - 1,
            )]
        } else {
            self.last_output_right
        }
    }

    /// Processes one block of stereo audio: records it while a note is held,
    /// replays the recording otherwise.
    pub fn process<N: Fn(T) -> T, D: Fn(T, usize) -> T>(
        &mut self,
        in_left: &[T],
        in_right: &[T],
        out_left: &mut [T],
        out_right: &mut [T],
        negate: &N,
        fall: &D,
    )
        requires
            old(self).wf(),
            steps_total(negate, fall),
        ensures
            final(self).wf(),
            final(self).note == old(self).note,
            final(self).enabled == old(self).enabled,
            final(self).sample_rate == old(self).sample_rate,
            final(self).time == old(self).time,
            final(self).silence == old(self).silence,
            old(self).capturing() ==> old(self).capture_step(
                *final(self),
                in_left@,
                in_right@,
                old(out_left)@,
                old(out_right)@,
                final(out_left)@,
                final(out_right)@,
                negate,
                fall,
            ),
            !old(self).capturing() ==> old(self).loop_step(
                *final(self),
                old(out_left)@,
                old(out_right)@,
                final(out_left)@,
                final(out_right)@,
            ),
    {
        let capacity = self.captured_left.len();
        if self.note.is_some() {
            self.o_sample = 0;
            let count_left = smaller(out_left.len(), in_left.len());
            let count_right = smaller(out_right.len(), in_right.len());
            capture_into(&mut self.captured_left, self.i_sample, in_left, count_left);
            capture_into(&mut self.captured_right, self.i_sample, in_right, count_right);
            let wrapped = count_left >= capacity - self.i_sample;
            if wrapped {
                self.i_sample = 0;
            } else {
                self.i_sample = self.i_sample + count_left;
            }
            fill_with(out_left, self.silence);
            fill_with(out_right, self.silence);
            self.last_output_left = self.silence;
            self.last_output_right = self.silence;
            if wrapped {
                add_attack(&mut self.attack_left, &self.captured_left, negate, fall);
                add_attack(&mut self.attack_right, &self.captured_right, negate, fall);
            }
        } else {
            let count_left = smaller(out_left.len(), capacity);
            let count_right = smaller(out_right.len(), capacity);
            let last_left = replay_into(
                out_left,
                &self.captured_left,
                self.i_sample,
                self.o_sample,
                count_left,
            );
            let last_right = replay_into(
                out_right,
                &self.captured_right,
                self.i_sample,
                self.o_sample,
                count_right,
            );
            match last_left {
                Some(sample) => {
                    self.last_output_left = sample;
                },
                None => {},
            }
            match last_right {
                Some(sample) => {
                    self.last_output_right = sample;
                },
                None => {},
            }
            if count_left >= capacity - self.o_sample {
                self.o_sample = 0;
            } else {
                self.o_sample = self.o_sample + count_left;
            }
        }
    }

    /// Sets the nominal sample rate and restarts the elapsed time. The buffers
    /// keep their sizes.
    pub fn set_sample_rate(&mut self, rate: u32)
        ensures
            *final(self) == (Orbsat { sample_rate: rate, time: 0, ..*old(self) }),
            old(self).wf() ==> final(self).wf(),
    {
        self.sample_rate = rate;
        self.time = 0;
    }
}

/// A buffer of `len` samples, all `silence`.
fn silent<T: Copy>(silence: T, len: usize) -> (buffer: Vec<T>)
    ensures
        buffer@ == Seq::new(len as nat, |k: int| silence),
{
    let mut buffer: Vec<T> = Vec::with_capacity(len);
    let mut k: usize = 0;
    while k < len
        invariant
            k <= len,
            buffer@.len() == k,
            forall|j: int| 0 <= j < k ==> buffer@[j] == silence,
        decreases len - k,
    {
        buffer.push(silence);
        k += 1;
    }
    assert(buffer@ =~= Seq::new(len as nat, |k: int| silence));
    buffer
}

} // verus!
