use orbsat::engine::{Orbsat, BUFFER_SIZE, ENVELOPE_SIZE, SAMPLE_RATE};
use orbsat::midi::MidiEvent;

fn negate(x: f32) -> f32 {
    -x
}

fn fall(x: f32, distance: usize) -> f32 {
    -x / (distance as f32)
}

fn small(capacity: usize, envelope: usize) -> Orbsat<f32> {
    Orbsat::with_capacity(0.0f32, 48_000, capacity, envelope)
}

fn run(engine: &mut Orbsat<f32>, input_left: &[f32], input_right: &[f32], len: usize) -> (Vec<f32>, Vec<f32>) {
    let mut out_left = vec![7.0f32; len];
    let mut out_right = vec![7.0f32; len];
    engine.process(input_left, input_right, &mut out_left, &mut out_right, &negate, &fall);
    (out_left, out_right)
}

#[test]
fn new_engine_is_silent_and_looping() {
    let engine: Orbsat<f32> = Orbsat::new(0.0);
    assert_eq!(SAMPLE_RATE, 48_000);
    assert_eq!(BUFFER_SIZE, 480_000);
    assert_eq!(ENVELOPE_SIZE, 480);
    assert_eq!(engine.sample_rate, 48_000);
    assert_eq!(engine.captured_left.len(), 480_000);
    assert_eq!(engine.captured_right.len(), 480_000);
    assert_eq!(engine.attack_left.len(), 480);
    assert_eq!(engine.attack_right.len(), 480);
    assert!(engine.captured_left.iter().all(|s| *s == 0.0));
    assert!(engine.note.is_none());
    assert!(engine.enabled);
    assert_eq!(engine.i_sample, 0);
    assert_eq!(engine.o_sample, 0);
    assert_eq!(engine.time, 0);
}

#[test]
fn end_to_end_full_pass_of_ones() {
    let mut engine = small(10, 4);
    engine.note_on(60, 100);
    for block in 0..10 {
        assert_eq!(engine.attack_left, vec![0.0; 4]);
        assert_eq!(engine.i_sample, block);
        let (out_left, out_right) = run(&mut engine, &[1.0], &[1.0], 1);
        assert_eq!(out_left, vec![0.0]);
        assert_eq!(out_right, vec![0.0]);
    }
    assert_eq!(engine.captured_left, vec![1.0; 10]);
    assert_eq!(engine.captured_right, vec![1.0; 10]);
    assert_eq!(engine.i_sample, 0);
    let expected = vec![-(-(1.0f32 / 1.0) / 2.0) / 3.0, -(1.0f32 / 1.0) / 2.0, 1.0, -1.0];
    assert_eq!(engine.attack_left, expected);
    assert_eq!(engine.attack_right, expected);
    assert_eq!(engine.attack_left[3], -1.0);
    assert_eq!(engine.attack_left[2], 1.0);
    assert_eq!(engine.attack_left[1], -0.5);
}

#[test]
fn refresh_happens_once_per_full_pass() {
    let mut engine = small(6, 2);
    engine.note_on(40, 1);
    run(&mut engine, &[2.0, 3.0, 4.0, 5.0], &[1.0, 1.0, 1.0, 1.0], 4);
    assert_eq!(engine.i_sample, 4);
    assert_eq!(engine.attack_left, vec![0.0, 0.0]);
    run(&mut engine, &[6.0, 7.0], &[1.0, 1.0], 2);
    assert_eq!(engine.i_sample, 0);
    assert_eq!(engine.attack_left, vec![2.0, -2.0]);
    assert_eq!(engine.attack_right, vec![1.0, -1.0]);
    run(&mut engine, &[9.0], &[8.0], 1);
    assert_eq!(engine.i_sample, 1);
    assert_eq!(engine.attack_left, vec![2.0, -2.0]);
    assert_eq!(engine.attack_right, vec![1.0, -1.0]);
}

#[test]
fn capture_keeps_the_blocks_in_order() {
    let mut engine = small(8, 2);
    engine.note_on(60, 100);
    run(&mut engine, &[1.0, 2.0], &[-1.0, -2.0], 2);
    run(&mut engine, &[3.0], &[-3.0], 1);
    run(&mut engine, &[4.0, 5.0, 6.0], &[-4.0, -5.0, -6.0], 3);
    assert_eq!(engine.i_sample, 6);
    assert_eq!(engine.captured_left, vec![1.0, 2.0, 3.0, 4.0, 5.0, 6.0, 0.0, 0.0]);
    assert_eq!(engine.captured_right, vec![-1.0, -2.0, -3.0, -4.0, -5.0, -6.0, 0.0, 0.0]);
}

#[test]
fn capture_takes_the_shorter_of_input_and_output() {
    let mut engine = small(8, 2);
    engine.note_on(60, 100);
    let (out_left, _) = run(&mut engine, &[1.0, 2.0, 3.0], &[1.0, 2.0, 3.0], 2);
    assert_eq!(out_left, vec![0.0, 0.0]);
    assert_eq!(engine.i_sample, 2);
    assert_eq!(engine.captured_left, vec![1.0, 2.0, 0.0, 0.0, 0.0, 0.0, 0.0, 0.0]);
    let (out_left, _) = run(&mut engine, &[4.0], &[4.0], 3);
    assert_eq!(out_left, vec![0.0, 0.0, 0.0]);
    assert_eq!(engine.i_sample, 3);
    assert_eq!(engine.captured_left, vec![1.0, 2.0, 4.0, 0.0, 0.0, 0.0, 0.0, 0.0]);
}

#[test]
fn capture_past_the_end_drops_the_rest_and_wraps() {
    let mut engine = small(4, 1);
    engine.note_on(60, 100);
    run(&mut engine, &[1.0, 2.0, 3.0], &[1.0, 2.0, 3.0], 3);
    run(&mut engine, &[4.0, 5.0, 6.0], &[4.0, 5.0, 6.0], 3);
    assert_eq!(engine.captured_left, vec![1.0, 2.0, 3.0, 4.0]);
    assert_eq!(engine.i_sample, 0);
    assert_eq!(engine.attack_left, vec![-1.0]);
}

#[test]
fn output_is_silent_while_capturing() {
    let mut engine = small(16, 2);
    engine.note_on(1, 1);
    for _ in 0..5 {
        let (out_left, out_right) = run(&mut engine, &[0.5, 0.25, 0.125], &[0.5, 0.25, 0.125], 3);
        assert_eq!(out_left, vec![0.0, 0.0, 0.0]);
        assert_eq!(out_right, vec![0.0, 0.0, 0.0]);
        assert_eq!(engine.last_output_left, 0.0);
        assert_eq!(engine.last_output_right, 0.0);
        assert_eq!(engine.o_sample, 0);
    }
}

#[test]
fn looping_replays_backward_from_the_last_written_sample() {
    let mut engine = small(4, 2);
    engine.note_on(60, 100);
    run(&mut engine, &[1.0, 2.0, 3.0], &[10.0, 20.0, 30.0], 3);
    engine.note_off(60);
    let (out_left, out_right) = run(&mut engine, &[], &[], 2);
    assert_eq!(out_left, vec![3.0, 2.0]);
    assert_eq!(out_right, vec![30.0, 20.0]);
    assert_eq!(engine.o_sample, 2);
    assert_eq!(engine.last_output_left, 2.0);
    assert_eq!(engine.last_output_right, 20.0);
    let (out_left, out_right) = run(&mut engine, &[], &[], 2);
    assert_eq!(out_left, vec![1.0, 0.0]);
    assert_eq!(out_right, vec![10.0, 0.0]);
    assert_eq!(engine.o_sample, 0);
    let (out_left, _) = run(&mut engine, &[], &[], 2);
    assert_eq!(out_left, vec![3.0, 2.0]);
    assert_eq!(engine.i_sample, 3);
    assert_eq!(engine.captured_left, vec![1.0, 2.0, 3.0, 0.0]);
}

#[test]
fn looping_after_a_full_pass_starts_at_the_buffer_end() {
    let mut engine = small(4, 2);
    engine.note_on(60, 100);
    run(&mut engine, &[1.0, 2.0, 3.0, 4.0], &[1.0, 2.0, 3.0, 4.0], 4);
    assert_eq!(engine.i_sample, 0);
    engine.note_off(60);
    let (out_left, _) = run(&mut engine, &[], &[], 3);
    assert_eq!(out_left, vec![4.0, 3.0, 2.0]);
    assert_eq!(engine.o_sample, 3);
    let (out_left, _) = run(&mut engine, &[], &[], 3);
    assert_eq!(out_left, vec![1.0, 4.0, 3.0]);
    assert_eq!(engine.o_sample, 0);
}

#[test]
fn looping_fills_no_more_than_the_capacity() {
    let mut engine = small(3, 2);
    engine.note_on(60, 100);
    run(&mut engine, &[1.0, 2.0], &[1.0, 2.0], 2);
    engine.note_off(60);
    let (out_left, out_right) = run(&mut engine, &[], &[], 5);
    assert_eq!(out_left, vec![2.0, 1.0, 0.0, 7.0, 7.0]);
    assert_eq!(out_right, vec![2.0, 1.0, 0.0, 7.0, 7.0]);
    assert_eq!(engine.o_sample, 0);
}

#[test]
fn looping_an_empty_block_changes_nothing() {
    let mut engine = small(3, 2);
    let (out_left, _) = run(&mut engine, &[], &[], 0);
    assert_eq!(out_left, Vec::<f32>::new());
    assert_eq!(engine.o_sample, 0);
    assert_eq!(engine.last_output_left, 0.0);
}

#[test]
fn read_cursor_returns_to_zero_after_a_full_pass() {
    let mut engine = small(6, 2);
    engine.note_on(60, 100);
    run(&mut engine, &[1.0, 2.0, 3.0, 4.0, 5.0, 6.0], &[1.0, 2.0, 3.0, 4.0, 5.0, 6.0], 6);
    engine.note_off(60);
    let mut first_pass = Vec::new();
    for _ in 0..3 {
        let (out_left, _) = run(&mut engine, &[], &[], 2);
        first_pass.extend(out_left);
    }
    assert_eq!(first_pass, vec![6.0, 5.0, 4.0, 3.0, 2.0, 1.0]);
    assert_eq!(engine.o_sample, 0);
    let (out_left, _) = run(&mut engine, &[], &[], 2);
    assert_eq!(out_left, vec![6.0, 5.0]);
}

#[test]
fn note_transitions() {
    let mut engine = small(4, 2);
    engine.note_on(10, 20);
    run(&mut engine, &[1.0, 2.0], &[1.0, 2.0], 2);
    engine.note_off(10);
    assert!(engine.note.is_none());
    assert_eq!(engine.i_sample, 2);
    engine.note_on(60, 100);
    assert_eq!(engine.note, Some((60, 100)));
    assert_eq!(engine.i_sample, 0);
    assert!(engine.enabled);
    engine.note_off(61);
    assert_eq!(engine.note, Some((60, 100)));
    engine.note_off(60);
    assert!(engine.note.is_none());
    engine.note_off(60);
    assert!(engine.note.is_none());
}

#[test]
fn midi_note_on_and_off_set_the_held_note() {
    let mut engine = small(4, 2);
    engine.handle_message(&[0x90, 60, 100]);
    assert_eq!(engine.note, Some((60, 100)));
    engine.handle_message(&[0x83, 61, 0]);
    assert_eq!(engine.note, Some((60, 100)));
    engine.handle_message(&[0x8F, 60, 64]);
    assert_eq!(engine.note, None);
    engine.handle_message(&[0x95, 127, 1]);
    assert_eq!(engine.note, Some((127, 1)));
}

#[test]
fn midi_note_on_with_velocity_zero_is_a_note_off() {
    let mut engine = small(4, 2);
    engine.handle_message(&[0x90, 60, 100]);
    engine.handle_message(&[0x90, 60, 0]);
    assert_eq!(engine.note, None);
    engine.handle_message(&[0x90, 62, 0]);
    assert_eq!(engine.note, None);
}

#[test]
fn midi_other_and_malformed_messages_are_ignored() {
    let mut engine = small(4, 2);
    engine.handle_message(&[]);
    engine.handle_message(&[0x90]);
    engine.handle_message(&[0x90, 60]);
    engine.handle_message(&[0x90, 200, 100]);
    engine.handle_message(&[0x90, 60, 200]);
    engine.handle_message(&[0x10, 60, 100]);
    engine.handle_message(&[0xB0, 1, 2]);
    engine.handle_message(&[0xA0, 60, 100]);
    engine.handle_message(&[0xF8]);
    assert_eq!(engine.note, None);
    engine.handle_message(&[0x90, 60, 100, 0xFF]);
    assert_eq!(engine.note, Some((60, 100)));
    engine.handle_message(&[0x80, 60]);
    engine.handle_message(&[0x80, 60, 128]);
    engine.handle_message(&[0xE0, 60, 0]);
    assert_eq!(engine.note, Some((60, 100)));
}

#[test]
fn process_events_applies_messages_in_order() {
    let mut engine = small(4, 2);
    engine.process_events(&[[0x90, 60, 100], [0x80, 60, 0], [0x91, 64, 90], [0x80, 60, 0], [0xB0, 7, 7]]);
    assert_eq!(engine.note, Some((64, 90)));
    engine.process_events(&[]);
    assert_eq!(engine.note, Some((64, 90)));
    engine.process_events(&[[0x80, 64, 0]]);
    assert_eq!(engine.note, None);
}

#[test]
fn handle_event_applies_each_kind() {
    let mut engine = small(4, 2);
    engine.handle_event(MidiEvent::Other);
    assert_eq!(engine.note, None);
    engine.handle_event(MidiEvent::NoteOn(5, 6));
    assert_eq!(engine.note, Some((5, 6)));
    engine.handle_event(MidiEvent::NoteOff(4));
    assert_eq!(engine.note, Some((5, 6)));
    engine.handle_event(MidiEvent::NoteOff(5));
    assert_eq!(engine.note, None);
}

#[test]
fn set_sample_rate_resets_the_time_and_keeps_the_buffers() {
    let mut engine = small(4, 2);
    engine.time = 99;
    engine.note_on(1, 2);
    engine.set_sample_rate(44_100);
    assert_eq!(engine.sample_rate, 44_100);
    assert_eq!(engine.time, 0);
    assert_eq!(engine.captured_left.len(), 4);
    assert_eq!(engine.attack_left.len(), 2);
    assert_eq!(engine.note, Some((1, 2)));
}

#[test]
fn blocks_with_fewer_than_two_channels_are_not_accepted() {
    assert!(Orbsat::<f32>::accepts(2, 2));
    assert!(Orbsat::<f32>::accepts(3, 4));
    assert!(!Orbsat::<f32>::accepts(1, 2));
    assert!(!Orbsat::<f32>::accepts(2, 1));
    assert!(!Orbsat::<f32>::accepts(0, 0));
}
