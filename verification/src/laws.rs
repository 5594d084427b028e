//! What holds of the engine over whole runs of blocks and events.

use vstd::prelude::*;
use vstd::arithmetic::div_mod::{lemma_add_mod_noop, lemma_mod_self_0, lemma_small_mod};
use crate::cursor::{captured, cursor_after, lemma_next_position, loop_index};
use crate::engine::Orbsat;
use crate::shaper::is_attack;

verus! {

/// The sum of a run of block lengths.
pub open spec fn total(lens: Seq<nat>) -> int
    decreases lens.len(),
{
    if lens.len() == 0 {
        0
    } else {
        total(lens.drop_last()) + lens.last()
    }
}

/// Where a cursor stands after a run of blocks of the given lengths.
pub open spec fn cursor_run(cursor: int, capacity: int, lens: Seq<nat>) -> int
    decreases lens.len(),
{
    if lens.len() == 0 {
        cursor
    } else {
        cursor_after(cursor_run(cursor, capacity, lens.drop_last()), lens.last() as int, capacity)
    }
}

/// How often a cursor went back to zero for reaching the capacity during a run
/// of blocks of the given lengths.
pub open spec fn wrap_count(cursor: int, capacity: int, lens: Seq<nat>) -> int
    decreases lens.len(),
{
    if lens.len() == 0 {
        0
    } else {
        let before = cursor_run(cursor, capacity, lens.drop_last());
        wrap_count(cursor, capacity, lens.drop_last()) + if before + lens.last() >= capacity {
            1int
        } else {
            0int
        }
    }
}

/// The lengths of a run of blocks.
pub open spec fn lengths<T>(blocks: Seq<Seq<T>>) -> Seq<nat> {
    Seq::new(blocks.len(), |b: int| blocks[b].len())
}

/// The capture buffer after a run of blocks was captured into it, the write
/// cursor starting at `cursor`.
pub open spec fn capture_run<T>(buffer: Seq<T>, cursor: int, blocks: Seq<Seq<T>>) -> Seq<T>
    decreases blocks.len(),
{
    if blocks.len() == 0 {
        buffer
    } else {
        captured(
            capture_run(buffer, cursor, blocks.drop_last()),
            cursor_run(cursor, buffer.len() as int, lengths(blocks.drop_last())),
            blocks.last(),
            blocks.last().len() as int,
        )
    }
}

/// The blocks of a run, one after another.
pub open spec fn joined<T>(blocks: Seq<Seq<T>>) -> Seq<T>
    decreases blocks.len(),
{
    if blocks.len() == 0 {
        Seq::empty()
    } else {
        joined(blocks.drop_last()) + blocks.last()
    }
}

/// While a run of blocks stays short of the capacity, the cursor is the number
/// of samples taken and has never wrapped.
pub proof fn lemma_cursor_short_run(capacity: int, lens: Seq<nat>)
    requires
        total(lens) < capacity,
    ensures
        cursor_run(0, capacity, lens) == total(lens),
        wrap_count(0, capacity, lens) == 0,
        total(lens) >= 0,
    decreases lens.len(),
{
    if lens.len() > 0 {
        lemma_total_nonnegative(lens.drop_last());
        lemma_cursor_short_run(capacity, lens.drop_last());
    }
}

/// A run of block lengths sums to no less than zero.
pub proof fn lemma_total_nonnegative(lens: Seq<nat>)
    ensures
        total(lens) >= 0,
    decreases lens.len(),
{
    if lens.len() > 0 {
        lemma_total_nonnegative(lens.drop_last());
    }
}

/// Cursor wraparound: after a run of blocks that holds exactly `capacity`
/// samples, a cursor that started at zero is at zero again and has wrapped
/// exactly once. For the write cursor each wrap is one refresh of the
/// envelopes; for the read cursor it is one restart of the loop.
pub proof fn lemma_cursor_wraparound(capacity: int, lens: Seq<nat>)
    requires
        capacity > 0,
        total(lens) == capacity,
    ensures
        cursor_run(0, capacity, lens) == 0,
        wrap_count(0, capacity, lens) == 1,
    decreases lens.len(),
{
    if lens.len() > 0 {
        lemma_total_nonnegative(lens.drop_last());
        if lens.last() == 0 {
            lemma_cursor_wraparound(capacity, lens.drop_last());
        } else {
            lemma_cursor_short_run(capacity, lens.drop_last());
        }
    }
}

/// Capture fidelity: after a run of blocks that holds fewer samples than the
/// buffer, captured from cursor zero, the front of the buffer is the blocks
/// one after another, and the rest of the buffer is as it was.
pub proof fn lemma_capture_fidelity<T>(buffer: Seq<T>, blocks: Seq<Seq<T>>)
    requires
        total(lengths(blocks)) < buffer.len(),
    ensures
        joined(blocks).len() == total(lengths(blocks)),
        capture_run(buffer, 0, blocks).len() == buffer.len(),
        capture_run(buffer, 0, blocks).take(total(lengths(blocks))) == joined(blocks),
        capture_run(buffer, 0, blocks).skip(total(lengths(blocks))) == buffer.skip(
            total(lengths(blocks)),
        ),
    decreases blocks.len(),
{
    let n = total(lengths(blocks));
    if blocks.len() == 0 {
        assert(capture_run(buffer, 0, blocks).take(n) =~= joined(blocks));
    } else {
        let front = blocks.drop_last();
        assert(lengths(blocks).drop_last() =~= lengths(front));
        assert(lengths(blocks).last() == blocks.last().len());
        lemma_total_nonnegative(lengths(front));
        lemma_capture_fidelity(buffer, front);
        lemma_cursor_short_run(buffer.len() as int, lengths(front));
        let m = total(lengths(front));
        let before = capture_run(buffer, 0, front);
        let after = capture_run(buffer, 0, blocks);
        assert(after == captured(before, m, blocks.last(), blocks.last().len() as int));
        assert forall|j: int| 0 <= j < n implies after.take(n)[j] == joined(blocks)[j] by {
            if j < m {
                assert(before.take(m)[j] == joined(front)[j]);
            }
        }
        assert(after.take(n) =~= joined(blocks));
        assert forall|j: int| 0 <= j < buffer.len() - n implies after.skip(n)[j] == buffer.skip(
            n,
        )[j] by {
            assert(before.skip(m)[j + n - m] == buffer.skip(m)[j + n - m]);
        }
        assert(after.skip(n) =~= buffer.skip(n));
    }
}

/// Reverse-loop order: with the write cursor at `p`, looping starts at the
/// sample written last, the one before `p` around the ring, and each further
/// step takes the sample one index lower, from index zero on to the highest.
pub proof fn lemma_reverse_order(capacity: int, p: int, step: int)
    requires
        capacity > 0,
        0 <= p < capacity,
        step >= 0,
    ensures
        0 <= loop_index(capacity, p, step) < capacity,
        loop_index(capacity, p, 0) == if p == 0 {
            capacity - 1
        } else {
            p - 1
        },
        loop_index(capacity, p, step + 1) == if loop_index(capacity, p, step) == 0 {
            capacity - 1
        } else {
            loop_index(capacity, p, step) - 1
        },
{
    lemma_next_position(capacity - p + step, capacity);
    if p == 0 {
        lemma_mod_self_0(capacity);
    } else {
        lemma_small_mod((capacity - p) as nat, capacity as nat);
    }
    vstd::arithmetic::div_mod::lemma_mod_bound(capacity - p + step, capacity);
}

/// Where the write cursor `p` is zero or half the capacity, the first sample
/// of the loop is the one at index `(capacity - p - 1) mod capacity`.
pub proof fn lemma_first_looped_sample(capacity: int, p: int)
    requires
        capacity > 0,
        p == 0 || 2 * p == capacity,
    ensures
        loop_index(capacity, p, 0) == (capacity - p - 1) % capacity,
{
    lemma_reverse_order(capacity, p, 0);
    lemma_small_mod((capacity - p - 1) as nat, capacity as nat);
}

/// The loop repeats with the period of the capacity: once the read cursor is
/// back at zero, replay restarts from the same sample.
pub proof fn lemma_loop_period(capacity: int, p: int, step: int)
    requires
        capacity > 0,
        0 <= p < capacity,
        step >= 0,
    ensures
        loop_index(capacity, p, step + capacity) == loop_index(capacity, p, step),
{
    let x = capacity - p + step;
    lemma_add_mod_noop(x, capacity, capacity);
    lemma_mod_self_0(capacity);
    vstd::arithmetic::div_mod::lemma_mod_twice(x, capacity);
}

/// Attack decay: if no step of `fall` makes a sample larger in `magnitude`,
/// then the magnitudes along an attack curve of a length that a buffer can
/// have never grow when walked from the
/// seed's end, the last element, toward the first.
pub proof fn lemma_attack_never_grows<T, N: Fn(T) -> T, D: Fn(T, usize) -> T>(
    envelope: Seq<T>,
    seed: T,
    negate: &N,
    fall: &D,
    magnitude: spec_fn(T) -> int,
)
    requires
        envelope.len() <= usize::MAX,
        is_attack(envelope, seed, negate, fall),
        forall|x: T, i: usize, y: T|
            i > 0 && #[trigger] call_ensures(*fall, (x, i), y) ==> magnitude(y) <= magnitude(x),
    ensures
        forall|i: int, j: int|
            0 <= i <= j < envelope.len() ==> magnitude(#[trigger] envelope[i]) <= magnitude(
                #[trigger] envelope[j],
            ),
{
    assert forall|i: int, j: int| 0 <= i <= j < envelope.len() implies magnitude(
        #[trigger] envelope[i],
    ) <= magnitude(#[trigger] envelope[j]) by {
        lemma_attack_span(envelope, seed, negate, fall, magnitude, i, j);
    }
}

/// The step of `lemma_attack_never_grows` for one pair of indices.
proof fn lemma_attack_span<T, N: Fn(T) -> T, D: Fn(T, usize) -> T>(
    envelope: Seq<T>,
    seed: T,
    negate: &N,
    fall: &D,
    magnitude: spec_fn(T) -> int,
    i: int,
    j: int,
)
    requires
        is_attack(envelope, seed, negate, fall),
        forall|x: T, d: usize, y: T|
            d > 0 && #[trigger] call_ensures(*fall, (x, d), y) ==> magnitude(y) <= magnitude(x),
        0 <= i <= j < envelope.len(),
        envelope.len() <= usize::MAX,
    ensures
        magnitude(envelope[i]) <= magnitude(envelope[j]),
    decreases j - i,
{
    if i < j {
        lemma_attack_span(envelope, seed, negate, fall, magnitude, i + 1, j);
        let d = envelope.len() - 1 - i;
        assert(envelope[envelope.len() - 1 - d] == envelope[i]);
        assert(call_ensures(*fall, (envelope[envelope.len() - d], d as usize), envelope[i]));
    }
}

/// Note transitions: a note-on makes the engine capture, from write cursor
/// zero; a note-off for another pitch than the held one changes nothing; a
/// note-off for the held pitch makes the engine loop.
pub proof fn lemma_note_transitions<T: Copy>(engine: Orbsat<T>, pitch: u8, velocity: u8)
    ensures
        engine.after_note_on(pitch, velocity).capturing(),
        engine.after_note_on(pitch, velocity).i_sample == 0,
        engine.note.is_some() && engine.note.unwrap().0 != pitch ==> engine.after_note_off(pitch)
            == engine,
        engine.note.is_none() ==> engine.after_note_off(pitch) == engine,
        engine.note.is_some() && engine.note.unwrap().0 == pitch ==> !engine.after_note_off(
            pitch,
        ).capturing(),
{
}

} // verus!
