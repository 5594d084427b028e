//! Cursor arithmetic of the capture buffer: where the writer puts a block,
//! where the reversed, cyclic reader takes one from, and how both cursors wrap.

use vstd::prelude::*;
use vstd::arithmetic::div_mod::{lemma_add_mod_noop, lemma_mod_self_0, lemma_small_mod};

verus! {

/// The smaller of two lengths.
pub open spec fn smaller_of(a: int, b: int) -> int {
    if a <= b {
        a
    } else {
        b
    }
}

/// A cursor that has moved on by `count` samples: back at 0 once it reaches or
/// passes `capacity`.
pub open spec fn cursor_after(cursor: int, count: int, capacity: int) -> int {
    if cursor + count >= capacity {
        0
    } else {
        cursor + count
    }
}

/// The capture buffer after the first `count` samples of `input` were written
/// from `cursor` on. Samples that would fall past the buffer's end are dropped.
pub open spec fn captured<T>(buffer: Seq<T>, cursor: int, input: Seq<T>, count: int) -> Seq<T> {
    Seq::new(
        buffer.len(),
        |j: int|
            if cursor <= j < cursor + count {
                input[j - cursor]
            } else {
                buffer[j]
            },
    )
}

/// The index into the capture buffer that the reader takes its sample from
/// after `step` samples of looping: position `capacity - write_cursor + step`
/// of the endlessly repeated, reversed buffer.
pub open spec fn loop_index(capacity: int, write_cursor: int, step: int) -> int {
    capacity - 1 - ((capacity - write_cursor + step) % capacity)
}

/// An output block after `count` samples were replayed into its front, the
/// reader having already taken `read_cursor` samples.
pub open spec fn replayed<T>(
    output: Seq<T>,
    buffer: Seq<T>,
    write_cursor: int,
    read_cursor: int,
    count: int,
) -> Seq<T> {
    Seq::new(
        output.len(),
        |k: int|
            if k < count {
                buffer[loop_index(buffer.len() as int, write_cursor, read_cursor + k)]
            } else {
                output[k]
            },
    )
}

/// Calls `fundsp::math::min`, which on unsigned integers is `core::cmp::min`:
/// the result is the smaller of the two arguments.
#[verifier::external_body]
pub(crate) fn smaller(a: usize, b: usize) -> (r: usize)
    ensures
        r == smaller_of(a as int, b as int),
{
    fundsp::math::min(a, b)
}

/// One step of the reader through the repeated buffer.
pub proof fn lemma_next_position(x: int, capacity: int)
    requires
        capacity > 0,
        x >= 0,
    ensures
        (x + 1) % capacity == if x % capacity + 1 == capacity {
            0
        } else {
            x % capacity + 1
        },
{
    let p = x % capacity;
    lemma_add_mod_noop(x, 1, capacity);
    if capacity == 1 {
        lemma_mod_self_0(1);
        lemma_small_mod(0, 1);
    } else {
        lemma_small_mod(1, capacity as nat);
        if p + 1 == capacity {
            lemma_mod_self_0(capacity);
        } else {
            lemma_small_mod((p + 1) as nat, capacity as nat);
        }
    }
}

/// Writes the first `count` samples of `input` into `buffer` from `cursor` on,
/// stopping at the buffer's end.
pub fn capture_into<T: Copy>(buffer: &mut Vec<T>, cursor: usize, input: &[T], count: usize)
    requires
        cursor <= old(buffer).len(),
        count <= input.len(),
    ensures
        final(buffer)@ == captured(old(buffer)@, cursor as int, input@, count as int),
{
    let room = buffer.len() - cursor;
    let fits = smaller(count, room);
    let mut k: usize = 0;
    while k < fits
        invariant
            k <= fits,
            fits <= count,
            fits <= room,
            count <= input.len(),
            room == buffer.len() - cursor,
            buffer.len() == old(buffer).len(),
            buffer@ == captured(old(buffer)@, cursor as int, input@, k as int),
        decreases fits - k,
    {
        buffer[cursor + k] = input[k];
        k += 1;
        assert(buffer@ =~= captured(old(buffer)@, cursor as int, input@, k as int));
    }
    assert(buffer@ =~= captured(old(buffer)@, cursor as int, input@, count as int));
}

/// Replays `count` samples of the reversed, cyclic `buffer` into the front of
/// `output`, and returns the last one replayed.
pub fn replay_into<T: Copy>(
    output: &mut [T],
    buffer: &Vec<T>,
    write_cursor: usize,
    read_cursor: usize,
    count: usize,
) -> (last: Option<T>)
    requires
        buffer.len() > 0,
        write_cursor < buffer.len(),
        read_cursor < buffer.len(),
        count <= old(output)@.len(),
    ensures
        final(output)@ == replayed(
            old(output)@,
            buffer@,
            write_cursor as int,
            read_cursor as int,
            count as int,
        ),
        last == if count > 0 {
            Some(
                buffer[loop_index(
                    buffer.len() as int,
                    write_cursor as int,
                    read_cursor + count - 1,
                )],
            )
        } else {
            None
        },
{
    let capacity = buffer.len();
    let start = capacity - write_cursor;
    let start = if start == capacity {
        0
    } else {
        start
    };
    let mut position = if start >= capacity - read_cursor {
        start - (capacity - read_cursor)
    } else {
        start + read_cursor
    };
    proof {
        let x = capacity - write_cursor + read_cursor;
        if x >= 2 * capacity {
            assert(false);
        } else if x >= capacity {
            lemma_add_mod_noop(x - capacity, capacity as int, capacity as int);
            lemma_mod_self_0(capacity as int);
            lemma_small_mod((x - capacity) as nat, capacity as nat);
        } else {
            lemma_small_mod(x as nat, capacity as nat);
        }
    }
    let mut last: Option<T> = None;
    let mut k: usize = 0;
    while k < count
        invariant
            k <= count,
            count <= output@.len(),
            output@.len() == old(output)@.len(),
            capacity == buffer.len(),
            capacity > 0,
            write_cursor < capacity,
            position < capacity,
            position == (capacity - write_cursor + read_cursor + k) % (capacity as int),
            output@ == replayed(
                old(output)@,
                buffer@,
                write_cursor as int,
                read_cursor as int,
                k as int,
            ),
            last == if k > 0 {
                Some(
                    buffer[loop_index(capacity as int, write_cursor as int, read_cursor + k - 1)],
                )
            } else {
                None
            },
        decreases count - k,
    {
        let sample = buffer[capacity - 1 - position];
        output[k] = sample;
        last = Some(sample);
        proof {
            lemma_next_position(capacity - write_cursor + read_cursor + k, capacity as int);
        }
        position = if position + 1 == capacity {
            0
        } else {
            position + 1
        };
        k += 1;
        assert(output@ =~= replayed(
            old(output)@,
            buffer@,
            write_cursor as int,
            read_cursor as int,
            k as int,
        ));
    }
    last
}

/// Overwrites every sample of `output` with `value`.
pub fn fill_with<T: Copy>(output: &mut [T], value: T)
    ensures
        final(output)@ == Seq::new(old(output)@.len(), |k: int| value),
{
    let len = output.len();
    let mut k: usize = 0;
    while k < len
        invariant
            k <= len,
            output@.len() == len,
            len == old(output)@.len(),
            forall|j: int| 0 <= j < k ==> output@[j] == value,
        decreases len - k,
    {
        output[k] = value;
        k += 1;
    }
    assert(output@ =~= Seq::new(old(output)@.len(), |k: int| value));
}

} // verus!
