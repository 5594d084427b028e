//! The edge shaper: fills a short envelope with a decaying curve seeded from
//! one boundary sample of a captured buffer.
//!
//! The sample arithmetic is supplied by the caller: `negate` gives the
//! negative of a sample, and `fall` the negative of a sample divided by a
//! positive distance.

use vstd::prelude::*;

verus! {

/// Both arithmetic steps are defined on every sample and every positive
/// distance.
pub open spec fn steps_total<T, N: Fn(T) -> T, D: Fn(T, usize) -> T>(negate: &N, fall: &D) -> bool {
    &&& forall|x: T| #[trigger] call_requires(*negate, (x,))
    &&& forall|x: T, i: usize| i > 0 ==> #[trigger] call_requires(*fall, (x, i))
}

/// `envelope` is the attack curve of `seed`: its last element is the negated
/// seed, and the element at distance `i > 0` from the end is `fall` of the
/// element one step nearer the end, at distance `i`.
pub open spec fn is_attack<T, N: Fn(T) -> T, D: Fn(T, usize) -> T>(
    envelope: Seq<T>,
    seed: T,
    negate: &N,
    fall: &D,
) -> bool {
    &&& envelope.len() > 0 ==> call_ensures(*negate, (seed,), envelope[envelope.len() - 1])
    &&& forall|i: int|
        1 <= i < envelope.len() ==> call_ensures(
            *fall,
            (envelope[envelope.len() - i], i as usize),
            #[trigger] envelope[envelope.len() - 1 - i],
        )
}

/// `envelope` is the release curve of `seed`: its first element is the negated
/// seed, and the element at index `i > 0` is `fall` of the element before it,
/// at distance `i`.
pub open spec fn is_release<T, N: Fn(T) -> T, D: Fn(T, usize) -> T>(
    envelope: Seq<T>,
    seed: T,
    negate: &N,
    fall: &D,
) -> bool {
    &&& envelope.len() > 0 ==> call_ensures(*negate, (seed,), envelope[0])
    &&& forall|i: int|
        1 <= i < envelope.len() ==> call_ensures(
            *fall,
            (envelope[i - 1], i as usize),
            #[trigger] envelope[i],
        )
}

/// Overwrites `envelope`, from its last index down to its first, with the
/// attack curve seeded from the first sample of `buffer`.
pub fn add_attack<T: Copy, N: Fn(T) -> T, D: Fn(T, usize) -> T>(
    envelope: &mut Vec<T>,
    buffer: &Vec<T>,
    negate: &N,
    fall: &D,
)
    requires
        buffer.len() > 0,
        steps_total(negate, fall),
    ensures
        final(envelope).len() == old(envelope).len(),
        is_attack(final(envelope)@, buffer[0], negate, fall),
{
    let seed = buffer[0];
    let len = envelope.len();
    let mut i: usize = 0;
    while i < len
        invariant
            i <= len,
            envelope.len() == len,
            steps_total(negate, fall),
            i > 0 ==> call_ensures(*negate, (seed,), envelope[len - 1]),
            forall|j: int|
                1 <= j < i ==> call_ensures(
                    *fall,
                    (envelope[len - j], j as usize),
                    #[trigger] envelope[len - 1 - j],
                ),
        decreases len - i,
    {
        let value = if i == 0 {
            negate(seed)
        } else {
            fall(envelope[len - i], i)
        };
        envelope[len - 1 - i] = value;
        i += 1;
    }
}

/// Overwrites `envelope`, from its first index up to its last, with the
/// release curve seeded from the last sample of `buffer`.
pub fn add_release<T: Copy, N: Fn(T) -> T, D: Fn(T, usize) -> T>(
    envelope: &mut Vec<T>,
    buffer: &Vec<T>,
    negate: &N,
    fall: &D,
)
    requires
        buffer.len() > 0,
        steps_total(negate, fall),
    ensures
        final(envelope).len() == old(envelope).len(),
        is_release(final(envelope)@, buffer[buffer.len() - 1], negate, fall),
{
    let seed = buffer[buffer.len() - 1];
    let len = envelope.len();
    let mut i: usize = 0;
    while i < len
        invariant
            i <= len,
            envelope.len() == len,
            steps_total(negate, fall),
            i > 0 ==> call_ensures(*negate, (seed,), envelope[0]),
            forall|j: int|
                1 <= j < i ==> call_ensures(
                    *fall,
                    (envelope[j - 1], j as usize),
                    #[trigger] envelope[j],
                ),
        decreases len - i,
    {
        let value = if i == 0 {
            negate(seed)
        } else {
            fall(envelope[i - 1], i)
        };
        envelope[i] = value;
        i += 1;
    }
}

} // verus!
