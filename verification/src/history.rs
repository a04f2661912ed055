//! The rolling histories behind the overlay's charts.

use vstd::prelude::*;

use std::collections::VecDeque;

verus! {

/// How many samples a chart history keeps.
pub const HISTORY: usize = 64;

/// The history after recording `value`: the oldest sample goes once the
/// history holds `HISTORY` of them.
pub open spec fn pushed<T>(h: Seq<T>, value: T) -> Seq<T> {
    (if h.len() >= HISTORY { h.drop_first() } else { h }).push(value)
}

/// Records a sample, dropping the oldest one when the history is full.
pub fn push_history<T>(buf: &mut VecDeque<T>, value: T)
    ensures
        final(buf)@ == pushed(old(buf)@, value),
{
    if buf.len() >= HISTORY {
        buf.pop_front();
    }
    buf.push_back(value);
    proof {
        if old(buf)@.len() >= HISTORY {
            assert(old(buf)@.subrange(1, old(buf)@.len() as int) =~= old(buf)@.drop_first());
        }
    }
}

/// A full history of `HISTORY` equal samples.
pub fn filled_history<T: Copy>(value: T) -> (r: VecDeque<T>)
    ensures
        r@ == Seq::new(HISTORY as nat, |i: int| value),
{
    let mut r: VecDeque<T> = VecDeque::new();
    let mut i: usize = 0;
    while i < HISTORY
        invariant
            i <= HISTORY,
            r@ == Seq::new(i as nat, |j: int| value),
        decreases HISTORY - i,
    {
        r.push_back(value);
        i = i + 1;
        assert(r@ =~= Seq::new(i as nat, |j: int| value));
    }
    r
}

/// A history that is not over-full keeps exactly the newest `HISTORY`
/// samples, in the order they were recorded.
pub proof fn lemma_history_keeps_newest<T>(h: Seq<T>, value: T)
    requires
        h.len() <= HISTORY,
    ensures
        pushed(h, value).len() <= HISTORY,
        pushed(h, value).last() == value,
        pushed(h, value) == h.push(value).skip(
            if h.len() + 1 > HISTORY { h.len() + 1 - HISTORY } else { 0 },
        ),
{
    if h.len() >= HISTORY {
        assert(pushed(h, value) =~= h.push(value).skip(1));
    } else {
        assert(pushed(h, value) =~= h.push(value).skip(0));
    }
}

} // verus!
