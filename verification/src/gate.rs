//! Process-wide one-time slots.
//!
//! The interception hooks need three pieces of one-shot state: the saved
//! original entry point, the first instance handle and the first device
//! handle.  All of them follow the same discipline: the first store wins,
//! every later store is refused, and exactly one caller is told that it
//! was first.

use vstd::prelude::*;

verus! {

/// A one-time slot holding an opaque 64-bit value (a function pointer or
/// a native handle).  `try_set` is the check-and-set primitive: it both
/// tests and claims the slot in one step, so no two callers can each
/// observe the unset state.
pub struct OnceSlot {
    value: Option<u64>,
}

impl OnceSlot {
    /// The stored value, or `None` while the slot was never set.
    pub closed spec fn view(&self) -> Option<u64> {
        self.value
    }

    pub fn new() -> (s: OnceSlot)
        ensures
            s@ is None,
    {
        OnceSlot { value: None }
    }

    /// Store `v` if the slot is still empty.  Returns whether this call
    /// was the one that claimed the slot.
    pub fn try_set(&mut self, v: u64) -> (first: bool)
        ensures
            first == (old(self)@ is None),
            final(self)@ == (if old(self)@ is None { Some(v) } else { old(self)@ }),
    {
        match self.value {
            None => {
                self.value = Some(v);
                true
            }
            Some(_) => false,
        }
    }

    pub fn get(&self) -> (r: Option<u64>)
        ensures
            r == self@,
    {
        self.value
    }

    pub fn is_set(&self) -> (r: bool)
        ensures
            r == (self@ is Some),
    {
        self.value.is_some()
    }
}

/// How many entries of a sequence of claim outcomes report "first".
pub open spec fn count_claimed(results: Seq<bool>) -> int
    decreases results.len(),
{
    if results.len() == 0 {
        0
    } else {
        count_claimed(results.drop_last()) + if results.last() {
            1int
        } else {
            0int
        }
    }
}

/// Exactly one caller wins the slot: when each store attempt sees the
/// state left behind by the previous one, starting from the empty slot,
/// exactly one attempt is told that it was first.
///
/// `states[i]` is the slot contents seen by call `i`, `states[i + 1]` the
/// contents it leaves behind, `vals[i]` the value it offers and
/// `results[i]` what it was told.
pub proof fn lemma_gate_claims_exactly_once(
    states: Seq<Option<u64>>,
    vals: Seq<u64>,
    results: Seq<bool>,
)
    requires
        results.len() >= 1,
        vals.len() == results.len(),
        states.len() == results.len() + 1,
        states[0] is None,
        forall|i: int|
            0 <= i < results.len() ==> results[i] == (#[trigger] states[i] is None),
        forall|i: int|
            0 <= i < results.len() ==> #[trigger] states[i + 1] == (if states[i] is None {
                Some(vals[i])
            } else {
                states[i]
            }),
    ensures
        count_claimed(results) == 1,
{
    assert forall|i: int| 1 <= i < states.len() implies #[trigger] states[i] is Some by {
        lemma_gate_stays_claimed(states, vals, results, i);
    }
    assert(results[0] == (states[0] is None));
    assert forall|i: int| 1 <= i < results.len() implies !(#[trigger] results[i]) by {
        assert(results[i] == (states[i] is None));
        assert(states[i] is Some);
    }
    lemma_count_single_leader(results);
}

/// Once some call has claimed the slot, every later call finds it set.
proof fn lemma_gate_stays_claimed(
    states: Seq<Option<u64>>,
    vals: Seq<u64>,
    results: Seq<bool>,
    i: int,
)
    requires
        vals.len() == results.len(),
        states.len() == results.len() + 1,
        states[0] is None,
        forall|j: int|
            0 <= j < results.len() ==> #[trigger] states[j + 1] == (if states[j] is None {
                Some(vals[j])
            } else {
                states[j]
            }),
        1 <= i < states.len(),
    ensures
        states[i] is Some,
    decreases i,
{
    if i > 1 {
        lemma_gate_stays_claimed(states, vals, results, i - 1);
    }
    assert(states[(i - 1) + 1] == (if states[i - 1] is None {
        Some(vals[i - 1])
    } else {
        states[i - 1]
    }));
}

/// A run whose first outcome is "first" and whose later outcomes are all
/// "already claimed" counts exactly one claim.
proof fn lemma_count_single_leader(results: Seq<bool>)
    requires
        results.len() >= 1,
        results[0],
        forall|i: int| 1 <= i < results.len() ==> !(#[trigger] results[i]),
    ensures
        count_claimed(results) == 1,
    decreases results.len(),
{
    assert(count_claimed(results) == count_claimed(results.drop_last()) + if results.last() {
        1int
    } else {
        0int
    });
    if results.len() == 1 {
        assert(results.drop_last().len() == 0);
        assert(count_claimed(results.drop_last()) == 0);
        assert(results.last() == results[0]);
    } else {
        let pre = results.drop_last();
        assert(pre[0] == results[0]);
        assert forall|i: int| 1 <= i < pre.len() implies !(#[trigger] pre[i]) by {
            assert(pre[i] == results[i]);
        }
        lemma_count_single_leader(pre);
        assert(!results[results.len() - 1]);
        assert(results.last() == results[results.len() - 1]);
    }
}

} // verus!
