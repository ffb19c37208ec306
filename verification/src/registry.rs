//! The dispatch registry: a map from an opaque 64-bit native handle to
//! the function-table entry recorded when the handle was created.
//!
//! Function pointers are carried as opaque 64-bit values; the registry
//! never calls through them, it only stores and hands them back.  The
//! graphics API may reuse a handle value after it was destroyed; the
//! wrapped destroy removes the entry first, so reuse never meets a stale
//! entry.  Callers that share one registry across threads serialise
//! access with a shared-read/exclusive-write lock; each operation below
//! is one such atomic step, and the interleaving laws at the end speak
//! about every order in which those steps can occur.

use std::collections::HashMap;

use vstd::prelude::*;

verus! {

broadcast use vstd::std_specs::hash::group_hash_axioms;

/// Per-instance dispatch entry: the next layer's resolver and its destroy
/// function, both pre-resolved at creation time.
#[derive(Debug, Clone, Copy, PartialEq, Eq, Structural)]
pub struct InstanceDispatchTable {
    pub get_instance_proc_addr: u64,
    pub destroy_instance: u64,
}

/// Per-device dispatch entry.
#[derive(Debug, Clone, Copy, PartialEq, Eq, Structural)]
pub struct DeviceDispatchTable {
    pub get_device_proc_addr: u64,
    pub destroy_device: u64,
}

/// A handle-keyed table of dispatch entries.  Lookup of an absent handle
/// reports not-found; it never fabricates an entry.
pub struct DispatchRegistry<T> {
    table: HashMap<u64, T>,
}

impl<T: Copy> DispatchRegistry<T> {
    /// The registry as a mathematical map.
    pub closed spec fn view(&self) -> Map<u64, T> {
        self.table@
    }

    pub fn new() -> (r: Self)
        ensures
            r@ == Map::<u64, T>::empty(),
    {
        DispatchRegistry { table: HashMap::new() }
    }

    /// Record the entry for a newly created handle.  A second insert for
    /// the same handle overwrites, matching the wrapped API's guarantee
    /// that a handle is destroyed before its value is reused.
    pub fn insert(&mut self, handle: u64, entry: T)
        ensures
            final(self)@ == old(self)@.insert(handle, entry),
    {
        self.table.insert(handle, entry);
    }

    /// Drop the entry for a destroyed handle, returning it so the caller
    /// can invoke the captured teardown; absent handles are a no-op.
    pub fn remove(&mut self, handle: u64) -> (r: Option<T>)
        ensures
            final(self)@ == old(self)@.remove(handle),
            r matches Some(e) ==> old(self)@.contains_key(handle) && old(self)@[handle] == e,
            r is None ==> !old(self)@.contains_key(handle),
    {
        self.table.remove(&handle)
    }

    /// The entry recorded for `handle`, if any.
    pub fn lookup(&self, handle: u64) -> (r: Option<T>)
        ensures
            r matches Some(e) ==> self@.contains_key(handle) && self@[handle] == e,
            r is None ==> !self@.contains_key(handle),
    {
        match self.table.get(&handle) {
            Some(e) => Some(*e),
            None => None,
        }
    }
}

// ---------------------------------------------------------------------------
// Laws of the registry
// ---------------------------------------------------------------------------
/// After `insert(h, e)`, looking `h` up finds exactly `e`.
pub proof fn lemma_insert_then_lookup<T>(m: Map<u64, T>, h: u64, e: T)
    ensures
        m.insert(h, e).contains_key(h),
        m.insert(h, e)[h] == e,
{
}

/// After `remove(h)`, looking `h` up finds nothing.
pub proof fn lemma_remove_then_lookup<T>(m: Map<u64, T>, h: u64)
    ensures
        !m.remove(h).contains_key(h),
{
}

/// The registry contents after a linearised run of inserts.  Writers are
/// mutually exclusive, so any concurrent execution of inserts is one such
/// run, in some order.
pub open spec fn apply_inserts<T>(m: Map<u64, T>, ops: Seq<(u64, T)>) -> Map<u64, T>
    decreases ops.len(),
{
    if ops.len() == 0 {
        m
    } else {
        apply_inserts(m.insert(ops[0].0, ops[0].1), ops.drop_first())
    }
}

/// Inserts of handles other than `h` leave `h`'s entry untouched.
proof fn lemma_apply_inserts_preserves<T>(m: Map<u64, T>, ops: Seq<(u64, T)>, h: u64)
    requires
        forall|p: int| 0 <= p < ops.len() ==> (#[trigger] ops[p]).0 != h,
        m.contains_key(h),
    ensures
        apply_inserts(m, ops).contains_key(h),
        apply_inserts(m, ops)[h] == m[h],
    decreases ops.len(),
{
    if ops.len() > 0 {
        let m1 = m.insert(ops[0].0, ops[0].1);
        let t = ops.drop_first();
        assert forall|p: int| 0 <= p < t.len() implies (#[trigger] t[p]).0 != h by {
            assert(t[p] == ops[p + 1]);
        }
        lemma_apply_inserts_preserves(m1, t, h);
    }
}

/// Concurrent inserts of pairwise distinct handles never lose an entry:
/// whatever order the exclusive writes took, every handle afterwards maps
/// to the entry inserted for it.
pub proof fn lemma_distinct_inserts_all_present<T>(m: Map<u64, T>, ops: Seq<(u64, T)>, i: int)
    requires
        0 <= i < ops.len(),
        forall|p: int, q: int|
            0 <= p < q < ops.len() ==> (#[trigger] ops[p]).0 != (#[trigger] ops[q]).0,
    ensures
        apply_inserts(m, ops).contains_key(ops[i].0),
        apply_inserts(m, ops)[ops[i].0] == ops[i].1,
    decreases ops.len(),
{
    let m1 = m.insert(ops[0].0, ops[0].1);
    let t = ops.drop_first();
    if i == 0 {
        assert forall|p: int| 0 <= p < t.len() implies (#[trigger] t[p]).0 != ops[0].0 by {
            assert(t[p] == ops[p + 1]);
        }
        lemma_apply_inserts_preserves(m1, t, ops[0].0);
    } else {
        assert forall|p: int, q: int| 0 <= p < q < t.len() implies (#[trigger] t[p]).0 != (
        #[trigger] t[q]).0 by {
            assert(t[p] == ops[p + 1] && t[q] == ops[q + 1]);
        }
        assert(t[i - 1] == ops[i]);
        lemma_distinct_inserts_all_present(m1, t, i - 1);
    }
}

} // verus!
