//! Weak references.

use vstd::prelude::*;

use crate::heap::{Agent, Heap};
use crate::values::{OrdinaryObject, WeakKey, WeakRef};

verus! {

/// The data of a `WeakRef`.
#[derive(Debug, Clone, Copy, PartialEq, Eq, Structural)]
pub struct WeakRefHeapData {
    pub object_index: Option<OrdinaryObject>,
    /// ### \[\[WeakRefTarget]]
    pub weak_ref_target: Option<WeakKey>,
    /// ### \[\[KeptAlive]]
    ///
    /// Instead of storing a list of kept-alive targets in the agent, we keep
    /// only a boolean there and clear all kept_alive booleans at the end of a
    /// job run.
    pub kept_alive: bool,
}

/// Whether a key points into the heap, as far as the heap holds such keys.
pub open spec fn key_in_heap(key: WeakKey, heap: Heap) -> bool {
    key matches WeakKey::EmbedderObject(e) ==> e.index < heap.embedder_objects@.len()
}

/// Whether this `WeakRef` keeps `key` alive.
pub open spec fn kept_alive_by(data: WeakRefHeapData, key: WeakKey) -> bool {
    data.kept_alive && data.weak_ref_target == Some(key)
}

/// Whether some `WeakRef` of the agent keeps `key` alive.
pub open spec fn keeps_alive(agent: Agent, key: WeakKey) -> bool {
    exists|i: int|
        0 <= i < agent.heap.weak_refs@.len() && kept_alive_by(
            #[trigger] agent.heap.weak_refs@[i],
            key,
        )
}

/// The `WeakRef`s once those that target `key` keep it alive.
pub open spec fn spec_keep(weak_refs: Seq<WeakRefHeapData>, key: WeakKey) -> Seq<WeakRefHeapData> {
    Seq::new(
        weak_refs.len(),
        |i: int|
            WeakRefHeapData {
                kept_alive: weak_refs[i].kept_alive || weak_refs[i].weak_ref_target == Some(key),
                ..weak_refs[i]
            },
    )
}

/// The `WeakRef`s once none keeps anything alive.
pub open spec fn spec_clear(weak_refs: Seq<WeakRefHeapData>) -> Seq<WeakRefHeapData> {
    Seq::new(weak_refs.len(), |i: int| WeakRefHeapData { kept_alive: false, ..weak_refs[i] })
}

/// Whether `after` is `before` once no `WeakRef` keeps anything alive.
pub open spec fn cleared(before: Agent, after: Agent) -> bool {
    &&& before.same_except_weak_refs(after)
    &&& after.heap.weak_refs@ == spec_clear(before.heap.weak_refs@)
    &&& !after.kept_alive
}

impl WeakRefHeapData {
    /// A `WeakRef` without a target.
    pub fn empty() -> (r: Self)
        ensures
            r == (WeakRefHeapData { object_index: None, weak_ref_target: None, kept_alive: false }),
    {
        WeakRefHeapData { object_index: None, weak_ref_target: None, kept_alive: false }
    }

    /// Stops keeping the target alive.
    pub fn clear_kept_objects(&mut self)
        ensures
            *final(self) == (WeakRefHeapData { kept_alive: false, ..*old(self) }),
    {
        self.kept_alive = false;
    }
}

impl Default for WeakRefHeapData {
    fn default() -> (r: Self)
        ensures
            r == (WeakRefHeapData { object_index: None, weak_ref_target: None, kept_alive: false }),
    {
        Self::empty()
    }
}

impl Agent {
    /// Whether `new` differs from `self` at most in the `WeakRef`s and in
    /// whether any of them may keep something alive.
    pub open spec fn same_except_weak_refs(self, new: Agent) -> bool {
        &&& new.heap.strings == self.heap.strings
        &&& new.heap.objects == self.heap.objects
        &&& new.heap.arrays == self.heap.arrays
        &&& new.heap.regexps == self.heap.regexps
        &&& new.heap.embedder_objects == self.heap.embedder_objects
        &&& new.realms == self.realms
        &&& new.current_realm == self.current_realm
    }
}

impl WeakRef {
    pub open spec fn valid(self, heap: Heap) -> bool {
        self.index < heap.weak_refs@.len()
    }

    pub open spec fn data(self, heap: Heap) -> WeakRefHeapData {
        heap.weak_refs@[self.index as int]
    }

    /// The target, unless it was collected.
    pub fn get_target(self, agent: &Agent) -> (r: Option<WeakKey>)
        requires
            self.valid(agent.heap),
        ensures
            r == self.data(agent.heap).weak_ref_target,
    {
        agent.heap.weak_refs[self.index].weak_ref_target
    }

    /// Sets the target.
    pub fn set_target(self, agent: &mut Agent, target: WeakKey)
        requires
            old(agent).wf(),
            self.valid(old(agent).heap),
            key_in_heap(target, old(agent).heap),
        ensures
            final(agent).wf(),
            old(agent).same_except_weak_refs(*final(agent)),
            final(agent).kept_alive == old(agent).kept_alive,
            final(agent).heap.weak_refs@ == old(agent).heap.weak_refs@.update(
                self.index as int,
                WeakRefHeapData { weak_ref_target: Some(target), ..self.data(old(agent).heap) },
            ),
    {
        agent.heap.weak_refs[self.index].weak_ref_target = Some(target);
        proof {
            lemma_weak_refs_changed(*old(agent), *agent);
        }
    }
}

/// Changes to the `WeakRef`s alone leave regular expressions consistent.
proof fn lemma_weak_refs_changed(before: Agent, after: Agent)
    requires
        before.wf(),
        before.same_except_weak_refs(after),
    ensures
        forall|i: int|
            0 <= i < after.heap.regexps@.len() ==> (#[trigger] after.heap.regexps@[i]).wf(
                after.heap,
            ),
{
    assert forall|i: int| 0 <= i < after.heap.regexps@.len() implies (
    #[trigger] after.heap.regexps@[i]).wf(after.heap) by {
        assert(before.heap.regexps@[i].wf(before.heap));
    }
}

/// ### 9.10.4 AddToKeptObjects ( value )
///
/// Every `WeakRef` that targets `value` keeps it alive from now on.
pub fn add_to_kept_objects(agent: &mut Agent, value: WeakKey)
    requires
        old(agent).wf(),
    ensures
        final(agent).wf(),
        old(agent).same_except_weak_refs(*final(agent)),
        final(agent).heap.weak_refs@ == spec_keep(old(agent).heap.weak_refs@, value),
        final(agent).kept_alive,
{
    agent.kept_alive = true;
    let count: usize = agent.heap.weak_refs.len();
    let mut i: usize = 0;
    while i < count
        invariant
            i <= count,
            count == agent.heap.weak_refs@.len(),
            count == old(agent).heap.weak_refs@.len(),
            old(agent).same_except_weak_refs(*agent),
            agent.kept_alive,
            forall|j: int|
                0 <= j < i ==> #[trigger] agent.heap.weak_refs@[j] == spec_keep(
                    old(agent).heap.weak_refs@,
                    value,
                )[j],
            forall|j: int|
                i <= j < count ==> #[trigger] agent.heap.weak_refs@[j] == old(
                    agent,
                ).heap.weak_refs@[j],
        decreases count - i,
    {
        let targets_value: bool = match agent.heap.weak_refs[i].weak_ref_target {
            Some(key) => key == value,
            None => false,
        };
        if targets_value {
            agent.heap.weak_refs[i].kept_alive = true;
        }
        i = i + 1;
    }
    assert(agent.heap.weak_refs@ =~= spec_keep(old(agent).heap.weak_refs@, value));
    proof {
        lemma_weak_refs_changed(*old(agent), *agent);
    }
}

/// ### 9.10.3 ClearKeptObjects ( )
///
/// No `WeakRef` keeps its target alive any more.
pub fn clear_kept_objects(agent: &mut Agent)
    requires
        old(agent).wf(),
    ensures
        final(agent).wf(),
        cleared(*old(agent), *final(agent)),
{
    agent.kept_alive = false;
    let count: usize = agent.heap.weak_refs.len();
    let mut i: usize = 0;
    while i < count
        invariant
            i <= count,
            count == agent.heap.weak_refs@.len(),
            count == old(agent).heap.weak_refs@.len(),
            old(agent).same_except_weak_refs(*agent),
            !agent.kept_alive,
            forall|j: int|
                0 <= j < i ==> #[trigger] agent.heap.weak_refs@[j] == spec_clear(
                    old(agent).heap.weak_refs@,
                )[j],
            forall|j: int|
                i <= j < count ==> #[trigger] agent.heap.weak_refs@[j] == old(
                    agent,
                ).heap.weak_refs@[j],
        decreases count - i,
    {
        agent.heap.weak_refs[i].clear_kept_objects();
        i = i + 1;
    }
    assert(agent.heap.weak_refs@ =~= spec_clear(old(agent).heap.weak_refs@));
    proof {
        lemma_weak_refs_changed(*old(agent), *agent);
    }
}

/// Once cleared, nothing is kept alive by a `WeakRef`; the targets stay.
pub proof fn lemma_cleared_keeps_nothing_alive(before: Agent, after: Agent)
    requires
        cleared(before, after),
    ensures
        forall|key: WeakKey| !#[trigger] keeps_alive(after, key),
        forall|r: WeakRef|
            r.valid(before.heap) ==> (#[trigger] r.data(after.heap)).weak_ref_target == r.data(
                before.heap,
            ).weak_ref_target,
{
}

/// A `WeakRef` keeps alive its target, and that only while it is said to.
pub proof fn lemma_kept_alive_by(data: WeakRefHeapData, key: WeakKey)
    ensures
        kept_alive_by(data, key) <==> data.kept_alive && data.weak_ref_target == Some(key),
{
}

/// After keeping a value every `WeakRef` that targets it keeps it alive. Any
/// other keeps its target alive if and only if it did before. No target changes.
pub proof fn lemma_keep(weak_refs: Seq<WeakRefHeapData>, key: WeakKey)
    ensures
        spec_keep(weak_refs, key).len() == weak_refs.len(),
        forall|i: int|
            #![trigger spec_keep(weak_refs, key)[i]]
            0 <= i < weak_refs.len() ==> {
                let (kept, data) = (spec_keep(weak_refs, key)[i], weak_refs[i]);
                &&& kept.weak_ref_target == data.weak_ref_target
                &&& kept.object_index == data.object_index
                &&& data.weak_ref_target == Some(key) ==> kept.kept_alive
                &&& data.weak_ref_target != Some(key) ==> kept.kept_alive == data.kept_alive
            },
{
}

/// Clearing stops every `WeakRef` from keeping its target alive and changes
/// nothing else.
pub proof fn lemma_clear(before: Agent, after: Agent)
    requires
        cleared(before, after),
    ensures
        after.heap.weak_refs@.len() == before.heap.weak_refs@.len(),
        forall|i: int|
            #![trigger after.heap.weak_refs@[i]]
            0 <= i < before.heap.weak_refs@.len() ==> {
                let (new_data, old_data) = (after.heap.weak_refs@[i], before.heap.weak_refs@[i]);
                &&& !new_data.kept_alive
                &&& new_data.weak_ref_target == old_data.weak_ref_target
                &&& new_data.object_index == old_data.object_index
            },
        !after.kept_alive,
        after.heap.strings == before.heap.strings,
        after.heap.objects == before.heap.objects,
        after.heap.arrays == before.heap.arrays,
        after.heap.regexps == before.heap.regexps,
        after.heap.embedder_objects == before.heap.embedder_objects,
        after.realms == before.realms,
        after.current_realm == before.current_realm,
{
}

} // verus!
