//! Objects that carry native data of the embedder.

use vstd::prelude::*;

use crate::heap::{extends, properties_view, Agent, Heap};
use crate::regexp::data::RegExpHeapData;
use crate::regexp::initialize::{regexp_created, same_matcher};
use crate::regexp::last_index::RegExpLastIndex;
use crate::values::{EmbedderObject, Object, OrdinaryObject, RegExp, WeakKey, WeakRef};
use crate::weak_ref::{
    add_to_kept_objects, clear_kept_objects, cleared, keeps_alive, kept_alive_by, spec_keep,
    WeakRefHeapData,
};
use crate::wtf8_buf::code_units;

verus! {

/// The data of an embedder object.
#[derive(Debug, Clone, Copy, PartialEq, Eq, Structural)]
pub struct EmbedderObjectHeapData {
    pub backing_object: Option<OrdinaryObject>,
    /// Embedder-provided native data, enough to bridge the object back to the
    /// host. A plain integer: nothing to trace.
    pub embedder_data: u64,
    /// Immutable embedder-defined owner identity.
    pub embedder_owner: u64,
}

impl EmbedderObject {
    pub open spec fn valid(self, heap: Heap) -> bool {
        self.index < heap.embedder_objects@.len()
    }

    pub open spec fn data(self, heap: Heap) -> EmbedderObjectHeapData {
        heap.embedder_objects@[self.index as int]
    }

    /// Create an embedder object carrying `embedder_data`, with no backing
    /// object yet (created lazily on first property access).
    pub fn create_with_data(agent: &mut Agent, embedder_data: u64) -> (r: EmbedderObject)
        requires
            old(agent).wf(),
        ensures
            final(agent).wf(),
            created(*old(agent), *final(agent), r, embedder_data, 0),
    {
        Self::create_with_owner(agent, embedder_data, 0)
    }

    /// Create native data with an immutable embedder-defined owner identity.
    pub fn create_with_owner(
        agent: &mut Agent,
        embedder_data: u64,
        embedder_owner: u64,
    ) -> (r: EmbedderObject)
        requires
            old(agent).wf(),
        ensures
            final(agent).wf(),
            created(*old(agent), *final(agent), r, embedder_data, embedder_owner),
    {
        agent.heap.embedder_objects.push(
            EmbedderObjectHeapData { backing_object: None, embedder_data, embedder_owner },
        );
        EmbedderObject { index: agent.heap.embedder_objects.len() - 1 }
    }

    /// Read the immutable owner, independently of script-visible properties.
    pub fn embedder_owner(self, agent: &Agent) -> (r: u64)
        requires
            self.valid(agent.heap),
        ensures
            r == self.data(agent.heap).embedder_owner,
    {
        agent.heap.embedder_objects[self.index].embedder_owner
    }

    /// Read back the embedder-provided native data.
    pub fn embedder_data(self, agent: &Agent) -> (r: u64)
        requires
            self.valid(agent.heap),
        ensures
            r == self.data(agent.heap).embedder_data,
    {
        agent.heap.embedder_objects[self.index].embedder_data
    }

    /// Create a [`WeakRef`] weakly targeting this embedder object, for
    /// host-side liveness tracking. The returned `WeakRef` must itself be
    /// rooted; its target is held *weakly*, so it can be collected once nothing
    /// else references it. The target survives until the next
    /// [`clear_weak_ref_kept_objects`].
    pub fn into_weak_ref(self, agent: &mut Agent) -> (r: WeakRef)
        requires
            old(agent).wf(),
            self.valid(old(agent).heap),
        ensures
            final(agent).wf(),
            weak_ref_created(*old(agent), *final(agent), self, r),
    {
        let target: WeakKey = WeakKey::EmbedderObject(self);
        let index: usize = agent.heap.weak_refs.len();
        agent.heap.weak_refs.push(WeakRefHeapData::empty());
        let weak_ref: WeakRef = WeakRef { index };
        weak_ref.set_target(agent, target);
        assert(agent.heap.weak_refs@ =~= old(agent).heap.weak_refs@.push(
            WeakRefHeapData { object_index: None, weak_ref_target: Some(target), kept_alive: false },
        ));
        add_to_kept_objects(agent, target);
        weak_ref
    }

    /// Dereference a [`WeakRef`] created by
    /// [`into_weak_ref`](Self::into_weak_ref): the still-live embedder object,
    /// or `None` if it has been collected. Observing a live target keeps it
    /// alive until the next [`clear_weak_ref_kept_objects`].
    pub fn from_weak_ref(agent: &mut Agent, weak_ref: WeakRef) -> (r: Option<EmbedderObject>)
        requires
            old(agent).wf(),
            weak_ref.valid(old(agent).heap),
        ensures
            final(agent).wf(),
            dereferenced(*old(agent), *final(agent), weak_ref, r),
            r matches Some(target) ==> target.valid(final(agent).heap),
    {
        match weak_ref.get_target(agent) {
            Some(WeakKey::EmbedderObject(target)) => {
                assert(old(agent).heap.weak_refs@[weak_ref.index as int].weak_ref_target == Some(
                    WeakKey::EmbedderObject(target),
                ));
                add_to_kept_objects(agent, WeakKey::EmbedderObject(target));
                Some(target)
            },
            _ => None,
        }
    }

    /// The object that stores the properties, once there is one.
    pub fn get_backing_object(self, agent: &Agent) -> (r: Option<OrdinaryObject>)
        requires
            self.valid(agent.heap),
        ensures
            r == self.data(agent.heap).backing_object,
    {
        agent.heap.embedder_objects[self.index].backing_object
    }

    /// Installs the object that stores the properties.
    pub fn set_backing_object(self, agent: &mut Agent, backing_object: OrdinaryObject)
        requires
            old(agent).wf(),
            self.valid(old(agent).heap),
            self.data(old(agent).heap).backing_object is None,
            backing_object.valid(old(agent).heap),
        ensures
            final(agent).wf(),
            backed(*old(agent), *final(agent), self, backing_object),
            final(agent).heap.objects == old(agent).heap.objects,
    {
        agent.heap.embedder_objects[self.index].backing_object = Some(backing_object);
        proof {
            let before = old(agent).heap;
            assert forall|i: int| 0 <= i < agent.heap.regexps@.len() implies (
            #[trigger] agent.heap.regexps@[i]).wf(agent.heap) by {
                assert(before.regexps@[i].wf(before));
            }
        }
    }

    /// Creates the object that stores the properties.
    pub fn create_backing_object(self, agent: &mut Agent) -> (r: OrdinaryObject)
        requires
            old(agent).wf(),
            self.valid(old(agent).heap),
            self.data(old(agent).heap).backing_object is None,
        ensures
            final(agent).wf(),
            r.index == old(agent).heap.objects@.len(),
            backed(*old(agent), *final(agent), self, r),
            final(agent).heap.objects@.len() == old(agent).heap.objects@.len() + 1,
            extends(old(agent).heap.objects@, final(agent).heap.objects@),
            r.data(final(agent).heap).prototype == Some(old(agent).spec_realm().object_prototype),
            r.data(final(agent).heap).properties@.len() == 0,
    {
        let prototype: Option<Object> = self.internal_prototype(agent);
        let backing_object: OrdinaryObject = OrdinaryObject::create_object(
            agent,
            prototype,
            Vec::new(),
        );
        self.set_backing_object(agent, backing_object);
        backing_object
    }

    /// The prototype that the object has.
    pub open spec fn spec_internal_prototype(self, agent: Agent) -> Option<Object> {
        match self.data(agent.heap).backing_object {
            Some(backing_object) => backing_object.data(agent.heap).prototype,
            None => Some(agent.spec_realm().object_prototype),
        }
    }

    /// The prototype: that of the backing object, or else `%Object.prototype%`
    /// of the current realm.
    pub fn internal_prototype(self, agent: &Agent) -> (r: Option<Object>)
        requires
            agent.wf(),
            self.valid(agent.heap),
        ensures
            r == self.spec_internal_prototype(*agent),
    {
        match self.get_backing_object(agent) {
            Some(backing_object) => {
                assert(agent.heap.has_backing(
                    agent.heap.embedder_objects@[self.index as int].backing_object,
                ));
                backing_object.internal_prototype(agent)
            },
            None => Some(agent.current_realm_record().object_prototype),
        }
    }
}

/// Clear the WeakRef "kept alive" set.
///
/// The embedder calls this when a synchronous execution sequence completes, so
/// that embedder objects only observed through a `WeakRef` since the last call
/// become collectable again.
pub fn clear_weak_ref_kept_objects(agent: &mut Agent)
    requires
        old(agent).wf(),
    ensures
        final(agent).wf(),
        cleared(*old(agent), *final(agent)),
{
    clear_kept_objects(agent);
}

/// Whether `after` is `before` with the embedder object `r` added.
pub open spec fn created(
    before: Agent,
    after: Agent,
    r: EmbedderObject,
    embedder_data: u64,
    embedder_owner: u64,
) -> bool {
    &&& r.index == before.heap.embedder_objects@.len()
    &&& after.heap.embedder_objects@ == before.heap.embedder_objects@.push(
        EmbedderObjectHeapData { backing_object: None, embedder_data, embedder_owner },
    )
    &&& after.heap.strings == before.heap.strings
    &&& after.heap.objects == before.heap.objects
    &&& after.heap.arrays == before.heap.arrays
    &&& after.heap.regexps == before.heap.regexps
    &&& after.heap.weak_refs == before.heap.weak_refs
    &&& before.same_state(after)
}

/// Whether `after` is `before` with the `WeakRef` `r` added, which targets
/// `target`. All `WeakRef`s that target it keep it alive.
pub open spec fn weak_ref_created(
    before: Agent,
    after: Agent,
    target: EmbedderObject,
    r: WeakRef,
) -> bool {
    &&& r.index == before.heap.weak_refs@.len()
    &&& after.heap.weak_refs@ == spec_keep(
        before.heap.weak_refs@.push(
            WeakRefHeapData {
                object_index: None,
                weak_ref_target: Some(WeakKey::EmbedderObject(target)),
                kept_alive: false,
            },
        ),
        WeakKey::EmbedderObject(target),
    )
    &&& after.kept_alive
    &&& before.same_except_weak_refs(after)
}

/// Whether `after` is `before` once `weak_ref` was dereferenced, which gave `r`.
/// All `WeakRef`s that target it keep it alive.
pub open spec fn dereferenced(
    before: Agent,
    after: Agent,
    weak_ref: WeakRef,
    r: Option<EmbedderObject>,
) -> bool {
    match weak_ref.data(before.heap).weak_ref_target {
        Some(WeakKey::EmbedderObject(target)) => {
            &&& r == Some(target)
            &&& after.heap.weak_refs@ == spec_keep(
                before.heap.weak_refs@,
                WeakKey::EmbedderObject(target),
            )
            &&& after.kept_alive
            &&& before.same_except_weak_refs(after)
        },
        _ => r is None && after == before,
    }
}

/// Whether `after` is `before` with a backing object installed for `object`;
/// the ordinary objects are not spoken of.
pub open spec fn backed(
    before: Agent,
    after: Agent,
    object: EmbedderObject,
    backing_object: OrdinaryObject,
) -> bool {
    &&& after.heap.embedder_objects@ == before.heap.embedder_objects@.update(
        object.index as int,
        EmbedderObjectHeapData {
            backing_object: Some(backing_object),
            ..object.data(before.heap)
        },
    )
    &&& after.heap.strings == before.heap.strings
    &&& after.heap.arrays == before.heap.arrays
    &&& after.heap.regexps == before.heap.regexps
    &&& after.heap.weak_refs == before.heap.weak_refs
    &&& before.same_state(after)
}

/// Whether every embedder object of `before` has the same native data and the
/// same owner in `after`.
pub open spec fn native_data_kept(before: Agent, after: Agent) -> bool {
    forall|e: EmbedderObject|
        e.valid(before.heap) ==> {
            &&& #[trigger] e.valid(after.heap)
            &&& e.data(after.heap).embedder_data == e.data(before.heap).embedder_data
            &&& e.data(after.heap).embedder_owner == e.data(before.heap).embedder_owner
        }
}

/// What an embedder object was created with reads back; the object is a new
/// one, and the others are as they were.
pub proof fn lemma_created_reads_back(
    before: Agent,
    after: Agent,
    r: EmbedderObject,
    embedder_data: u64,
    embedder_owner: u64,
)
    requires
        created(before, after, r, embedder_data, embedder_owner),
    ensures
        !r.valid(before.heap),
        r.valid(after.heap),
        r.data(after.heap).embedder_data == embedder_data,
        r.data(after.heap).embedder_owner == embedder_owner,
        r.data(after.heap).backing_object is None,
        forall|e: EmbedderObject|
            e.valid(before.heap) ==> #[trigger] e.data(after.heap) == e.data(before.heap),
{
}

/// Whether `after` is `before` but for the properties and prototypes of
/// ordinary objects, backing objects among them, and further strings.
pub open spec fn properties_changed(before: Agent, after: Agent) -> bool {
    &&& extends(before.heap.strings@, after.heap.strings@)
    &&& after.heap.arrays == before.heap.arrays
    &&& after.heap.regexps == before.heap.regexps
    &&& after.heap.embedder_objects == before.heap.embedder_objects
    &&& after.heap.weak_refs == before.heap.weak_refs
    &&& before.same_state(after)
}

/// Whether one operation leads from `before` to `after`: creating objects,
/// installing backing objects, changing properties and prototypes, switching
/// realms, or working with `WeakRef`s or with regular expressions.
pub open spec fn is_operation(before: Agent, after: Agent) -> bool {
    ||| exists|r: EmbedderObject, data: u64, owner: u64|
        #[trigger] created(before, after, r, data, owner)
    ||| exists|e: EmbedderObject, o: OrdinaryObject|
        e.valid(before.heap) && #[trigger] backed(before, after, e, o)
    ||| properties_changed(before, after)
    ||| after.heap == before.heap
    ||| before.same_except_weak_refs(after)
    ||| before.grows_to(after)
    ||| exists|r: RegExp, data: RegExpHeapData| #[trigger] r.data_replaced(before, after, data)
    ||| exists|r: RegExp, last_index: RegExpLastIndex|
        #[trigger] r.last_index_stored_and_grown(before, after, last_index)
    ||| exists|r: RegExp, data: RegExpHeapData| #[trigger] regexp_created(before, after, r, data)
}

/// No operation changes the native data or the owner of an embedder object.
pub proof fn lemma_native_data_immutable(before: Agent, after: Agent)
    requires
        is_operation(before, after),
    ensures
        native_data_kept(before, after),
{
}

/// Whether an operation leads from each state to the next.
pub open spec fn are_operations(states: Seq<Agent>) -> bool {
    forall|i: int|
        #![trigger states[i]]
        0 <= i < states.len() - 1 ==> is_operation(states[i], states[i + 1])
}

/// No sequence of operations changes the native data or the owner of an
/// embedder object.
pub proof fn lemma_operations_keep_native_data(states: Seq<Agent>)
    requires
        states.len() > 0,
        are_operations(states),
    ensures
        native_data_kept(states[0], states.last()),
    decreases states.len(),
{
    if states.len() > 1 {
        let earlier = states.drop_last();
        assert(are_operations(earlier)) by {
            assert forall|i: int|
                #![trigger earlier[i]]
                0 <= i < earlier.len() - 1 implies is_operation(earlier[i], earlier[i + 1]) by {
                assert(states[i] == earlier[i]);
            }
        }
        lemma_operations_keep_native_data(earlier);
        let last = states.len() - 2;
        assert(is_operation(states[last], states[last + 1]));
        lemma_native_data_immutable(earlier.last(), states.last());
        assert forall|e: EmbedderObject| e.valid(states[0].heap) implies {
            &&& #[trigger] e.valid(states.last().heap)
            &&& e.data(states.last().heap).embedder_data == e.data(states[0].heap).embedder_data
            &&& e.data(states.last().heap).embedder_owner == e.data(states[0].heap).embedder_owner
        } by {
            assert(e.valid(earlier.last().heap));
        }
    }
}

/// What an embedder object was created with it has after any sequence of
/// operations.
pub proof fn lemma_native_data_never_changes(
    before: Agent,
    states: Seq<Agent>,
    o: EmbedderObject,
    embedder_data: u64,
    embedder_owner: u64,
)
    requires
        states.len() > 0,
        created(before, states[0], o, embedder_data, embedder_owner),
        are_operations(states),
    ensures
        o.valid(states.last().heap),
        o.data(states.last().heap).embedder_data == embedder_data,
        o.data(states.last().heap).embedder_owner == embedder_owner,
{
    lemma_operations_keep_native_data(states);
    assert(o.valid(states[0].heap));
    assert(o.valid(states.last().heap));
}

/// Whether `clone` is a snapshot of `base`: everything that the heap holds is
/// the same in both. The realms of the clone are not spoken of.
pub open spec fn is_snapshot(base: Agent, clone: Agent) -> bool {
    let (from, to) = (base.heap, clone.heap);
    &&& to.strings@.len() == from.strings@.len()
    &&& forall|i: int|
        0 <= i < from.strings@.len() ==> code_units(#[trigger] to.strings@[i]) == code_units(
            from.strings@[i],
        )
    &&& to.objects@.len() == from.objects@.len()
    &&& forall|i: int|
        0 <= i < from.objects@.len() ==> {
            &&& (#[trigger] to.objects@[i]).prototype == from.objects@[i].prototype
            &&& properties_view(to.objects@[i].properties@) == properties_view(
                from.objects@[i].properties@,
            )
        }
    &&& to.arrays@.len() == from.arrays@.len()
    &&& forall|i: int|
        0 <= i < from.arrays@.len() ==> {
            &&& (#[trigger] to.arrays@[i]).elements@ == from.arrays@[i].elements@
            &&& properties_view(to.arrays@[i].properties@) == properties_view(
                from.arrays@[i].properties@,
            )
        }
    &&& to.regexps@.len() == from.regexps@.len()
    &&& forall|i: int|
        0 <= i < from.regexps@.len() ==> {
            &&& (#[trigger] to.regexps@[i]).object_index == from.regexps@[i].object_index
            &&& to.regexps@[i].original_source == from.regexps@[i].original_source
            &&& to.regexps@[i].original_flags == from.regexps@[i].original_flags
            &&& to.regexps@[i].last_index == from.regexps@[i].last_index
            &&& same_matcher(to.regexps@[i].reg_exp_matcher, from.regexps@[i].reg_exp_matcher)
        }
    &&& to.embedder_objects@ == from.embedder_objects@
    &&& to.weak_refs@ == from.weak_refs@
}

/// Heap snapshots preserve the native data and the owner of every embedder
/// object.
pub proof fn lemma_snapshot_keeps_native_data(base: Agent, clone: Agent)
    requires
        is_snapshot(base, clone),
    ensures
        native_data_kept(base, clone),
        native_data_kept(clone, base),
{
}

/// What an embedder object was created with it has in a snapshot too, and both
/// keep it over any further operations on either.
pub proof fn lemma_native_data_in_snapshot(
    before: Agent,
    base: Agent,
    clone: Agent,
    base_states: Seq<Agent>,
    clone_states: Seq<Agent>,
    o: EmbedderObject,
    embedder_data: u64,
    embedder_owner: u64,
)
    requires
        created(before, base, o, embedder_data, embedder_owner),
        is_snapshot(base, clone),
        base_states.len() > 0 && base_states[0] == base,
        clone_states.len() > 0 && clone_states[0] == clone,
        are_operations(base_states),
        are_operations(clone_states),
    ensures
        o.data(base_states.last().heap).embedder_data == embedder_data,
        o.data(base_states.last().heap).embedder_owner == embedder_owner,
        o.data(clone_states.last().heap).embedder_data == embedder_data,
        o.data(clone_states.last().heap).embedder_owner == embedder_owner,
{
    lemma_snapshot_keeps_native_data(base, clone);
    assert(o.valid(base.heap) && o.valid(clone.heap));
    lemma_operations_keep_native_data(base_states);
    lemma_operations_keep_native_data(clone_states);
    assert(o.valid(base_states.last().heap) && o.valid(clone_states.last().heap));
}

/// Dereferencing a new `WeakRef` gives the object that it was created for.
pub proof fn lemma_weak_ref_reads_back(
    before: Agent,
    middle: Agent,
    after: Agent,
    target: EmbedderObject,
    weak_ref: WeakRef,
    r: Option<EmbedderObject>,
)
    requires
        weak_ref_created(before, middle, target, weak_ref),
        dereferenced(middle, after, weak_ref, r),
    ensures
        !weak_ref.valid(before.heap),
        weak_ref.valid(middle.heap),
        r == Some(target),
        kept_alive_by(weak_ref.data(middle.heap), WeakKey::EmbedderObject(target)),
        keeps_alive(middle, WeakKey::EmbedderObject(target)),
{
    assert(kept_alive_by(
        middle.heap.weak_refs@[weak_ref.index as int],
        WeakKey::EmbedderObject(target),
    ));
}

/// Observing a live target keeps it alive, and dereferencing again gives the
/// same; nothing that was kept alive stops being so.
pub proof fn lemma_dereferencing_keeps_alive(
    before: Agent,
    after: Agent,
    weak_ref: WeakRef,
    r: Option<EmbedderObject>,
)
    requires
        weak_ref.valid(before.heap),
        dereferenced(before, after, weak_ref, r),
    ensures
        r matches Some(target) ==> kept_alive_by(
            weak_ref.data(after.heap),
            WeakKey::EmbedderObject(target),
        ) && keeps_alive(after, WeakKey::EmbedderObject(target)),
        weak_ref.data(after.heap).weak_ref_target == weak_ref.data(before.heap).weak_ref_target,
        forall|key: WeakKey| keeps_alive(before, key) ==> #[trigger] keeps_alive(after, key),
{
    if let Some(target) = r {
        assert(kept_alive_by(
            after.heap.weak_refs@[weak_ref.index as int],
            WeakKey::EmbedderObject(target),
        ));
        assert forall|key: WeakKey| keeps_alive(before, key) implies #[trigger] keeps_alive(
            after,
            key,
        ) by {
            let i = choose|i: int|
                0 <= i < before.heap.weak_refs@.len() && kept_alive_by(
                    #[trigger] before.heap.weak_refs@[i],
                    key,
                );
            assert(kept_alive_by(after.heap.weak_refs@[i], key));
        }
    }
}

/// The prototype of an embedder object with a backing object is that of the
/// backing object, whatever that is and whichever realm is current. Without a
/// backing object it is that of objects in the current realm.
pub proof fn lemma_embedder_object_prototype(e: EmbedderObject, agent: Agent, elsewhere: Agent)
    requires
        elsewhere.heap == agent.heap,
    ensures
        agent.heap.embedder_objects@[e.index as int].backing_object matches Some(o) ==> {
            &&& e.spec_internal_prototype(agent) == agent.heap.objects@[o.index as int].prototype
            &&& e.spec_internal_prototype(elsewhere) == e.spec_internal_prototype(agent)
        },
        agent.heap.embedder_objects@[e.index as int].backing_object is None
            ==> e.spec_internal_prototype(agent) == Some(
            agent.realms@[agent.current_realm as int].object_prototype,
        ),
{
}

/// Once a backing object is installed, the prototype is the one that the backing
/// object has, and it stays so when the current realm is switched. Only the one
/// object gets a backing object, and it keeps its native data and owner.
pub proof fn lemma_backed_object_takes_prototype(
    before: Agent,
    after: Agent,
    switched: Agent,
    e: EmbedderObject,
    o: OrdinaryObject,
    prototype: Option<Object>,
)
    requires
        e.index < before.heap.embedder_objects@.len(),
        backed(before, after, e, o),
        after.heap.objects@[o.index as int].prototype == prototype,
        switched.heap == after.heap,
    ensures
        e.spec_internal_prototype(after) == prototype,
        e.spec_internal_prototype(switched) == prototype,
        ({
            let old_data = before.heap.embedder_objects@[e.index as int];
            let new_data = after.heap.embedder_objects@[e.index as int];
            &&& new_data.backing_object == Some(o)
            &&& new_data.embedder_data == old_data.embedder_data
            &&& new_data.embedder_owner == old_data.embedder_owner
        }),
        after.heap.embedder_objects@.len() == before.heap.embedder_objects@.len(),
        forall|i: int|
            0 <= i < before.heap.embedder_objects@.len() && i != e.index
                ==> #[trigger] after.heap.embedder_objects@[i] == before.heap.embedder_objects@[i],
        after.heap.strings == before.heap.strings,
        after.heap.arrays == before.heap.arrays,
        after.heap.regexps == before.heap.regexps,
        after.heap.weak_refs == before.heap.weak_refs,
        after.realms == before.realms,
        after.current_realm == before.current_realm,
        after.kept_alive == before.kept_alive,
{
}

/// Creating an embedder object puts it behind all others, with its native data
/// and owner and without a backing object, and changes nothing else.
pub proof fn lemma_created_is_added(
    before: Agent,
    after: Agent,
    r: EmbedderObject,
    embedder_data: u64,
    embedder_owner: u64,
)
    requires
        created(before, after, r, embedder_data, embedder_owner),
    ensures
        r.index == before.heap.embedder_objects@.len(),
        after.heap.embedder_objects@.len() == before.heap.embedder_objects@.len() + 1,
        after.heap.embedder_objects@[r.index as int].embedder_data == embedder_data,
        after.heap.embedder_objects@[r.index as int].embedder_owner == embedder_owner,
        after.heap.embedder_objects@[r.index as int].backing_object is None,
        forall|i: int|
            0 <= i < before.heap.embedder_objects@.len()
                ==> #[trigger] after.heap.embedder_objects@[i] == before.heap.embedder_objects@[i],
        after.heap.strings == before.heap.strings,
        after.heap.objects == before.heap.objects,
        after.heap.arrays == before.heap.arrays,
        after.heap.regexps == before.heap.regexps,
        after.heap.weak_refs == before.heap.weak_refs,
        after.realms == before.realms,
        after.current_realm == before.current_realm,
        after.kept_alive == before.kept_alive,
{
}

/// Creating a `WeakRef` puts it behind all others. It targets the object and
/// keeps it alive, and so do from then on all others that target the object. No
/// other `WeakRef` changes, nor anything else.
pub proof fn lemma_weak_ref_is_added(
    before: Agent,
    after: Agent,
    target: EmbedderObject,
    r: WeakRef,
)
    requires
        weak_ref_created(before, after, target, r),
    ensures
        r.index == before.heap.weak_refs@.len(),
        after.heap.weak_refs@.len() == before.heap.weak_refs@.len() + 1,
        after.heap.weak_refs@[r.index as int].weak_ref_target == Some(
            WeakKey::EmbedderObject(target),
        ),
        after.heap.weak_refs@[r.index as int].kept_alive,
        after.heap.weak_refs@[r.index as int].object_index is None,
        forall|i: int|
            #![trigger after.heap.weak_refs@[i]]
            0 <= i < before.heap.weak_refs@.len() ==> {
                let (new_data, old_data) = (after.heap.weak_refs@[i], before.heap.weak_refs@[i]);
                &&& new_data.weak_ref_target == old_data.weak_ref_target
                &&& new_data.object_index == old_data.object_index
                &&& new_data.kept_alive == (old_data.kept_alive || old_data.weak_ref_target == Some(
                    WeakKey::EmbedderObject(target),
                ))
            },
        after.kept_alive,
        after.heap.strings == before.heap.strings,
        after.heap.objects == before.heap.objects,
        after.heap.arrays == before.heap.arrays,
        after.heap.regexps == before.heap.regexps,
        after.heap.embedder_objects == before.heap.embedder_objects,
        after.realms == before.realms,
        after.current_realm == before.current_realm,
{
}

/// Dereferencing gives the embedder object that is targeted, if there is one.
/// Then every `WeakRef` that targets it keeps it alive and no other changes.
/// Without such a target nothing is given and nothing changes.
pub proof fn lemma_dereference(
    before: Agent,
    after: Agent,
    weak_ref: WeakRef,
    r: Option<EmbedderObject>,
)
    requires
        dereferenced(before, after, weak_ref, r),
    ensures
        r matches Some(target) ==> before.heap.weak_refs@[weak_ref.index as int].weak_ref_target
            == Some(WeakKey::EmbedderObject(target)),
        r is None ==> !(before.heap.weak_refs@[weak_ref.index as int].weak_ref_target matches Some(
            WeakKey::EmbedderObject(_),
        )) && after == before,
        r matches Some(target) ==> {
            &&& after.heap.weak_refs@.len() == before.heap.weak_refs@.len()
            &&& forall|i: int|
                #![trigger after.heap.weak_refs@[i]]
                0 <= i < before.heap.weak_refs@.len() ==> {
                    let (new_data, old_data) = (
                        after.heap.weak_refs@[i],
                        before.heap.weak_refs@[i],
                    );
                    &&& new_data.weak_ref_target == old_data.weak_ref_target
                    &&& new_data.object_index == old_data.object_index
                    &&& new_data.kept_alive == (old_data.kept_alive || old_data.weak_ref_target
                        == Some(WeakKey::EmbedderObject(target)))
                }
            &&& after.kept_alive
            &&& after.heap.strings == before.heap.strings
            &&& after.heap.objects == before.heap.objects
            &&& after.heap.arrays == before.heap.arrays
            &&& after.heap.regexps == before.heap.regexps
            &&& after.heap.embedder_objects == before.heap.embedder_objects
            &&& after.realms == before.realms
            &&& after.current_realm == before.current_realm
        },
{
}

} // verus!
