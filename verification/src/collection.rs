//! What a whole garbage collection does, and what survives it.
//!
//! The marking phase starts from the roots and follows what heap data hands to
//! it. What it reaches stays; everything else is removed. The data that stays
//! is moved to the front of its part of the heap, with its handles adjusted.

use vstd::prelude::*;

use crate::embedder_object::{dereferenced, EmbedderObjectHeapData};
use crate::gc::{
    compact, lemma_compaction_keeps_items, lemma_live_before_monotonic, live_before,
    mark_embedder_object, mark_regexp, mark_weak_ref, CompactionLists, QueuesModel,
};
use crate::heap::{extends, Agent, Heap, ObjectHeapData, Property};
use crate::regexp::data::RegExpHeapData;
use crate::regexp::initialize::regexp_created;
use crate::values::{
    Array, EmbedderObject, ExoticObject, Function, Object, OrdinaryObject, RegExp, Value, WeakKey,
    WeakRef,
};
use crate::weak_ref::{cleared, kept_alive_by, WeakRefHeapData};

verus! {

/// Which items of each part of the heap stay.
#[verifier::ext_equal]
pub struct LiveModel {
    pub strings: Seq<bool>,
    pub symbols: Seq<bool>,
    pub objects: Seq<bool>,
    pub arrays: Seq<bool>,
    pub functions: Seq<bool>,
    pub regexps: Seq<bool>,
    pub embedder_objects: Seq<bool>,
    pub weak_refs: Seq<bool>,
    pub exotic_objects: Seq<bool>,
}

impl View for CompactionLists {
    type V = LiveModel;

    open spec fn view(&self) -> LiveModel {
        LiveModel {
            strings: self.strings.live@,
            symbols: self.symbols.live@,
            objects: self.objects.live@,
            arrays: self.arrays.live@,
            functions: self.functions.live@,
            regexps: self.regexps.live@,
            embedder_objects: self.embedder_objects.live@,
            weak_refs: self.weak_refs.live@,
            exotic_objects: self.exotic_objects.live@,
        }
    }
}

/// Whether the item at `index` stays.
pub open spec fn is_live(live: Seq<bool>, index: usize) -> bool {
    index < live.len() && live[index as int]
}

/// Whether everything in the queues stays.
pub open spec fn all_live(queues: QueuesModel, live: LiveModel) -> bool {
    &&& forall|i: int|
        0 <= i < queues.strings.len() ==> is_live(
            live.strings,
            (#[trigger] queues.strings[i]).index,
        )
    &&& forall|i: int|
        0 <= i < queues.symbols.len() ==> is_live(
            live.symbols,
            (#[trigger] queues.symbols[i]).index,
        )
    &&& forall|i: int|
        0 <= i < queues.objects.len() ==> is_live(
            live.objects,
            (#[trigger] queues.objects[i]).index,
        )
    &&& forall|i: int|
        0 <= i < queues.arrays.len() ==> is_live(live.arrays, (#[trigger] queues.arrays[i]).index)
    &&& forall|i: int|
        0 <= i < queues.functions.len() ==> is_live(
            live.functions,
            (#[trigger] queues.functions[i]).index,
        )
    &&& forall|i: int|
        0 <= i < queues.regexps.len() ==> is_live(
            live.regexps,
            (#[trigger] queues.regexps[i]).index,
        )
    &&& forall|i: int|
        0 <= i < queues.embedder_objects.len() ==> is_live(
            live.embedder_objects,
            (#[trigger] queues.embedder_objects[i]).index,
        )
    &&& forall|i: int|
        0 <= i < queues.weak_refs.len() ==> is_live(
            live.weak_refs,
            (#[trigger] queues.weak_refs[i]).index,
        )
    &&& forall|i: int|
        0 <= i < queues.exotic_objects.len() ==> is_live(
            live.exotic_objects,
            (#[trigger] queues.exotic_objects[i]).index,
        )
}

/// Whether an object stays.
pub open spec fn is_live_object(live: LiveModel, object: Object) -> bool {
    match object {
        Object::Ordinary(o) => is_live(live.objects, o.index),
        Object::Array(a) => is_live(live.arrays, a.index),
        Object::Function(f) => is_live(live.functions, f.index),
        Object::RegExp(r) => is_live(live.regexps, r.index),
        Object::EmbedderObject(e) => is_live(live.embedder_objects, e.index),
        Object::WeakRef(w) => is_live(live.weak_refs, w.index),
        Object::Exotic(x) => is_live(live.exotic_objects, x.index),
    }
}

/// Whether what a value refers to stays, as far as the heap holds it.
pub open spec fn is_live_value(live: LiveModel, value: Value) -> bool {
    match value {
        Value::String(s) => is_live(live.strings, s.index),
        Value::Symbol(s) => is_live(live.symbols, s.index),
        Value::Object(o) => is_live_object(live, o),
        _ => true,
    }
}

/// Whether the values of properties stay.
pub open spec fn are_live_properties(live: LiveModel, properties: Seq<Property>) -> bool {
    forall|i: int|
        0 <= i < properties.len() ==> is_live_value(live, (#[trigger] properties[i]).value)
}

/// Whether an ordinary object's prototype and the values of its properties stay.
pub open spec fn is_object_closed(live: LiveModel, data: ObjectHeapData) -> bool {
    &&& (data.prototype matches Some(prototype) ==> is_live_object(live, prototype))
    &&& are_live_properties(live, data.properties@)
}

/// Queues that hold nothing.
pub open spec fn no_marks() -> QueuesModel {
    QueuesModel {
        strings: seq![],
        symbols: seq![],
        objects: seq![],
        arrays: seq![],
        functions: seq![],
        regexps: seq![],
        embedder_objects: seq![],
        weak_refs: seq![],
        exotic_objects: seq![],
    }
}

/// Whether the roots stay, and with everything that stays also what it hands
/// to the marking phase.
///
/// The roots are the handles that are held outside of the heap: by running
/// code, by realms, and by what the heap does not hold the data of.
pub open spec fn is_closed(heap: Heap, roots: QueuesModel, live: LiveModel) -> bool {
    &&& live.strings.len() == heap.strings@.len()
    &&& live.objects.len() == heap.objects@.len()
    &&& live.arrays.len() == heap.arrays@.len()
    &&& live.regexps.len() == heap.regexps@.len()
    &&& live.embedder_objects.len() == heap.embedder_objects@.len()
    &&& live.weak_refs.len() == heap.weak_refs@.len()
    &&& all_live(roots, live)
    &&& forall|i: int|
        0 <= i < heap.objects@.len() && live.objects[i] ==> is_object_closed(
            live,
            #[trigger] heap.objects@[i],
        )
    &&& forall|i: int|
        0 <= i < heap.arrays@.len() && live.arrays[i] ==> are_live_properties(
            live,
            (#[trigger] heap.arrays@[i]).properties@,
        )
    &&& forall|i: int, j: int|
        0 <= i < heap.arrays@.len() && live.arrays[i] && 0 <= j
            < heap.arrays@[i].elements@.len() ==> is_live_value(
            live,
            #[trigger] heap.arrays@[i].elements@[j],
        )
    &&& forall|i: int|
        0 <= i < heap.regexps@.len() && live.regexps[i] ==> all_live(
            mark_regexp(no_marks(), #[trigger] heap.regexps@[i]),
            live,
        )
    &&& forall|i: int|
        0 <= i < heap.embedder_objects@.len() && live.embedder_objects[i] ==> all_live(
            mark_embedder_object(no_marks(), #[trigger] heap.embedder_objects@[i]),
            live,
        )
    &&& forall|i: int|
        0 <= i < heap.weak_refs@.len() && live.weak_refs[i] ==> all_live(
            mark_weak_ref(no_marks(), #[trigger] heap.weak_refs@[i]),
            live,
        )
}

/// Whether all that stays according to `live` also does according to `other`.
pub open spec fn is_within(live: LiveModel, other: LiveModel) -> bool {
    &&& forall|i: usize| is_live(live.strings, i) ==> #[trigger] is_live(other.strings, i)
    &&& forall|i: usize| is_live(live.objects, i) ==> #[trigger] is_live(other.objects, i)
    &&& forall|i: usize| is_live(live.arrays, i) ==> #[trigger] is_live(other.arrays, i)
    &&& forall|i: usize| is_live(live.regexps, i) ==> #[trigger] is_live(other.regexps, i)
    &&& forall|i: usize|
        is_live(live.embedder_objects, i) ==> #[trigger] is_live(other.embedder_objects, i)
    &&& forall|i: usize| is_live(live.weak_refs, i) ==> #[trigger] is_live(other.weak_refs, i)
}

/// Whether exactly what can be reached from the roots stays.
pub open spec fn is_marking(heap: Heap, roots: QueuesModel, live: LiveModel) -> bool {
    &&& is_closed(heap, roots, live)
    &&& forall|other: LiveModel| #[trigger]
        is_closed(heap, roots, other) ==> is_within(live, other)
}

impl CompactionLists {
    /// An object handle after compaction.
    pub open spec fn swept_handle(self, object: Object) -> Object {
        match object {
            Object::Ordinary(o) => Object::Ordinary(
                OrdinaryObject { index: self.objects.shifted(o.index) },
            ),
            Object::Array(a) => Object::Array(Array { index: self.arrays.shifted(a.index) }),
            Object::Function(f) => Object::Function(
                Function { index: self.functions.shifted(f.index) },
            ),
            Object::RegExp(r) => Object::RegExp(RegExp { index: self.regexps.shifted(r.index) }),
            Object::EmbedderObject(e) => Object::EmbedderObject(
                EmbedderObject { index: self.embedder_objects.shifted(e.index) },
            ),
            Object::WeakRef(w) => Object::WeakRef(
                WeakRef { index: self.weak_refs.shifted(w.index) },
            ),
            Object::Exotic(x) => Object::Exotic(
                ExoticObject { index: self.exotic_objects.shifted(x.index) },
            ),
        }
    }

    /// A prototype after compaction.
    pub open spec fn swept_prototype(self, prototype: Option<Object>) -> Option<Object> {
        match prototype {
            Some(object) => Some(self.swept_handle(object)),
            None => None,
        }
    }
}

/// Whether a collection from the roots leads from `before` to `after`. The
/// properties of ordinary objects and the arrays of `after` are not spoken of.
pub open spec fn is_collection(
    before: Heap,
    after: Heap,
    roots: QueuesModel,
    compactions: CompactionLists,
) -> bool {
    let live = compactions@;
    &&& is_marking(before, roots, live)
    &&& after.strings@ == compact(before.strings@, live.strings)
    &&& after.regexps@ == compact(
        before.regexps@.map_values(|data: RegExpHeapData| compactions.swept_regexp(data)),
        live.regexps,
    )
    &&& after.embedder_objects@ == compact(
        before.embedder_objects@.map_values(
            |data: EmbedderObjectHeapData| compactions.swept_embedder_object(data),
        ),
        live.embedder_objects,
    )
    &&& after.weak_refs@ == compact(
        before.weak_refs@.map_values(|data: WeakRefHeapData| compactions.swept_weak_ref(data)),
        live.weak_refs,
    )
    &&& after.objects@.len() == compact(before.objects@, live.objects).len()
    &&& forall|i: int|
        0 <= i < before.objects@.len() && live.objects[i]
            ==> after.objects@[live_before(live.objects, i) as int].prototype
            == compactions.swept_prototype((#[trigger] before.objects@[i]).prototype)
}

/// Everything that stays is where its adjusted handle says, with its handles
/// adjusted.
pub proof fn lemma_live_data_is_moved(
    before: Heap,
    after: Heap,
    roots: QueuesModel,
    compactions: CompactionLists,
)
    requires
        is_collection(before, after, roots, compactions),
    ensures
        forall|e: EmbedderObject|
            is_live(compactions@.embedder_objects, e.index) ==> {
                let moved = EmbedderObject {
                    index: compactions.embedder_objects.shifted(e.index),
                };
                moved.valid(after) && moved.data(after) == compactions.swept_embedder_object(
                    #[trigger] e.data(before),
                )
            },
        forall|w: WeakRef|
            is_live(compactions@.weak_refs, w.index) ==> {
                let moved = WeakRef { index: compactions.weak_refs.shifted(w.index) };
                moved.valid(after) && moved.data(after) == compactions.swept_weak_ref(
                    #[trigger] w.data(before),
                )
            },
        forall|r: RegExp|
            is_live(compactions@.regexps, r.index) ==> {
                let moved = RegExp { index: compactions.regexps.shifted(r.index) };
                moved.valid(after) && moved.data(after) == compactions.swept_regexp(
                    #[trigger] r.data(before),
                )
            },
        forall|o: OrdinaryObject|
            is_live(compactions@.objects, o.index) ==> {
                let moved = OrdinaryObject { index: compactions.objects.shifted(o.index) };
                moved.valid(after) && moved.data(after).prototype == compactions.swept_prototype(
                    (#[trigger] o.data(before)).prototype,
                )
            },
{
    let live = compactions@;
    assert forall|e: EmbedderObject| is_live(live.embedder_objects, e.index) implies {
        let moved = EmbedderObject { index: compactions.embedder_objects.shifted(e.index) };
        moved.valid(after) && moved.data(after) == compactions.swept_embedder_object(
            #[trigger] e.data(before),
        )
    } by {
        lemma_live_before_monotonic(live.embedder_objects, 0, e.index as int);
        lemma_compaction_keeps_items(
            before.embedder_objects@.map_values(
                |data: EmbedderObjectHeapData| compactions.swept_embedder_object(data),
            ),
            live.embedder_objects,
            e.index as int,
        );
    }
    assert forall|w: WeakRef| is_live(live.weak_refs, w.index) implies {
        let moved = WeakRef { index: compactions.weak_refs.shifted(w.index) };
        moved.valid(after) && moved.data(after) == compactions.swept_weak_ref(
            #[trigger] w.data(before),
        )
    } by {
        lemma_live_before_monotonic(live.weak_refs, 0, w.index as int);
        lemma_compaction_keeps_items(
            before.weak_refs@.map_values(|data: WeakRefHeapData| compactions.swept_weak_ref(data)),
            live.weak_refs,
            w.index as int,
        );
    }
    assert forall|r: RegExp| is_live(live.regexps, r.index) implies {
        let moved = RegExp { index: compactions.regexps.shifted(r.index) };
        moved.valid(after) && moved.data(after) == compactions.swept_regexp(
            #[trigger] r.data(before),
        )
    } by {
        lemma_live_before_monotonic(live.regexps, 0, r.index as int);
        lemma_compaction_keeps_items(
            before.regexps@.map_values(|data: RegExpHeapData| compactions.swept_regexp(data)),
            live.regexps,
            r.index as int,
        );
    }
    assert forall|o: OrdinaryObject| is_live(live.objects, o.index) implies {
        let moved = OrdinaryObject { index: compactions.objects.shifted(o.index) };
        moved.valid(after) && moved.data(after).prototype == compactions.swept_prototype(
            (#[trigger] o.data(before)).prototype,
        )
    } by {
        lemma_live_before_monotonic(live.objects, 0, o.index as int);
        lemma_compaction_keeps_items(before.objects@, live.objects, o.index as int);
    }
}

/// Whether a `WeakRef` targets an embedder object that has the given native
/// data and owner, and keeps it alive.
pub open spec fn keeps_native(
    heap: Heap,
    weak_ref: WeakRef,
    embedder_data: u64,
    embedder_owner: u64,
) -> bool {
    &&& weak_ref.valid(heap)
    &&& weak_ref.data(heap).kept_alive
    &&& weak_ref.data(heap).weak_ref_target matches Some(WeakKey::EmbedderObject(target))
    &&& target.valid(heap)
    &&& target.data(heap).embedder_data == embedder_data
    &&& target.data(heap).embedder_owner == embedder_owner
}

/// A target that a rooted `WeakRef` keeps alive survives a collection.
pub proof fn lemma_kept_target_survives(
    before: Heap,
    after: Heap,
    roots: QueuesModel,
    compactions: CompactionLists,
    weak_ref: WeakRef,
    embedder_data: u64,
    embedder_owner: u64,
)
    requires
        is_collection(before, after, roots, compactions),
        roots.weak_refs.contains(weak_ref),
        keeps_native(before, weak_ref, embedder_data, embedder_owner),
    ensures
        keeps_native(
            after,
            WeakRef { index: compactions.weak_refs.shifted(weak_ref.index) },
            embedder_data,
            embedder_owner,
        ),
{
    let live = compactions@;
    assert(is_live(live.weak_refs, weak_ref.index));
    let data = before.weak_refs@[weak_ref.index as int];
    let marks = mark_weak_ref(no_marks(), data);
    assert(all_live(marks, live));
    match data.weak_ref_target {
        Some(WeakKey::EmbedderObject(target)) => {
            assert(marks.embedder_objects[0] == target);
            assert(is_live(live.embedder_objects, target.index));
            lemma_live_data_is_moved(before, after, roots, compactions);
            assert(weak_ref.data(before) == data);
            assert(target.data(before) == before.embedder_objects@[target.index as int]);
        },
        _ => {},
    }
}

/// An observed target survives any number of collections: as long as the
/// kept-alive set is not cleared and the `WeakRef` is rooted, dereferencing
/// still gives an object with the same native data and owner.
///
/// Between `heaps[i]` and `heaps[i + 1]` lies a collection from `roots[i]`, and
/// `weak_refs[i]` is the handle of the `WeakRef` in `heaps[i]`.
pub proof fn lemma_observed_target_survives_until_cleared(
    heaps: Seq<Heap>,
    roots: Seq<QueuesModel>,
    compactions: Seq<CompactionLists>,
    weak_refs: Seq<WeakRef>,
    target: EmbedderObject,
    agent: Agent,
    after: Agent,
    r: Option<EmbedderObject>,
)
    requires
        heaps.len() > 0,
        weak_refs.len() == heaps.len(),
        roots.len() == heaps.len() - 1,
        compactions.len() == heaps.len() - 1,
        weak_refs[0].valid(heaps[0]),
        target.valid(heaps[0]),
        kept_alive_by(weak_refs[0].data(heaps[0]), WeakKey::EmbedderObject(target)),
        forall|i: int|
            #![trigger roots[i]]
            0 <= i < roots.len() ==> {
                &&& is_collection(heaps[i], heaps[i + 1], roots[i], compactions[i])
                &&& roots[i].weak_refs.contains(weak_refs[i])
                &&& weak_refs[i + 1].index == compactions[i].weak_refs.shifted(weak_refs[i].index)
            },
        agent.heap == heaps.last(),
        dereferenced(agent, after, weak_refs.last(), r),
    ensures
        r matches Some(o) && o.valid(agent.heap) && o.data(agent.heap).embedder_data
            == target.data(heaps[0]).embedder_data && o.data(agent.heap).embedder_owner
            == target.data(heaps[0]).embedder_owner,
{
    let data = target.data(heaps[0]);
    lemma_kept_targets_survive(
        heaps,
        roots,
        compactions,
        weak_refs,
        data.embedder_data,
        data.embedder_owner,
        heaps.len() - 1,
    );
}

proof fn lemma_kept_targets_survive(
    heaps: Seq<Heap>,
    roots: Seq<QueuesModel>,
    compactions: Seq<CompactionLists>,
    weak_refs: Seq<WeakRef>,
    embedder_data: u64,
    embedder_owner: u64,
    n: int,
)
    requires
        0 <= n < heaps.len(),
        weak_refs.len() == heaps.len(),
        roots.len() == heaps.len() - 1,
        compactions.len() == heaps.len() - 1,
        keeps_native(heaps[0], weak_refs[0], embedder_data, embedder_owner),
        forall|i: int|
            #![trigger roots[i]]
            0 <= i < roots.len() ==> {
                &&& is_collection(heaps[i], heaps[i + 1], roots[i], compactions[i])
                &&& roots[i].weak_refs.contains(weak_refs[i])
                &&& weak_refs[i + 1].index == compactions[i].weak_refs.shifted(weak_refs[i].index)
            },
    ensures
        keeps_native(heaps[n], weak_refs[n], embedder_data, embedder_owner),
    decreases n,
{
    if n > 0 {
        let i = n - 1;
        lemma_kept_targets_survive(
            heaps,
            roots,
            compactions,
            weak_refs,
            embedder_data,
            embedder_owner,
            i,
        );
        assert(roots[i].weak_refs.contains(weak_refs[i]));
        lemma_kept_target_survives(
            heaps[i],
            heaps[i + 1],
            roots[i],
            compactions[i],
            weak_refs[i],
            embedder_data,
            embedder_owner,
        );
        assert(weak_refs[n] == (WeakRef {
            index: compactions[i].weak_refs.shifted(weak_refs[i].index),
        }));
    }
}

/// Whether an object is referred to by anything but a `WeakRef`: by a root, or
/// by a property, prototype or element in the heap.
pub open spec fn is_referenced(heap: Heap, roots: QueuesModel, e: EmbedderObject) -> bool {
    let object = Object::EmbedderObject(e);
    ||| roots.embedder_objects.contains(e)
    ||| exists|i: int|
        0 <= i < heap.objects@.len() && (#[trigger] heap.objects@[i]).prototype == Some(object)
    ||| exists|i: int, j: int|
        0 <= i < heap.objects@.len() && 0 <= j < heap.objects@[i].properties@.len() && (
        #[trigger] heap.objects@[i].properties@[j]).value == Value::Object(object)
    ||| exists|i: int, j: int|
        0 <= i < heap.arrays@.len() && 0 <= j < heap.arrays@[i].properties@.len() && (
        #[trigger] heap.arrays@[i].properties@[j]).value == Value::Object(object)
    ||| exists|i: int, j: int|
        0 <= i < heap.arrays@.len() && 0 <= j < heap.arrays@[i].elements@.len()
            && #[trigger] heap.arrays@[i].elements@[j] == Value::Object(object)
}

/// An embedder object that nothing refers to and that no `WeakRef` keeps alive
/// is not reached.
pub proof fn lemma_unreferenced_is_removed(
    heap: Heap,
    roots: QueuesModel,
    live: LiveModel,
    e: EmbedderObject,
)
    requires
        is_marking(heap, roots, live),
        e.valid(heap),
        !is_referenced(heap, roots, e),
        forall|i: int|
            0 <= i < heap.weak_refs@.len() ==> !kept_alive_by(
                #[trigger] heap.weak_refs@[i],
                WeakKey::EmbedderObject(e),
            ),
    ensures
        !live.embedder_objects[e.index as int],
{
    let other = LiveModel {
        embedder_objects: live.embedder_objects.update(e.index as int, false),
        ..live
    };
    // Everything else that stayed still does.
    assert forall|value: Value|
        is_live_value(live, value) && value != Value::Object(
            Object::EmbedderObject(e),
        ) implies #[trigger] is_live_value(other, value) by {
        if let Value::Object(Object::EmbedderObject(x)) = value {
            assert(x.index != e.index);
        }
    }
    assert(all_live(roots, other)) by {
        assert forall|i: int| 0 <= i < roots.embedder_objects.len() implies is_live(
            other.embedder_objects,
            (#[trigger] roots.embedder_objects[i]).index,
        ) by {
            assert(roots.embedder_objects.contains(roots.embedder_objects[i]));
        }
    }
    assert forall|i: int| 0 <= i < heap.objects@.len() && other.objects[i] implies is_object_closed(
        other,
        #[trigger] heap.objects@[i],
    ) by {
        let data = heap.objects@[i];
        assert(is_object_closed(live, data));
        if let Some(prototype) = data.prototype {
            assert(is_live_value(live, Value::Object(prototype)));
            assert(is_live_value(other, Value::Object(prototype)));
        }
        assert forall|j: int| 0 <= j < data.properties@.len() implies is_live_value(
            other,
            (#[trigger] data.properties@[j]).value,
        ) by {
            assert(heap.objects@[i].properties@[j].value != Value::Object(
                Object::EmbedderObject(e),
            ));
        }
    }
    assert forall|i: int| 0 <= i < heap.arrays@.len() && other.arrays[i] implies are_live_properties(
        other,
        (#[trigger] heap.arrays@[i]).properties@,
    ) by {
        let properties = heap.arrays@[i].properties@;
        assert(are_live_properties(live, properties));
        assert forall|j: int| 0 <= j < properties.len() implies is_live_value(
            other,
            (#[trigger] properties[j]).value,
        ) by {
            assert(heap.arrays@[i].properties@[j].value != Value::Object(
                Object::EmbedderObject(e),
            ));
        }
    }
    assert forall|i: int| 0 <= i < heap.weak_refs@.len() && other.weak_refs[i] implies all_live(
        mark_weak_ref(no_marks(), #[trigger] heap.weak_refs@[i]),
        other,
    ) by {
        let marks = mark_weak_ref(no_marks(), heap.weak_refs@[i]);
        assert(all_live(marks, live));
        assert(!kept_alive_by(heap.weak_refs@[i], WeakKey::EmbedderObject(e)));
    }
    assert(is_closed(heap, roots, other));
    if live.embedder_objects[e.index as int] {
        assert(is_live(live.embedder_objects, e.index));
        assert(is_live(other.embedder_objects, e.index));
    }
}

/// Once the kept-alive set is cleared and a collection has run, a target that
/// nothing but `WeakRef`s refers to is gone: dereferencing gives nothing.
pub proof fn lemma_cleared_target_is_collected(
    before: Agent,
    middle: Agent,
    roots: QueuesModel,
    compactions: CompactionLists,
    weak_ref: WeakRef,
    target: EmbedderObject,
    agent: Agent,
    after: Agent,
    r: Option<EmbedderObject>,
)
    requires
        cleared(before, middle),
        is_collection(middle.heap, agent.heap, roots, compactions),
        roots.weak_refs.contains(weak_ref),
        weak_ref.data(middle.heap).weak_ref_target == Some(WeakKey::EmbedderObject(target)),
        target.valid(middle.heap),
        !is_referenced(middle.heap, roots, target),
        dereferenced(
            agent,
            after,
            WeakRef { index: compactions.weak_refs.shifted(weak_ref.index) },
            r,
        ),
    ensures
        r is None,
        after == agent,
{
    lemma_unreferenced_is_removed(middle.heap, roots, compactions@, target);
    lemma_live_data_is_moved(middle.heap, agent.heap, roots, compactions);
    assert(is_live(compactions@.weak_refs, weak_ref.index));
    assert(weak_ref.data(middle.heap) == middle.heap.weak_refs@[weak_ref.index as int]);
}

/// A regular expression has the prototype of the realm that it was created in,
/// whatever realm is current when the prototype is read.
pub proof fn lemma_prototype_is_of_creation_realm(
    before: Agent,
    created: Agent,
    agent: Agent,
    r: RegExp,
    data: RegExpHeapData,
)
    requires
        regexp_created(before, created, r, data),
        r.data(agent.heap).object_index == r.data(created.heap).object_index,
        extends(created.heap.objects@, agent.heap.objects@),
    ensures
        r.spec_internal_prototype(agent) == Some(before.spec_realm().reg_exp_prototype),
{
}

/// A rooted regular expression keeps its prototype over any number of
/// collections, whatever realm is current when the prototype is read.
///
/// Between `heaps[i]` and `heaps[i + 1]` lies a collection from `roots[i]`;
/// `regexps[i]` and `prototypes[i]` are the handles of the regular expression
/// and of its prototype in `heaps[i]`.
pub proof fn lemma_prototype_survives_collections(
    heaps: Seq<Heap>,
    roots: Seq<QueuesModel>,
    compactions: Seq<CompactionLists>,
    regexps: Seq<RegExp>,
    prototypes: Seq<Object>,
    first: Agent,
    last: Agent,
)
    requires
        heaps.len() > 0,
        regexps.len() == heaps.len(),
        prototypes.len() == heaps.len(),
        roots.len() == heaps.len() - 1,
        compactions.len() == heaps.len() - 1,
        first.heap == heaps[0],
        last.heap == heaps.last(),
        regexps[0].data(heaps[0]).object_index is Some,
        regexps[0].spec_internal_prototype(first) == Some(prototypes[0]),
        forall|i: int|
            #![trigger roots[i]]
            0 <= i < roots.len() ==> {
                &&& is_collection(heaps[i], heaps[i + 1], roots[i], compactions[i])
                &&& roots[i].regexps.contains(regexps[i])
                &&& regexps[i + 1].index == compactions[i].regexps.shifted(regexps[i].index)
                &&& prototypes[i + 1] == compactions[i].swept_handle(prototypes[i])
            },
    ensures
        regexps.last().spec_internal_prototype(last) == Some(prototypes.last()),
{
    lemma_backing_prototypes_survive(
        heaps,
        roots,
        compactions,
        regexps,
        prototypes,
        heaps.len() - 1,
    );
}

/// Whether a regular expression has a backing object with the prototype.
spec fn has_backing_prototype(heap: Heap, r: RegExp, prototype: Object) -> bool {
    r.data(heap).object_index matches Some(o) && o.data(heap).prototype == Some(prototype)
}

proof fn lemma_backing_prototypes_survive(
    heaps: Seq<Heap>,
    roots: Seq<QueuesModel>,
    compactions: Seq<CompactionLists>,
    regexps: Seq<RegExp>,
    prototypes: Seq<Object>,
    n: int,
)
    requires
        0 <= n < heaps.len(),
        regexps.len() == heaps.len(),
        prototypes.len() == heaps.len(),
        roots.len() == heaps.len() - 1,
        compactions.len() == heaps.len() - 1,
        has_backing_prototype(heaps[0], regexps[0], prototypes[0]),
        forall|i: int|
            #![trigger roots[i]]
            0 <= i < roots.len() ==> {
                &&& is_collection(heaps[i], heaps[i + 1], roots[i], compactions[i])
                &&& roots[i].regexps.contains(regexps[i])
                &&& regexps[i + 1].index == compactions[i].regexps.shifted(regexps[i].index)
                &&& prototypes[i + 1] == compactions[i].swept_handle(prototypes[i])
            },
    ensures
        has_backing_prototype(heaps[n], regexps[n], prototypes[n]),
    decreases n,
{
    if n > 0 {
        let i = n - 1;
        lemma_backing_prototypes_survive(heaps, roots, compactions, regexps, prototypes, i);
        assert(roots[i].regexps.contains(regexps[i]));
        let live = compactions[i]@;
        let r = regexps[i];
        assert(is_live(live.regexps, r.index));
        let marks = mark_regexp(no_marks(), heaps[i].regexps@[r.index as int]);
        assert(all_live(marks, live));
        if let Some(o) = r.data(heaps[i]).object_index {
            assert(marks.objects[0] == o);
            lemma_live_data_is_moved(heaps[i], heaps[i + 1], roots[i], compactions[i]);
            assert(o.data(heaps[i]) == heaps[i].objects@[o.index as int]);
            assert(regexps[n] == (RegExp { index: compactions[i].regexps.shifted(r.index) }));
        }
    }
}

} // verus!
