//! What the garbage collector asks of heap data.
//!
//! Collection marks what can be reached, then removes everything else and
//! moves what stays to the front of its part of the heap. Heap data takes part
//! by handing its handles to the marking phase and by adjusting them afterwards.

use vstd::prelude::*;

use crate::embedder_object::EmbedderObjectHeapData;
use crate::heap::Heap;
use crate::regexp::data::RegExpHeapData;
use crate::values::{
    Array, EmbedderObject, ExoticObject, Function, JsString, OrdinaryObject, RegExp, Symbol,
    WeakKey, WeakRef,
};
use crate::weak_ref::{kept_alive_by, WeakRefHeapData};

verus! {

/// The handles that the marking phase has still to visit.
#[derive(Debug)]
pub struct WorkQueues {
    pub strings: Vec<JsString>,
    pub symbols: Vec<Symbol>,
    pub objects: Vec<OrdinaryObject>,
    pub arrays: Vec<Array>,
    pub functions: Vec<Function>,
    pub regexps: Vec<RegExp>,
    pub embedder_objects: Vec<EmbedderObject>,
    pub weak_refs: Vec<WeakRef>,
    pub exotic_objects: Vec<ExoticObject>,
}

/// What [`WorkQueues`] hold.
#[verifier::ext_equal]
pub struct QueuesModel {
    pub strings: Seq<JsString>,
    pub symbols: Seq<Symbol>,
    pub objects: Seq<OrdinaryObject>,
    pub arrays: Seq<Array>,
    pub functions: Seq<Function>,
    pub regexps: Seq<RegExp>,
    pub embedder_objects: Seq<EmbedderObject>,
    pub weak_refs: Seq<WeakRef>,
    pub exotic_objects: Seq<ExoticObject>,
}

impl View for WorkQueues {
    type V = QueuesModel;

    open spec fn view(&self) -> QueuesModel {
        QueuesModel {
            strings: self.strings@,
            symbols: self.symbols@,
            objects: self.objects@,
            arrays: self.arrays@,
            functions: self.functions@,
            regexps: self.regexps@,
            embedder_objects: self.embedder_objects@,
            weak_refs: self.weak_refs@,
            exotic_objects: self.exotic_objects@,
        }
    }
}

impl WorkQueues {
    /// Empty queues.
    pub fn new() -> (r: Self)
        ensures
            r@ == (QueuesModel {
                strings: seq![],
                symbols: seq![],
                objects: seq![],
                arrays: seq![],
                functions: seq![],
                regexps: seq![],
                embedder_objects: seq![],
                weak_refs: seq![],
                exotic_objects: seq![],
            }),
    {
        WorkQueues {
            strings: Vec::new(),
            symbols: Vec::new(),
            objects: Vec::new(),
            arrays: Vec::new(),
            functions: Vec::new(),
            regexps: Vec::new(),
            embedder_objects: Vec::new(),
            weak_refs: Vec::new(),
            exotic_objects: Vec::new(),
        }
    }
}

/// The queues with a backing object added, if there is one.
pub open spec fn mark_object(queues: QueuesModel, object: Option<OrdinaryObject>) -> QueuesModel {
    match object {
        Some(o) => QueuesModel { objects: queues.objects.push(o), ..queues },
        None => queues,
    }
}

/// The queues with a key added, if there is one.
pub open spec fn mark_key(queues: QueuesModel, key: Option<WeakKey>) -> QueuesModel {
    match key {
        None => queues,
        Some(WeakKey::Symbol(d)) => QueuesModel { symbols: queues.symbols.push(d), ..queues },
        Some(WeakKey::Ordinary(d)) => QueuesModel { objects: queues.objects.push(d), ..queues },
        Some(WeakKey::Array(d)) => QueuesModel { arrays: queues.arrays.push(d), ..queues },
        Some(WeakKey::Function(d)) => QueuesModel {
            functions: queues.functions.push(d),
            ..queues
        },
        Some(WeakKey::RegExp(d)) => QueuesModel { regexps: queues.regexps.push(d), ..queues },
        Some(WeakKey::EmbedderObject(d)) => QueuesModel {
            embedder_objects: queues.embedder_objects.push(d),
            ..queues
        },
        Some(WeakKey::WeakRef(d)) => QueuesModel { weak_refs: queues.weak_refs.push(d), ..queues },
        Some(WeakKey::Exotic(d)) => QueuesModel {
            exotic_objects: queues.exotic_objects.push(d),
            ..queues
        },
    }
}

/// The queues with what a `WeakRef` refers to added: the backing object, and
/// the target only while it is kept alive.
pub open spec fn mark_weak_ref(queues: QueuesModel, data: WeakRefHeapData) -> QueuesModel {
    if data.kept_alive {
        mark_key(mark_object(queues, data.object_index), data.weak_ref_target)
    } else {
        mark_object(queues, data.object_index)
    }
}

/// The queues with what an embedder object refers to added.
pub open spec fn mark_embedder_object(
    queues: QueuesModel,
    data: EmbedderObjectHeapData,
) -> QueuesModel {
    mark_object(queues, data.backing_object)
}

/// The queues with what a regular expression refers to added.
pub open spec fn mark_regexp(queues: QueuesModel, data: RegExpHeapData) -> QueuesModel {
    QueuesModel {
        strings: queues.strings.push(data.original_source),
        ..mark_object(queues, data.object_index)
    }
}

/// The number of `true` among the first `n`.
pub open spec fn live_before(live: Seq<bool>, n: int) -> nat
    decreases n,
{
    if n <= 0 || n > live.len() {
        0
    } else if live[n - 1] {
        live_before(live, n - 1) + 1
    } else {
        live_before(live, n - 1)
    }
}

/// The items that stay, in order.
pub open spec fn compact<T>(items: Seq<T>, live: Seq<bool>) -> Seq<T>
    decreases items.len(),
{
    if items.len() == 0 || items.len() != live.len() {
        seq![]
    } else if live.last() {
        compact(items.drop_last(), live.drop_last()).push(items.last())
    } else {
        compact(items.drop_last(), live.drop_last())
    }
}

/// Which items of one part of the heap stay.
#[derive(Debug)]
pub struct CompactionList {
    pub live: Vec<bool>,
}

impl CompactionList {
    /// Where the item at `index` is after compaction.
    pub open spec fn shifted(self, index: usize) -> usize {
        live_before(self.live@, index as int) as usize
    }

    /// Where the item at `index` is after compaction, unless it was removed.
    pub open spec fn shifted_weak(self, index: usize) -> Option<usize> {
        if self.live@[index as int] {
            Some(self.shifted(index))
        } else {
            None
        }
    }

    /// Where the item at `index` is after compaction.
    pub fn shift_index(&self, index: usize) -> (r: usize)
        requires
            index < self.live@.len(),
        ensures
            r == live_before(self.live@, index as int),
            r == self.shifted(index),
            r <= index,
    {
        let mut count: usize = 0;
        let mut i: usize = 0;
        while i < index
            invariant
                i <= index < self.live@.len(),
                count == live_before(self.live@, i as int),
                count <= i,
            decreases index - i,
        {
            if self.live[i] {
                count = count + 1;
            }
            i = i + 1;
        }
        count
    }

    /// Where the item at `index` is after compaction, unless it was removed.
    pub fn shift_weak_index(&self, index: usize) -> (r: Option<usize>)
        requires
            index < self.live@.len(),
        ensures
            r == self.shifted_weak(index),
    {
        if self.live[index] {
            Some(self.shift_index(index))
        } else {
            None
        }
    }
}

/// Which items of each part of the heap stay.
#[derive(Debug)]
pub struct CompactionLists {
    pub strings: CompactionList,
    pub symbols: CompactionList,
    pub objects: CompactionList,
    pub arrays: CompactionList,
    pub functions: CompactionList,
    pub regexps: CompactionList,
    pub embedder_objects: CompactionList,
    pub weak_refs: CompactionList,
    pub exotic_objects: CompactionList,
}

impl CompactionLists {
    /// Whether the lists speak of a backing object, if there is one.
    pub open spec fn knows_object(self, object: Option<OrdinaryObject>) -> bool {
        object matches Some(o) ==> o.index < self.objects.live@.len()
    }

    /// Whether the lists speak of a key.
    pub open spec fn knows_key(self, key: WeakKey) -> bool {
        match key {
            WeakKey::Symbol(d) => d.index < self.symbols.live@.len(),
            WeakKey::Ordinary(d) => d.index < self.objects.live@.len(),
            WeakKey::Array(d) => d.index < self.arrays.live@.len(),
            WeakKey::Function(d) => d.index < self.functions.live@.len(),
            WeakKey::RegExp(d) => d.index < self.regexps.live@.len(),
            WeakKey::EmbedderObject(d) => d.index < self.embedder_objects.live@.len(),
            WeakKey::WeakRef(d) => d.index < self.weak_refs.live@.len(),
            WeakKey::Exotic(d) => d.index < self.exotic_objects.live@.len(),
        }
    }

    /// A backing object handle after compaction.
    pub open spec fn swept_object(self, object: Option<OrdinaryObject>) -> Option<OrdinaryObject> {
        match object {
            Some(o) => Some(OrdinaryObject { index: self.objects.shifted(o.index) }),
            None => None,
        }
    }

    /// The data of an embedder object after compaction. The native data and the
    /// owner stay.
    pub open spec fn swept_embedder_object(
        self,
        data: EmbedderObjectHeapData,
    ) -> EmbedderObjectHeapData {
        EmbedderObjectHeapData { backing_object: self.swept_object(data.backing_object), ..data }
    }

    /// The data of a regular expression after compaction.
    pub open spec fn swept_regexp(self, data: RegExpHeapData) -> RegExpHeapData {
        RegExpHeapData {
            object_index: self.swept_object(data.object_index),
            original_source: JsString { index: self.strings.shifted(data.original_source.index) },
            ..data
        }
    }

    /// The data of a `WeakRef` after compaction. The target is gone if it was
    /// removed.
    pub open spec fn swept_weak_ref(self, data: WeakRefHeapData) -> WeakRefHeapData {
        WeakRefHeapData {
            object_index: self.swept_object(data.object_index),
            weak_ref_target: match data.weak_ref_target {
                Some(key) => self.swept_key(key),
                None => None,
            },
            ..data
        }
    }

    /// A key after compaction, unless what it stands for was removed.
    pub open spec fn swept_key(self, key: WeakKey) -> Option<WeakKey> {
        match key {
            WeakKey::Symbol(d) => match self.symbols.shifted_weak(d.index) {
                Some(index) => Some(WeakKey::Symbol(Symbol { index })),
                None => None,
            },
            WeakKey::Ordinary(d) => match self.objects.shifted_weak(d.index) {
                Some(index) => Some(WeakKey::Ordinary(OrdinaryObject { index })),
                None => None,
            },
            WeakKey::Array(d) => match self.arrays.shifted_weak(d.index) {
                Some(index) => Some(WeakKey::Array(Array { index })),
                None => None,
            },
            WeakKey::Function(d) => match self.functions.shifted_weak(d.index) {
                Some(index) => Some(WeakKey::Function(Function { index })),
                None => None,
            },
            WeakKey::RegExp(d) => match self.regexps.shifted_weak(d.index) {
                Some(index) => Some(WeakKey::RegExp(RegExp { index })),
                None => None,
            },
            WeakKey::EmbedderObject(d) => match self.embedder_objects.shifted_weak(d.index) {
                Some(index) => Some(WeakKey::EmbedderObject(EmbedderObject { index })),
                None => None,
            },
            WeakKey::WeakRef(d) => match self.weak_refs.shifted_weak(d.index) {
                Some(index) => Some(WeakKey::WeakRef(WeakRef { index })),
                None => None,
            },
            WeakKey::Exotic(d) => match self.exotic_objects.shifted_weak(d.index) {
                Some(index) => Some(WeakKey::Exotic(ExoticObject { index })),
                None => None,
            },
        }
    }
}

impl EmbedderObject {
    /// Hands the object to the marking phase.
    pub fn mark_values(&self, queues: &mut WorkQueues)
        ensures
            final(queues)@ == (QueuesModel {
                embedder_objects: old(queues)@.embedder_objects.push(*self),
                ..old(queues)@
            }),
    {
        queues.embedder_objects.push(*self);
    }

    /// Adjusts the handle to where the object is after compaction.
    pub fn sweep_values(&mut self, compactions: &CompactionLists)
        requires
            old(self).index < compactions.embedder_objects.live@.len(),
        ensures
            final(self).index == compactions.embedder_objects.shifted(old(self).index),
    {
        self.index = compactions.embedder_objects.shift_index(self.index);
    }

    /// The handle after compaction, unless the object was collected.
    pub fn sweep_weak_reference(self, compactions: &CompactionLists) -> (r: Option<EmbedderObject>)
        requires
            self.index < compactions.embedder_objects.live@.len(),
        ensures
            r == (match compactions.embedder_objects.shifted_weak(self.index) {
                Some(index) => Some(EmbedderObject { index }),
                None => None,
            }),
    {
        match compactions.embedder_objects.shift_weak_index(self.index) {
            Some(index) => Some(EmbedderObject { index }),
            None => None,
        }
    }
}

impl WeakKey {
    /// Hands what the key stands for to the marking phase.
    pub fn mark_values(&self, queues: &mut WorkQueues)
        ensures
            final(queues)@ == mark_key(old(queues)@, Some(*self)),
    {
        match *self {
            WeakKey::Symbol(d) => queues.symbols.push(d),
            WeakKey::Ordinary(d) => queues.objects.push(d),
            WeakKey::Array(d) => queues.arrays.push(d),
            WeakKey::Function(d) => queues.functions.push(d),
            WeakKey::RegExp(d) => queues.regexps.push(d),
            WeakKey::EmbedderObject(d) => d.mark_values(queues),
            WeakKey::WeakRef(d) => queues.weak_refs.push(d),
            WeakKey::Exotic(d) => queues.exotic_objects.push(d),
        }
    }

    /// The key after compaction, unless what it stands for was collected.
    pub fn sweep_weak_reference(self, compactions: &CompactionLists) -> (r: Option<WeakKey>)
        requires
            compactions.knows_key(self),
        ensures
            r == compactions.swept_key(self),
    {
        match self {
            WeakKey::Symbol(d) => match compactions.symbols.shift_weak_index(d.index) {
                Some(index) => Some(WeakKey::Symbol(Symbol { index })),
                None => None,
            },
            WeakKey::Ordinary(d) => match compactions.objects.shift_weak_index(d.index) {
                Some(index) => Some(WeakKey::Ordinary(OrdinaryObject { index })),
                None => None,
            },
            WeakKey::Array(d) => match compactions.arrays.shift_weak_index(d.index) {
                Some(index) => Some(WeakKey::Array(Array { index })),
                None => None,
            },
            WeakKey::Function(d) => match compactions.functions.shift_weak_index(d.index) {
                Some(index) => Some(WeakKey::Function(Function { index })),
                None => None,
            },
            WeakKey::RegExp(d) => match compactions.regexps.shift_weak_index(d.index) {
                Some(index) => Some(WeakKey::RegExp(RegExp { index })),
                None => None,
            },
            WeakKey::EmbedderObject(d) => match d.sweep_weak_reference(compactions) {
                Some(d) => Some(WeakKey::EmbedderObject(d)),
                None => None,
            },
            WeakKey::WeakRef(d) => match compactions.weak_refs.shift_weak_index(d.index) {
                Some(index) => Some(WeakKey::WeakRef(WeakRef { index })),
                None => None,
            },
            WeakKey::Exotic(d) => match compactions.exotic_objects.shift_weak_index(d.index) {
                Some(index) => Some(WeakKey::Exotic(ExoticObject { index })),
                None => None,
            },
        }
    }
}

/// Hands a backing object to the marking phase, if there is one.
fn mark_backing_object(object: Option<OrdinaryObject>, queues: &mut WorkQueues)
    ensures
        final(queues)@ == mark_object(old(queues)@, object),
{
    if let Some(o) = object {
        queues.objects.push(o);
    }
}

/// A backing object handle after compaction.
fn sweep_backing_object(object: Option<OrdinaryObject>, compactions: &CompactionLists) -> (r:
    Option<OrdinaryObject>)
    requires
        compactions.knows_object(object),
    ensures
        r == compactions.swept_object(object),
{
    match object {
        Some(o) => Some(OrdinaryObject { index: compactions.objects.shift_index(o.index) }),
        None => None,
    }
}

impl EmbedderObjectHeapData {
    /// Hands the backing object to the marking phase. The native data are plain
    /// integers: nothing to trace.
    pub fn mark_values(&self, queues: &mut WorkQueues)
        ensures
            final(queues)@ == mark_embedder_object(old(queues)@, *self),
    {
        mark_backing_object(self.backing_object, queues);
    }

    /// Adjusts the handles to where things are after compaction.
    pub fn sweep_values(&mut self, compactions: &CompactionLists)
        requires
            compactions.knows_object(old(self).backing_object),
        ensures
            *final(self) == compactions.swept_embedder_object(*old(self)),
    {
        self.backing_object = sweep_backing_object(self.backing_object, compactions);
    }
}

impl RegExpHeapData {
    /// Hands the backing object and the source to the marking phase.
    pub fn mark_values(&self, queues: &mut WorkQueues)
        ensures
            final(queues)@ == mark_regexp(old(queues)@, *self),
    {
        mark_backing_object(self.object_index, queues);
        queues.strings.push(self.original_source);
    }

    /// Adjusts the handles to where things are after compaction.
    pub fn sweep_values(&mut self, compactions: &CompactionLists)
        requires
            compactions.knows_object(old(self).object_index),
            old(self).original_source.index < compactions.strings.live@.len(),
        ensures
            *final(self) == compactions.swept_regexp(*old(self)),
    {
        self.object_index = sweep_backing_object(self.object_index, compactions);
        self.original_source = JsString {
            index: compactions.strings.shift_index(self.original_source.index),
        };
    }
}

impl WeakRefHeapData {
    /// Hands the backing object to the marking phase, and the target only while
    /// it is kept alive.
    pub fn mark_values(&self, queues: &mut WorkQueues)
        ensures
            final(queues)@ == mark_weak_ref(old(queues)@, *self),
    {
        mark_backing_object(self.object_index, queues);
        if self.kept_alive {
            if let Some(target) = self.weak_ref_target {
                target.mark_values(queues);
            }
        }
    }

    /// Adjusts the handles to where things are after compaction.
    ///
    /// The target is a *weak* reference: if it was collected, there is no
    /// target any more; otherwise its handle is adjusted.
    pub fn sweep_values(&mut self, compactions: &CompactionLists)
        requires
            compactions.knows_object(old(self).object_index),
            old(self).weak_ref_target matches Some(key) ==> compactions.knows_key(key),
        ensures
            *final(self) == compactions.swept_weak_ref(*old(self)),
    {
        self.object_index = sweep_backing_object(self.object_index, compactions);
        if let Some(target) = self.weak_ref_target {
            self.weak_ref_target = target.sweep_weak_reference(compactions);
        }
    }
}

/// What is live before a position is at least as much as before an earlier one.
pub proof fn lemma_live_before_monotonic(live: Seq<bool>, i: int, j: int)
    requires
        0 <= i <= j <= live.len(),
    ensures
        live_before(live, i) <= live_before(live, j) <= live_before(live, i) + (j - i),
    decreases j - i,
{
    if i < j {
        lemma_live_before_monotonic(live, i, j - 1);
    }
}

proof fn lemma_live_before_prefix(live: Seq<bool>, n: int)
    requires
        0 <= n < live.len(),
    ensures
        live_before(live.drop_last(), n) == live_before(live, n),
    decreases n,
{
    if n > 0 {
        lemma_live_before_prefix(live, n - 1);
    }
}

proof fn lemma_compact_length<T>(items: Seq<T>, live: Seq<bool>)
    requires
        items.len() == live.len(),
    ensures
        compact(items, live).len() == live_before(live, live.len() as int),
    decreases items.len(),
{
    if items.len() > 0 {
        lemma_compact_length(items.drop_last(), live.drop_last());
        lemma_live_before_prefix(live, live.len() - 1);
    }
}

/// An adjusted handle finds, after compaction, the item that it stood for.
pub proof fn lemma_compaction_keeps_items<T>(items: Seq<T>, live: Seq<bool>, i: int)
    requires
        items.len() == live.len(),
        0 <= i < items.len(),
        live[i],
    ensures
        live_before(live, i) < compact(items, live).len(),
        compact(items, live)[live_before(live, i) as int] == items[i],
    decreases items.len(),
{
    let last = items.len() - 1;
    lemma_compact_length(items.drop_last(), live.drop_last());
    lemma_live_before_prefix(live, last);
    if i < last {
        lemma_compaction_keeps_items(items.drop_last(), live.drop_last(), i);
        lemma_live_before_prefix(live, i);
    }
}

/// Adjusted handles of two things that stay are different and in the same order.
pub proof fn lemma_compaction_keeps_order(live: Seq<bool>, i: int, j: int)
    requires
        0 <= i < j < live.len(),
        live[i],
        live[j],
    ensures
        live_before(live, i) < live_before(live, j),
{
    lemma_live_before_monotonic(live, i + 1, j);
}

/// After a collection a `WeakRef` of an embedder object has no target if the
/// object was removed; otherwise its target is the same object where that is
/// now, with the same native data and owner.
pub proof fn lemma_weak_ref_after_collection(
    objects: Seq<EmbedderObjectHeapData>,
    compactions: CompactionLists,
    target: EmbedderObject,
)
    requires
        objects.len() == compactions.embedder_objects.live@.len(),
        target.index < objects.len(),
    ensures
        (match compactions.swept_key(WeakKey::EmbedderObject(target)) {
            Some(WeakKey::EmbedderObject(moved)) => {
                &&& compactions.embedder_objects.live@[target.index as int]
                &&& moved.index < compact(objects, compactions.embedder_objects.live@).len()
                &&& compact(objects, compactions.embedder_objects.live@)[moved.index as int]
                    == objects[target.index as int]
            },
            Some(_) => false,
            None => !compactions.embedder_objects.live@[target.index as int],
        }),
{
    let live = compactions.embedder_objects.live@;
    lemma_live_before_monotonic(live, 0, target.index as int);
    if live[target.index as int] {
        lemma_compaction_keeps_items(objects, live, target.index as int);
    }
}

/// A `WeakRef` hands its target to the marking phase exactly while it keeps
/// the target alive.
pub proof fn lemma_target_marked_while_kept_alive(
    before: QueuesModel,
    data: WeakRefHeapData,
    target: EmbedderObject,
)
    requires
        data.weak_ref_target == Some(WeakKey::EmbedderObject(target)),
    ensures
        kept_alive_by(data, WeakKey::EmbedderObject(target)) ==> mark_weak_ref(
            before,
            data,
        ).embedder_objects == before.embedder_objects.push(target),
        !kept_alive_by(data, WeakKey::EmbedderObject(target)) ==> mark_weak_ref(
            before,
            data,
        ).embedder_objects == before.embedder_objects,
{
}

/// After a collection a regular expression has the same source, so its matcher
/// is still the one that was compiled from it.
pub proof fn lemma_source_after_collection(
    before: Heap,
    after: Heap,
    compactions: CompactionLists,
    source: JsString,
)
    requires
        source.valid(before),
        before.strings@.len() == compactions.strings.live@.len(),
        compactions.strings.live@[source.index as int],
        after.strings@ == compact(before.strings@, compactions.strings.live@),
    ensures
        ({
            let moved = JsString { index: compactions.strings.shifted(source.index) };
            moved.valid(after) && moved.units(after) == source.units(before)
        }),
{
    let live = compactions.strings.live@;
    lemma_live_before_monotonic(live, 0, source.index as int);
    lemma_compaction_keeps_items(before.strings@, live, source.index as int);
}

/// An embedder object hands over its backing object and nothing else.
pub proof fn lemma_marks_of_embedder_object(before: QueuesModel, data: EmbedderObjectHeapData)
    ensures
        ({
            let after = mark_embedder_object(before, data);
            &&& data.backing_object is None ==> after == before
            &&& data.backing_object matches Some(o) ==> after == (QueuesModel {
                objects: before.objects.push(o),
                ..before
            })
        }),
{
}

/// A regular expression hands over its source, and its backing object if there
/// is one, and nothing else.
pub proof fn lemma_marks_of_regexp(before: QueuesModel, data: RegExpHeapData)
    ensures
        ({
            let after = mark_regexp(before, data);
            let strings = before.strings.push(data.original_source);
            &&& data.object_index is None ==> after == (QueuesModel { strings, ..before })
            &&& data.object_index matches Some(o) ==> after == (QueuesModel {
                strings,
                objects: before.objects.push(o),
                ..before
            })
        }),
{
}

/// A key hands over what it stands for, to the queue of its kind.
pub proof fn lemma_marks_of_key(before: QueuesModel, key: WeakKey)
    ensures
        mark_key(before, None) == before,
        ({
            let after = mark_key(before, Some(key));
            &&& key matches WeakKey::Symbol(d) ==> after == (QueuesModel {
                symbols: before.symbols.push(d),
                ..before
            })
            &&& key matches WeakKey::Ordinary(d) ==> after == (QueuesModel {
                objects: before.objects.push(d),
                ..before
            })
            &&& key matches WeakKey::Array(d) ==> after == (QueuesModel {
                arrays: before.arrays.push(d),
                ..before
            })
            &&& key matches WeakKey::Function(d) ==> after == (QueuesModel {
                functions: before.functions.push(d),
                ..before
            })
            &&& key matches WeakKey::RegExp(d) ==> after == (QueuesModel {
                regexps: before.regexps.push(d),
                ..before
            })
            &&& key matches WeakKey::EmbedderObject(d) ==> after == (QueuesModel {
                embedder_objects: before.embedder_objects.push(d),
                ..before
            })
            &&& key matches WeakKey::WeakRef(d) ==> after == (QueuesModel {
                weak_refs: before.weak_refs.push(d),
                ..before
            })
            &&& key matches WeakKey::Exotic(d) ==> after == (QueuesModel {
                exotic_objects: before.exotic_objects.push(d),
                ..before
            })
        }),
{
}

/// A `WeakRef` that keeps nothing alive, or has no target, hands over its
/// backing object alone, if there is one. One that keeps its target alive hands
/// that over as well.
pub proof fn lemma_marks_of_weak_ref(before: QueuesModel, data: WeakRefHeapData)
    ensures
        ({
            let backed = match data.object_index {
                Some(o) => QueuesModel { objects: before.objects.push(o), ..before },
                None => before,
            };
            &&& !data.kept_alive || data.weak_ref_target is None ==> mark_weak_ref(before, data)
                == backed
            &&& data.weak_ref_target matches Some(key) ==> data.kept_alive ==> mark_weak_ref(
                before,
                data,
            ) == mark_key(backed, Some(key))
        }),
{
}

/// What is counted before a position is how many of the items before it stay.
pub proof fn lemma_live_before_counts(live: Seq<bool>, n: int)
    requires
        0 <= n <= live.len(),
    ensures
        live_before(live, n) == live.take(n).filter(|stays: bool| stays).len(),
    decreases n,
{
    reveal(Seq::filter);
    if n > 0 {
        lemma_live_before_counts(live, n - 1);
        assert(live.take(n).drop_last() =~= live.take(n - 1));
        assert(live.take(n).last() == live[n - 1]);
    }
}

/// A handle is adjusted to how many of the items before it stay. It is adjusted
/// so if the item stays, and gone if not.
pub proof fn lemma_adjusted_handle(list: CompactionList, index: usize)
    requires
        index < list.live@.len(),
    ensures
        list.shifted(index) == list.live@.take(index as int).filter(|stays: bool| stays).len(),
        list.live@[index as int] ==> list.shifted_weak(index) == Some(list.shifted(index)),
        !list.live@[index as int] ==> list.shifted_weak(index) is None,
{
    lemma_live_before_counts(list.live@, index as int);
    lemma_live_before_monotonic(list.live@, 0, index as int);
}

/// Compaction leaves as many items as stay. Together with where each of these
/// is, this says what compaction does.
pub proof fn lemma_compaction_leaves_what_stays<T>(items: Seq<T>, live: Seq<bool>)
    requires
        items.len() == live.len(),
    ensures
        compact(items, live).len() == live.filter(|stays: bool| stays).len(),
{
    lemma_compact_length(items, live);
    lemma_live_before_counts(live, live.len() as int);
    assert(live.take(live.len() as int) =~= live);
}

/// Adjusting the data of an embedder object adjusts the handle of its backing
/// object and changes nothing else.
pub proof fn lemma_swept_embedder_object(lists: CompactionLists, data: EmbedderObjectHeapData)
    ensures
        ({
            let swept = lists.swept_embedder_object(data);
            &&& swept.embedder_data == data.embedder_data
            &&& swept.embedder_owner == data.embedder_owner
            &&& data.backing_object is None ==> swept.backing_object is None
            &&& data.backing_object matches Some(o) ==> swept.backing_object == Some(
                OrdinaryObject { index: lists.objects.shifted(o.index) },
            )
        }),
{
}

/// Adjusting the data of a regular expression adjusts the handles of its source
/// and of its backing object and changes nothing else.
pub proof fn lemma_swept_regexp(lists: CompactionLists, data: RegExpHeapData)
    ensures
        ({
            let swept = lists.swept_regexp(data);
            &&& swept.reg_exp_matcher == data.reg_exp_matcher
            &&& swept.original_flags == data.original_flags
            &&& swept.last_index == data.last_index
            &&& swept.original_source.index == lists.strings.shifted(data.original_source.index)
            &&& data.object_index is None ==> swept.object_index is None
            &&& data.object_index matches Some(o) ==> swept.object_index == Some(
                OrdinaryObject { index: lists.objects.shifted(o.index) },
            )
        }),
{
}

/// Adjusting the data of a `WeakRef` adjusts the handle of its backing object
/// and its target, which is gone exactly if it was removed. Whether it keeps its
/// target alive does not change.
pub proof fn lemma_swept_weak_ref(lists: CompactionLists, data: WeakRefHeapData)
    ensures
        ({
            let swept = lists.swept_weak_ref(data);
            &&& swept.kept_alive == data.kept_alive
            &&& data.object_index is None ==> swept.object_index is None
            &&& data.object_index matches Some(o) ==> swept.object_index == Some(
                OrdinaryObject { index: lists.objects.shifted(o.index) },
            )
            &&& data.weak_ref_target is None ==> swept.weak_ref_target is None
            &&& data.weak_ref_target matches Some(key) ==> swept.weak_ref_target
                == lists.swept_key(key)
        }),
{
}

/// A key is gone exactly if what it stands for was removed. Otherwise it stands
/// for a thing of the same kind, with its handle adjusted by the list of that
/// kind.
pub proof fn lemma_swept_key(lists: CompactionLists, key: WeakKey)
    ensures
        ({
            let swept = lists.swept_key(key);
            &&& key matches WeakKey::Symbol(d) ==> swept == if lists.symbols.live@[d.index as int] {
                Some(WeakKey::Symbol(Symbol { index: lists.symbols.shifted(d.index) }))
            } else {
                None
            }
            &&& key matches WeakKey::Ordinary(d) ==> swept
                == if lists.objects.live@[d.index as int] {
                Some(WeakKey::Ordinary(OrdinaryObject { index: lists.objects.shifted(d.index) }))
            } else {
                None
            }
            &&& key matches WeakKey::Array(d) ==> swept == if lists.arrays.live@[d.index as int] {
                Some(WeakKey::Array(Array { index: lists.arrays.shifted(d.index) }))
            } else {
                None
            }
            &&& key matches WeakKey::Function(d) ==> swept
                == if lists.functions.live@[d.index as int] {
                Some(WeakKey::Function(Function { index: lists.functions.shifted(d.index) }))
            } else {
                None
            }
            &&& key matches WeakKey::RegExp(d) ==> swept == if lists.regexps.live@[d.index as int] {
                Some(WeakKey::RegExp(RegExp { index: lists.regexps.shifted(d.index) }))
            } else {
                None
            }
            &&& key matches WeakKey::EmbedderObject(d) ==> swept
                == if lists.embedder_objects.live@[d.index as int] {
                Some(
                    WeakKey::EmbedderObject(
                        EmbedderObject { index: lists.embedder_objects.shifted(d.index) },
                    ),
                )
            } else {
                None
            }
            &&& key matches WeakKey::WeakRef(d) ==> swept
                == if lists.weak_refs.live@[d.index as int] {
                Some(WeakKey::WeakRef(WeakRef { index: lists.weak_refs.shifted(d.index) }))
            } else {
                None
            }
            &&& key matches WeakKey::Exotic(d) ==> swept
                == if lists.exotic_objects.live@[d.index as int] {
                Some(WeakKey::Exotic(ExoticObject { index: lists.exotic_objects.shifted(d.index) }))
            } else {
                None
            }
        }),
{
}

/// What queues hold is what each of them holds.
pub proof fn lemma_queues_view(queues: WorkQueues)
    ensures
        queues@.strings == queues.strings@,
        queues@.symbols == queues.symbols@,
        queues@.objects == queues.objects@,
        queues@.arrays == queues.arrays@,
        queues@.functions == queues.functions@,
        queues@.regexps == queues.regexps@,
        queues@.embedder_objects == queues.embedder_objects@,
        queues@.weak_refs == queues.weak_refs@,
        queues@.exotic_objects == queues.exotic_objects@,
{
}

/// An embedder object hands itself over to its own queue alone. After compaction
/// its handle is adjusted to how many of those before it stay, and a weak handle
/// is gone exactly if the object was removed.
pub proof fn law_embedder_object_handle(
    e: &EmbedderObject,
    queues: &mut WorkQueues,
    moved: &mut EmbedderObject,
    lists: &CompactionLists,
    weak: Option<EmbedderObject>,
)
    requires
        call_ensures(EmbedderObject::mark_values, (e, queues), ()),
        *old(moved) == *e,
        e.index < lists.embedder_objects.live@.len(),
        call_ensures(EmbedderObject::sweep_values, (moved, lists), ()),
        call_ensures(EmbedderObject::sweep_weak_reference, (*e, lists), weak),
    ensures
        final(queues)@ == (QueuesModel {
            embedder_objects: old(queues)@.embedder_objects.push(*e),
            ..old(queues)@
        }),
        final(moved).index == lists.embedder_objects.live@.take(e.index as int).filter(
            |stays: bool| stays,
        ).len(),
        lists.embedder_objects.live@[e.index as int] ==> weak == Some(*final(moved)),
        !lists.embedder_objects.live@[e.index as int] ==> weak is None,
{
    lemma_adjusted_handle(lists.embedder_objects, e.index);
}

/// New queues hold nothing.
pub proof fn law_new_queues(queues: WorkQueues)
    requires
        call_ensures(WorkQueues::new, (), queues),
    ensures
        queues.strings@.len() == 0,
        queues.symbols@.len() == 0,
        queues.objects@.len() == 0,
        queues.arrays@.len() == 0,
        queues.functions@.len() == 0,
        queues.regexps@.len() == 0,
        queues.embedder_objects@.len() == 0,
        queues.weak_refs@.len() == 0,
        queues.exotic_objects@.len() == 0,
{
    lemma_queues_view(queues);
}

/// What heap data hands to the marking phase: its backing object if there is one,
/// a regular expression its source too, and a `WeakRef` that keeps its target
/// alive that target too.
pub proof fn law_marks(
    embedder_object: &EmbedderObjectHeapData,
    regexp: &RegExpHeapData,
    weak_ref: &WeakRefHeapData,
    of_embedder_object: &mut WorkQueues,
    of_regexp: &mut WorkQueues,
    of_weak_ref: &mut WorkQueues,
)
    requires
        call_ensures(
            EmbedderObjectHeapData::mark_values,
            (embedder_object, of_embedder_object),
            (),
        ),
        call_ensures(RegExpHeapData::mark_values, (regexp, of_regexp), ()),
        call_ensures(WeakRefHeapData::mark_values, (weak_ref, of_weak_ref), ()),
    ensures
        final(of_embedder_object)@ == (QueuesModel {
            objects: match embedder_object.backing_object {
                Some(o) => old(of_embedder_object)@.objects.push(o),
                None => old(of_embedder_object)@.objects,
            },
            ..old(of_embedder_object)@
        }),
        final(of_regexp)@ == (QueuesModel {
            strings: old(of_regexp)@.strings.push(regexp.original_source),
            objects: match regexp.object_index {
                Some(o) => old(of_regexp)@.objects.push(o),
                None => old(of_regexp)@.objects,
            },
            ..old(of_regexp)@
        }),
        ({
            let backed = QueuesModel {
                objects: match weak_ref.object_index {
                    Some(o) => old(of_weak_ref)@.objects.push(o),
                    None => old(of_weak_ref)@.objects,
                },
                ..old(of_weak_ref)@
            };
            &&& !weak_ref.kept_alive || weak_ref.weak_ref_target is None ==> final(of_weak_ref)@
                == backed
            &&& weak_ref.weak_ref_target matches Some(WeakKey::EmbedderObject(e))
                ==> weak_ref.kept_alive ==> final(of_weak_ref)@ == (QueuesModel {
                embedder_objects: backed.embedder_objects.push(e),
                ..backed
            })
        }),
{
    lemma_marks_of_embedder_object(old(of_embedder_object)@, *embedder_object);
    lemma_marks_of_regexp(old(of_regexp)@, *regexp);
    lemma_marks_of_weak_ref(old(of_weak_ref)@, *weak_ref);
}

/// Adjusting heap data adjusts its handles and nothing else. The target of a
/// `WeakRef` is gone exactly if it was removed.
pub proof fn law_sweeps(
    lists: &CompactionLists,
    embedder_object: &mut EmbedderObjectHeapData,
    regexp: &mut RegExpHeapData,
    weak_ref: &mut WeakRefHeapData,
)
    requires
        call_ensures(EmbedderObjectHeapData::sweep_values, (embedder_object, lists), ()),
        call_ensures(RegExpHeapData::sweep_values, (regexp, lists), ()),
        call_ensures(WeakRefHeapData::sweep_values, (weak_ref, lists), ()),
    ensures
        final(embedder_object).embedder_data == old(embedder_object).embedder_data,
        final(embedder_object).embedder_owner == old(embedder_object).embedder_owner,
        match old(embedder_object).backing_object {
            Some(o) => final(embedder_object).backing_object == Some(
                OrdinaryObject { index: lists.objects.shifted(o.index) },
            ),
            None => final(embedder_object).backing_object is None,
        },
        final(regexp).reg_exp_matcher == old(regexp).reg_exp_matcher,
        final(regexp).original_flags == old(regexp).original_flags,
        final(regexp).last_index == old(regexp).last_index,
        final(regexp).original_source.index == lists.strings.shifted(
            old(regexp).original_source.index,
        ),
        match old(regexp).object_index {
            Some(o) => final(regexp).object_index == Some(
                OrdinaryObject { index: lists.objects.shifted(o.index) },
            ),
            None => final(regexp).object_index is None,
        },
        final(weak_ref).kept_alive == old(weak_ref).kept_alive,
        match old(weak_ref).object_index {
            Some(o) => final(weak_ref).object_index == Some(
                OrdinaryObject { index: lists.objects.shifted(o.index) },
            ),
            None => final(weak_ref).object_index is None,
        },
        match old(weak_ref).weak_ref_target {
            Some(WeakKey::EmbedderObject(e)) => final(weak_ref).weak_ref_target
                == if lists.embedder_objects.live@[e.index as int] {
                Some(
                    WeakKey::EmbedderObject(
                        EmbedderObject { index: lists.embedder_objects.shifted(e.index) },
                    ),
                )
            } else {
                None
            },
            Some(key) => final(weak_ref).weak_ref_target == lists.swept_key(key),
            None => final(weak_ref).weak_ref_target is None,
        },
{
    lemma_swept_embedder_object(*lists, *old(embedder_object));
    lemma_swept_regexp(*lists, *old(regexp));
    lemma_swept_weak_ref(*lists, *old(weak_ref));
    if let Some(key) = old(weak_ref).weak_ref_target {
        lemma_swept_key(*lists, key);
    }
}

} // verus!
