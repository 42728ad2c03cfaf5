//! The agent and its heap.

use vstd::prelude::*;
use wtf8::Wtf8Buf;

use crate::embedder_object::EmbedderObjectHeapData;
use crate::regexp::data::RegExpHeapData;
use crate::values::{Array, Function, Object, OrdinaryObject, Value};
use crate::weak_ref::{key_in_heap, WeakRefHeapData};
use crate::wtf8_buf::code_units;

verus! {

/// The most code units that a string may have: its length and the positions in
/// it are safe integers.
pub const MAX_STRING_LENGTH: u64 = 0x1F_FFFF_FFFF_FFFF;

/// A data property.
#[derive(Debug)]
pub struct Property {
    pub key: String,
    pub value: Value,
    pub writable: bool,
    pub enumerable: bool,
    pub configurable: bool,
}

/// What a [`Property`] says.
#[verifier::ext_equal]
pub struct PropertyModel {
    pub key: Seq<char>,
    pub value: Value,
    pub writable: bool,
    pub enumerable: bool,
    pub configurable: bool,
}

impl View for Property {
    type V = PropertyModel;

    open spec fn view(&self) -> PropertyModel {
        PropertyModel {
            key: self.key@,
            value: self.value,
            writable: self.writable,
            enumerable: self.enumerable,
            configurable: self.configurable,
        }
    }
}

/// A property as CreateDataProperty makes it.
pub open spec fn data_property(key: Seq<char>, value: Value) -> PropertyModel {
    PropertyModel { key, value, writable: true, enumerable: true, configurable: true }
}

/// The properties of an object, in order of creation.
pub open spec fn properties_view(properties: Seq<Property>) -> Seq<PropertyModel> {
    Seq::new(properties.len(), |i: int| properties[i]@)
}

/// Whether some property has the key `key`.
pub open spec fn has_key(properties: Seq<PropertyModel>, key: Seq<char>) -> bool {
    exists|i: int| 0 <= i < properties.len() && (#[trigger] properties[i]).key == key
}

/// Whether `i` is the position of the property with the key `key`.
pub open spec fn is_key_position(properties: Seq<PropertyModel>, key: Seq<char>, i: int) -> bool {
    &&& 0 <= i < properties.len()
    &&& properties[i].key == key
    &&& forall|j: int| 0 <= j < i ==> (#[trigger] properties[j]).key != key
}

/// The property with the key `key`.
pub open spec fn property_of(properties: Seq<PropertyModel>, key: Seq<char>) -> PropertyModel {
    properties[choose|i: int| is_key_position(properties, key, i)]
}

/// The properties with the value of the property `key` replaced.
pub open spec fn with_value(properties: Seq<PropertyModel>, key: Seq<char>, value: Value) -> Seq<
    PropertyModel,
> {
    let i = choose|i: int| is_key_position(properties, key, i);
    properties.update(i, PropertyModel { value, ..properties[i] })
}

/// The position of the property with the key `key`.
pub(crate) fn find_property(properties: &Vec<Property>, key: &String) -> (r: Option<usize>)
    ensures
        (match r {
            Some(i) => {
                &&& is_key_position(properties_view(properties@), key@, i as int)
                &&& i == choose|i: int| is_key_position(properties_view(properties@), key@, i)
            },
            None => !has_key(properties_view(properties@), key@),
        }),
{
    let ghost view = properties_view(properties@);
    let mut i: usize = 0;
    while i < properties.len()
        invariant
            i <= properties@.len(),
            view == properties_view(properties@),
            forall|j: int| 0 <= j < i ==> (#[trigger] view[j]).key != key@,
        decreases properties@.len() - i,
    {
        if properties[i].key == *key {
            assert(is_key_position(view, key@, i as int));
            return Some(i);
        }
        assert(view[i as int].key != key@);
        i = i + 1;
    }
    None
}

/// The data of an ordinary object.
#[derive(Debug)]
pub struct ObjectHeapData {
    pub prototype: Option<Object>,
    pub properties: Vec<Property>,
}

/// The data of an array: its elements and its other own properties.
#[derive(Debug)]
pub struct ArrayHeapData {
    pub elements: Vec<Value>,
    pub properties: Vec<Property>,
}

/// The intrinsics of a realm.
#[derive(Debug, Clone, Copy, PartialEq, Eq, Structural)]
pub struct Realm {
    pub object_prototype: Object,
    pub reg_exp_prototype: Object,
    pub reg_exp_prototype_exec: Function,
}

/// Everything that handles point into.
#[derive(Debug)]
pub struct Heap {
    pub strings: Vec<Wtf8Buf>,
    pub objects: Vec<ObjectHeapData>,
    pub arrays: Vec<ArrayHeapData>,
    pub regexps: Vec<RegExpHeapData>,
    pub embedder_objects: Vec<EmbedderObjectHeapData>,
    pub weak_refs: Vec<WeakRefHeapData>,
}

/// The agent that code runs in.
#[derive(Debug)]
pub struct Agent {
    pub heap: Heap,
    pub realms: Vec<Realm>,
    pub current_realm: usize,
    /// Whether any `WeakRef` may be keeping its target alive.
    pub kept_alive: bool,
}

/// Whether `new` is `old` with more at its end.
pub open spec fn extends<T>(old_items: Seq<T>, new_items: Seq<T>) -> bool {
    &&& old_items.len() <= new_items.len()
    &&& forall|i: int| 0 <= i < old_items.len() ==> #[trigger] new_items[i] == old_items[i]
}

impl Heap {
    /// Whether a backing object handle, if there is one, points into the heap.
    pub open spec fn has_backing(self, object: Option<OrdinaryObject>) -> bool {
        object matches Some(o) ==> o.index < self.objects@.len()
    }

    /// Whether all data in the heap is consistent. The first string is the
    /// empty string.
    pub open spec fn wf(self) -> bool {
        &&& self.strings@.len() > 0
        &&& code_units(self.strings@[0]) == Seq::<u16>::empty()
        &&& forall|i: int|
            0 <= i < self.strings@.len() ==> code_units(#[trigger] self.strings@[i]).len()
                <= MAX_STRING_LENGTH
        &&& forall|i: int|
            0 <= i < self.regexps@.len() ==> (#[trigger] self.regexps@[i]).wf(self)
        &&& forall|i: int|
            0 <= i < self.embedder_objects@.len() ==> self.has_backing(
                (#[trigger] self.embedder_objects@[i]).backing_object,
            )
        &&& forall|i: int|
            0 <= i < self.weak_refs@.len() ==> self.has_backing(
                (#[trigger] self.weak_refs@[i]).object_index,
            ) && (self.weak_refs@[i].weak_ref_target matches Some(key) ==> key_in_heap(key, self))
    }

    /// Whether `new` differs from `self` only by further strings, objects and arrays.
    pub open spec fn grows_to(self, new: Heap) -> bool {
        &&& extends(self.strings@, new.strings@)
        &&& extends(self.objects@, new.objects@)
        &&& extends(self.arrays@, new.arrays@)
        &&& self.regexps == new.regexps
        &&& self.embedder_objects == new.embedder_objects
        &&& self.weak_refs == new.weak_refs
    }
}

impl Agent {
    /// Whether the agent is consistent.
    pub open spec fn wf(self) -> bool {
        &&& self.current_realm < self.realms@.len()
        &&& self.heap.wf()
    }

    /// Whether `new` has the same realms and kept-alive state as `self`.
    pub open spec fn same_state(self, new: Agent) -> bool {
        &&& self.realms == new.realms
        &&& self.current_realm == new.current_realm
        &&& self.kept_alive == new.kept_alive
    }

    /// Whether `new` differs from `self` only by further strings, objects and arrays.
    pub open spec fn grows_to(self, new: Agent) -> bool {
        &&& self.heap.grows_to(new.heap)
        &&& self.same_state(new)
    }

    /// The intrinsics of the current realm.
    pub open spec fn spec_realm(self) -> Realm {
        self.realms@[self.current_realm as int]
    }

    /// An agent with one realm and nothing in its heap but the empty string.
    pub fn new(realm: Realm) -> (r: Self)
        ensures
            r.wf(),
            r.spec_realm() == realm,
            r.realms@ == seq![realm],
            r.heap.strings@.len() == 1,
            r.heap.objects@.len() == 0,
            r.heap.arrays@.len() == 0,
            r.heap.regexps@.len() == 0,
            r.heap.embedder_objects@.len() == 0,
            r.heap.weak_refs@.len() == 0,
            !r.kept_alive,
    {
        let mut strings: Vec<Wtf8Buf> = Vec::new();
        strings.push(Wtf8Buf::new());
        let mut realms: Vec<Realm> = Vec::new();
        realms.push(realm);
        Agent {
            heap: Heap {
                strings,
                objects: Vec::new(),
                arrays: Vec::new(),
                regexps: Vec::new(),
                embedder_objects: Vec::new(),
                weak_refs: Vec::new(),
            },
            realms,
            current_realm: 0,
            kept_alive: false,
        }
    }

    /// The intrinsics of the current realm.
    pub fn current_realm_record(&self) -> (r: Realm)
        requires
            self.wf(),
        ensures
            r == self.spec_realm(),
    {
        self.realms[self.current_realm]
    }
}

/// Appends a data property.
///
/// ### 7.3.5 CreateDataProperty ( O, P, V )
pub(crate) fn create_data_property(properties: &mut Vec<Property>, key: String, value: Value)
    requires
        !has_key(properties_view(old(properties)@), key@),
    ensures
        properties_view(final(properties)@) == properties_view(old(properties)@).push(
            data_property(key@, value),
        ),
{
    properties.push(
        Property { key, value, writable: true, enumerable: true, configurable: true },
    );
    assert(properties_view(properties@) =~= properties_view(old(properties)@).push(
        data_property(key@, value),
    ));
}

impl OrdinaryObject {
    pub open spec fn valid(self, heap: Heap) -> bool {
        self.index < heap.objects@.len()
    }

    pub open spec fn data(self, heap: Heap) -> ObjectHeapData {
        heap.objects@[self.index as int]
    }

    /// Creates an ordinary object.
    pub fn create_object(
        agent: &mut Agent,
        prototype: Option<Object>,
        properties: Vec<Property>,
    ) -> (r: Self)
        requires
            old(agent).wf(),
        ensures
            final(agent).wf(),
            old(agent).grows_to(*final(agent)),
            final(agent).heap.strings == old(agent).heap.strings,
            final(agent).heap.arrays == old(agent).heap.arrays,
            final(agent).heap.objects@ == old(agent).heap.objects@.push(
                ObjectHeapData { prototype, properties },
            ),
            r.index == old(agent).heap.objects@.len(),
    {
        let index: usize = agent.heap.objects.len();
        agent.heap.objects.push(ObjectHeapData { prototype, properties });
        OrdinaryObject { index }
    }

    /// The prototype of an ordinary object.
    pub fn internal_prototype(self, agent: &Agent) -> (r: Option<Object>)
        requires
            self.valid(agent.heap),
        ensures
            r == self.data(agent.heap).prototype,
    {
        agent.heap.objects[self.index].prototype
    }
}

impl Array {
    pub open spec fn valid(self, heap: Heap) -> bool {
        self.index < heap.arrays@.len()
    }

    pub open spec fn data(self, heap: Heap) -> ArrayHeapData {
        heap.arrays@[self.index as int]
    }

    /// Creates an array.
    pub fn create_array(agent: &mut Agent, elements: Vec<Value>, properties: Vec<Property>) -> (r:
        Self)
        requires
            old(agent).wf(),
        ensures
            final(agent).wf(),
            old(agent).grows_to(*final(agent)),
            final(agent).heap.strings == old(agent).heap.strings,
            final(agent).heap.objects == old(agent).heap.objects,
            final(agent).heap.arrays@ == old(agent).heap.arrays@.push(
                ArrayHeapData { elements, properties },
            ),
            r.index == old(agent).heap.arrays@.len(),
    {
        let index: usize = agent.heap.arrays.len();
        agent.heap.arrays.push(ArrayHeapData { elements, properties });
        Array { index }
    }
}

/// Growth is transitive.
pub proof fn lemma_grows_transitive(a: Agent, b: Agent, c: Agent)
    requires
        a.grows_to(b),
        b.grows_to(c),
    ensures
        a.grows_to(c),
{
}

/// The property with a key is the first one that has it.
pub proof fn lemma_property_of(properties: Seq<Property>, key: Seq<char>, i: int)
    requires
        0 <= i < properties.len() && properties[i].key@ == key && (forall|j: int|
            0 <= j < i ==> (#[trigger] properties[j]).key@ != key),
    ensures
        has_key(properties_view(properties), key),
        ({
            let property = property_of(properties_view(properties), key);
            &&& property.key == key
            &&& property.value == properties[i].value
            &&& property.writable == properties[i].writable
            &&& property.enumerable == properties[i].enumerable
            &&& property.configurable == properties[i].configurable
        }),
{
    lemma_key_position(properties, key, i);
}

/// A created data property has the key and the value it was created with, and
/// is writable, enumerable and configurable.
pub proof fn lemma_data_property(key: Seq<char>, value: Value)
    ensures
        data_property(key, value).key == key,
        data_property(key, value).value == value,
        data_property(key, value).writable,
        data_property(key, value).enumerable,
        data_property(key, value).configurable,
{
}

/// Replacing the value of the property with a key replaces the value of the
/// first one that has the key, and nothing else of any property.
pub proof fn lemma_with_value(
    before: Seq<Property>,
    after: Seq<Property>,
    key: Seq<char>,
    value: Value,
    i: int,
)
    requires
        0 <= i < before.len() && before[i].key@ == key && (forall|j: int|
            0 <= j < i ==> (#[trigger] before[j]).key@ != key),
        properties_view(after) == with_value(properties_view(before), key, value),
    ensures
        after.len() == before.len(),
        after[i].value == value,
        forall|j: int|
            #![trigger after[j]]
            0 <= j < before.len() ==> {
                &&& after[j].key@ == before[j].key@
                &&& j != i ==> after[j].value == before[j].value
                &&& after[j].writable == before[j].writable
                &&& after[j].enumerable == before[j].enumerable
                &&& after[j].configurable == before[j].configurable
            },
{
    lemma_key_position(before, key, i);
    let (old_view, new_view) = (properties_view(before), properties_view(after));
    assert(new_view.len() == old_view.len());
    assert(new_view[i] == after[i]@);
    assert forall|j: int|
        #![trigger after[j]]
        0 <= j < before.len() implies {
        &&& after[j].key@ == before[j].key@
        &&& j != i ==> after[j].value == before[j].value
        &&& after[j].writable == before[j].writable
        &&& after[j].enumerable == before[j].enumerable
        &&& after[j].configurable == before[j].configurable
    } by {
        assert(new_view[j] == after[j]@);
        assert(old_view[j] == before[j]@);
    }
}

/// Growing adds to the strings, objects and arrays and leaves those that there
/// are, and everything else, as they were.
pub proof fn lemma_growth_keeps_the_heap(before: Agent, after: Agent)
    requires
        before.grows_to(after),
    ensures
        before.heap.strings@.len() <= after.heap.strings@.len(),
        forall|i: int|
            0 <= i < before.heap.strings@.len() ==> #[trigger] after.heap.strings@[i]
                == before.heap.strings@[i],
        before.heap.objects@.len() <= after.heap.objects@.len(),
        forall|i: int|
            0 <= i < before.heap.objects@.len() ==> #[trigger] after.heap.objects@[i]
                == before.heap.objects@[i],
        before.heap.arrays@.len() <= after.heap.arrays@.len(),
        forall|i: int|
            0 <= i < before.heap.arrays@.len() ==> #[trigger] after.heap.arrays@[i]
                == before.heap.arrays@[i],
        after.heap.regexps == before.heap.regexps,
        after.heap.embedder_objects == before.heap.embedder_objects,
        after.heap.weak_refs == before.heap.weak_refs,
        after.realms == before.realms,
        after.current_realm == before.current_realm,
        after.kept_alive == before.kept_alive,
{
}

/// The first property with a key is at the one position of the key.
proof fn lemma_key_position(properties: Seq<Property>, key: Seq<char>, i: int)
    requires
        0 <= i < properties.len() && properties[i].key@ == key && (forall|j: int|
            0 <= j < i ==> (#[trigger] properties[j]).key@ != key),
    ensures
        is_key_position(properties_view(properties), key, i),
        i == choose|k: int| is_key_position(properties_view(properties), key, k),
{
    let view = properties_view(properties);
    assert(view[i] == properties[i]@);
    assert forall|j: int| 0 <= j < i implies (#[trigger] view[j]).key != key by {
        assert(properties[j].key@ != key);
    }
    assert(is_key_position(view, key, i));
    let k = choose|k: int| is_key_position(view, key, k);
    assert(is_key_position(view, key, k));
    assert(k == i) by {
        if k < i {
            assert(view[k].key != key);
        }
        if i < k {
            assert(view[i].key != key);
        }
    }
}

} // verus!
