use nova_vm::embedder_object::{clear_weak_ref_kept_objects, EmbedderObjectHeapData};
use nova_vm::gc::{CompactionList, CompactionLists, WorkQueues};
use nova_vm::heap::{Agent, Realm};
use nova_vm::values::{
    EmbedderObject, ExoticObject, Function, Object, OrdinaryObject, Symbol, WeakKey, WeakRef,
};
use nova_vm::weak_ref::{add_to_kept_objects, clear_kept_objects, WeakRefHeapData};

fn agent() -> Agent {
    Agent::new(Realm {
        object_prototype: Object::Exotic(ExoticObject { index: 1 }),
        reg_exp_prototype: Object::Exotic(ExoticObject { index: 2 }),
        reg_exp_prototype_exec: Function { index: 3 },
    })
}

fn list(live: &[bool]) -> CompactionList {
    CompactionList { live: live.to_vec() }
}

fn lists(objects: &[bool], embedder_objects: &[bool]) -> CompactionLists {
    CompactionLists {
        strings: list(&[true]),
        symbols: list(&[true, true]),
        objects: list(objects),
        arrays: list(&[]),
        functions: list(&[]),
        regexps: list(&[]),
        embedder_objects: list(embedder_objects),
        weak_refs: list(&[]),
        exotic_objects: list(&[]),
    }
}

#[test]
fn data_and_owner_read_back() {
    let mut agent = agent();
    let a = EmbedderObject::create_with_data(&mut agent, 42);
    let b = EmbedderObject::create_with_owner(&mut agent, u64::MAX, 7);
    assert_ne!(a, b);
    assert_eq!(a.embedder_data(&agent), 42);
    assert_eq!(a.embedder_owner(&agent), 0);
    assert_eq!(b.embedder_data(&agent), u64::MAX);
    assert_eq!(b.embedder_owner(&agent), 7);
}

#[test]
fn owner_stays_in_a_copy_of_the_heap() {
    let mut base = agent();
    let o = EmbedderObject::create_with_owner(&mut base, 5, 77);
    let mut clone = agent();
    clone.heap.embedder_objects = base.heap.embedder_objects.clone();
    EmbedderObject::create_with_owner(&mut clone, 6, 88);
    o.create_backing_object(&mut base);
    assert_eq!(o.embedder_owner(&clone), 77);
    assert_eq!(o.embedder_owner(&base), 77);
    assert_eq!(o.embedder_data(&clone), 5);
}

#[test]
fn backing_object_is_created_lazily() {
    let mut agent = agent();
    let a = EmbedderObject::create_with_owner(&mut agent, 1, 2);
    assert_eq!(a.get_backing_object(&agent), None);
    assert_eq!(
        a.internal_prototype(&agent),
        Some(Object::Exotic(ExoticObject { index: 1 }))
    );
    let o = a.create_backing_object(&mut agent);
    assert_eq!(a.get_backing_object(&agent), Some(o));
    assert_eq!(
        o.internal_prototype(&agent),
        Some(Object::Exotic(ExoticObject { index: 1 }))
    );
    assert_eq!(a.embedder_data(&agent), 1);
    assert_eq!(a.embedder_owner(&agent), 2);
}

#[test]
fn prototype_is_that_of_the_backing_object() {
    let mut agent = agent();
    let a = EmbedderObject::create_with_data(&mut agent, 1);
    let o = OrdinaryObject::create_object(&mut agent, None, Vec::new());
    a.set_backing_object(&mut agent, o);
    assert_eq!(a.internal_prototype(&agent), None);
}

#[test]
fn weak_ref_dereferences_to_its_target() {
    let mut agent = agent();
    let a = EmbedderObject::create_with_data(&mut agent, 1);
    let b = EmbedderObject::create_with_data(&mut agent, 2);
    let wa = a.into_weak_ref(&mut agent);
    let wb = b.into_weak_ref(&mut agent);
    assert_eq!(EmbedderObject::from_weak_ref(&mut agent, wa), Some(a));
    assert_eq!(EmbedderObject::from_weak_ref(&mut agent, wb), Some(b));
}

#[test]
fn weak_ref_keeps_alive_until_cleared() {
    let mut agent = agent();
    let a = EmbedderObject::create_with_data(&mut agent, 1);
    let w = a.into_weak_ref(&mut agent);
    assert!(agent.kept_alive);
    assert!(agent.heap.weak_refs[w.index].kept_alive);
    clear_weak_ref_kept_objects(&mut agent);
    assert!(!agent.kept_alive);
    assert!(!agent.heap.weak_refs[w.index].kept_alive);
    assert_eq!(EmbedderObject::from_weak_ref(&mut agent, w), Some(a));
    assert!(agent.kept_alive);
    assert!(agent.heap.weak_refs[w.index].kept_alive);
}

#[test]
fn keeping_alive_reaches_all_weak_refs_of_a_target() {
    let mut agent = agent();
    let a = EmbedderObject::create_with_data(&mut agent, 1);
    let b = EmbedderObject::create_with_data(&mut agent, 1);
    let w1 = a.into_weak_ref(&mut agent);
    let w2 = b.into_weak_ref(&mut agent);
    let w3 = a.into_weak_ref(&mut agent);
    clear_kept_objects(&mut agent);
    add_to_kept_objects(&mut agent, WeakKey::EmbedderObject(a));
    assert!(agent.heap.weak_refs[w1.index].kept_alive);
    assert!(!agent.heap.weak_refs[w2.index].kept_alive);
    assert!(agent.heap.weak_refs[w3.index].kept_alive);
}

#[test]
fn weak_ref_of_something_else_dereferences_to_nothing() {
    let mut agent = agent();
    let a = EmbedderObject::create_with_data(&mut agent, 1);
    let w = a.into_weak_ref(&mut agent);
    w.set_target(&mut agent, WeakKey::Symbol(Symbol { index: 0 }));
    clear_kept_objects(&mut agent);
    assert_eq!(EmbedderObject::from_weak_ref(&mut agent, w), None);
    assert!(!agent.kept_alive);
    assert_eq!(
        w.get_target(&agent),
        Some(WeakKey::Symbol(Symbol { index: 0 }))
    );
}

#[test]
fn new_weak_ref_data_is_empty() {
    let mut data = WeakRefHeapData::default();
    assert_eq!(data, WeakRefHeapData::empty());
    assert_eq!(data.weak_ref_target, None);
    data.kept_alive = true;
    data.clear_kept_objects();
    assert!(!data.kept_alive);
}

#[test]
fn target_is_marked_only_while_kept_alive() {
    let target = EmbedderObject { index: 4 };
    let mut data = WeakRefHeapData {
        object_index: Some(OrdinaryObject { index: 9 }),
        weak_ref_target: Some(WeakKey::EmbedderObject(target)),
        kept_alive: false,
    };
    let mut queues = WorkQueues::new();
    data.mark_values(&mut queues);
    assert_eq!(queues.objects, vec![OrdinaryObject { index: 9 }]);
    assert!(queues.embedder_objects.is_empty());
    data.kept_alive = true;
    data.mark_values(&mut queues);
    assert_eq!(queues.embedder_objects, vec![target]);
}

#[test]
fn collected_target_is_gone_and_others_move() {
    let c = lists(&[false, true], &[false, true, false, true]);
    let mut data = WeakRefHeapData {
        object_index: Some(OrdinaryObject { index: 1 }),
        weak_ref_target: Some(WeakKey::EmbedderObject(EmbedderObject { index: 3 })),
        kept_alive: true,
    };
    data.sweep_values(&c);
    assert_eq!(
        data,
        WeakRefHeapData {
            object_index: Some(OrdinaryObject { index: 0 }),
            weak_ref_target: Some(WeakKey::EmbedderObject(EmbedderObject { index: 1 })),
            kept_alive: true,
        }
    );
    data.weak_ref_target = Some(WeakKey::EmbedderObject(EmbedderObject { index: 2 }));
    data.object_index = None;
    data.sweep_values(&c);
    assert_eq!(data.weak_ref_target, None);
    assert_eq!(data.object_index, None);
}

#[test]
fn collected_target_dereferences_to_nothing() {
    let mut agent = agent();
    let a = EmbedderObject::create_with_data(&mut agent, 1);
    let w = a.into_weak_ref(&mut agent);
    clear_weak_ref_kept_objects(&mut agent);
    agent.heap.weak_refs[w.index].sweep_values(&lists(&[], &[false]));
    assert_eq!(EmbedderObject::from_weak_ref(&mut agent, w), None);
}

#[test]
fn embedder_objects_take_part_in_collection() {
    let mut e = EmbedderObject { index: 3 };
    let c = lists(&[true, false, true], &[true, false, false, true]);
    let mut queues = WorkQueues::new();
    e.mark_values(&mut queues);
    assert_eq!(queues.embedder_objects, vec![EmbedderObject { index: 3 }]);
    assert_eq!(
        e.sweep_weak_reference(&c),
        Some(EmbedderObject { index: 1 })
    );
    assert_eq!(EmbedderObject { index: 2 }.sweep_weak_reference(&c), None);
    e.sweep_values(&c);
    assert_eq!(e, EmbedderObject { index: 1 });

    let mut data = EmbedderObjectHeapData {
        backing_object: Some(OrdinaryObject { index: 2 }),
        embedder_data: 5,
        embedder_owner: 6,
    };
    data.mark_values(&mut queues);
    assert_eq!(queues.objects, vec![OrdinaryObject { index: 2 }]);
    data.sweep_values(&c);
    assert_eq!(
        data,
        EmbedderObjectHeapData {
            backing_object: Some(OrdinaryObject { index: 1 }),
            embedder_data: 5,
            embedder_owner: 6,
        }
    );
}

#[test]
fn weak_keys_sweep_in_their_own_part_of_the_heap() {
    let mut c = lists(&[false, true], &[true]);
    c.symbols = list(&[false, true]);
    assert_eq!(
        WeakKey::Symbol(Symbol { index: 0 }).sweep_weak_reference(&c),
        None
    );
    assert_eq!(
        WeakKey::Symbol(Symbol { index: 1 }).sweep_weak_reference(&c),
        Some(WeakKey::Symbol(Symbol { index: 0 }))
    );
    assert_eq!(
        WeakKey::Ordinary(OrdinaryObject { index: 1 }).sweep_weak_reference(&c),
        Some(WeakKey::Ordinary(OrdinaryObject { index: 0 }))
    );
    let mut queues = WorkQueues::new();
    WeakKey::WeakRef(WeakRef { index: 8 }).mark_values(&mut queues);
    assert_eq!(queues.weak_refs, vec![WeakRef { index: 8 }]);
}
