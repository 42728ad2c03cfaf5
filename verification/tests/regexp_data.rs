use nova_vm::gc::{CompactionList, CompactionLists, WorkQueues};
use nova_vm::heap::{Agent, Realm};
use nova_vm::regexp::data::RegExpHeapData;
use nova_vm::regexp::exec::{reg_exp_test, ExecStep};
use nova_vm::regexp::flags::{
    parse_flags, RegExpFlags, FLAG_D, FLAG_G, FLAG_I, FLAG_M, FLAG_S, FLAG_U, FLAG_V, FLAG_Y,
};
use nova_vm::regexp::initialize::{
    reg_exp_alloc, reg_exp_create, reg_exp_create_literal, reg_exp_initialize,
    reg_exp_initialize_parsed, reg_exp_initialize_strings, reg_exp_initialize_with_flags,
    reg_exp_initialize_with_pattern, require_internal_slot_reg_exp, InitializeStep,
};
use nova_vm::regexp::last_index::RegExpLastIndex;
use nova_vm::regexp::matcher::check_may_backreference;
use nova_vm::values::{
    ExceptionType, ExoticObject, Function, HeapNumber, JsError, JsString, Object, OrdinaryObject,
    RegExp, Symbol, Value,
};

fn agent() -> Agent {
    Agent::new(Realm {
        object_prototype: Object::Exotic(ExoticObject { index: 1 }),
        reg_exp_prototype: Object::Exotic(ExoticObject { index: 2 }),
        reg_exp_prototype_exec: Function { index: 3 },
    })
}

fn string(agent: &mut Agent, text: &str) -> JsString {
    JsString::from_str(agent, text)
}

fn created(step: InitializeStep) -> RegExp {
    match step {
        InitializeStep::Done(Ok(r)) => r,
        other => panic!("{:?}", other),
    }
}

fn exception<T: std::fmt::Debug>(r: Result<T, JsError>) -> (ExceptionType, String) {
    match r {
        Err(JsError::Exception { kind, message }) => (kind, message),
        other => panic!("{:?}", other),
    }
}

#[test]
fn flags_have_the_bits_of_the_syntax_tree() {
    assert_eq!(FLAG_D, oxc_ast::ast::RegExpFlags::D.bits());
    assert_eq!(FLAG_G, oxc_ast::ast::RegExpFlags::G.bits());
    assert_eq!(FLAG_I, oxc_ast::ast::RegExpFlags::I.bits());
    assert_eq!(FLAG_M, oxc_ast::ast::RegExpFlags::M.bits());
    assert_eq!(FLAG_S, oxc_ast::ast::RegExpFlags::S.bits());
    assert_eq!(FLAG_U, oxc_ast::ast::RegExpFlags::U.bits());
    assert_eq!(FLAG_V, oxc_ast::ast::RegExpFlags::V.bits());
    assert_eq!(FLAG_Y, oxc_ast::ast::RegExpFlags::Y.bits());
}

#[test]
fn every_set_of_flags_round_trips() {
    for bits in 0..=255u8 {
        let flags = RegExpFlags { bits };
        assert_eq!(parse_flags(&flags.to_text()), Some(flags));
    }
    assert_eq!(RegExpFlags { bits: 255 }.to_text(), "dgimsuvy");
    assert_eq!(RegExpFlags { bits: 255 }.compile_flags(), "imsuv");
    assert_eq!(RegExpFlags::empty().to_text(), "");
}

#[test]
fn parsing_flags_ignores_order_and_refuses_other_and_repeated_letters() {
    assert_eq!(parse_flags(""), Some(RegExpFlags::empty()));
    assert_eq!(parse_flags("yg"), Some(RegExpFlags { bits: FLAG_G | FLAG_Y }));
    assert_eq!(parse_flags("gg"), None);
    assert_eq!(parse_flags("gig"), None);
    assert_eq!(parse_flags("gx"), None);
    assert_eq!(parse_flags("G"), None);
    assert_eq!(parse_flags("é"), None);
}

#[test]
fn unicode_flags() {
    assert!(RegExpFlags { bits: FLAG_U }.full_unicode());
    assert!(RegExpFlags { bits: FLAG_V }.full_unicode());
    assert!(!RegExpFlags { bits: !(FLAG_U | FLAG_V) }.full_unicode());
    assert!(RegExpFlags { bits: FLAG_D }.has(FLAG_D));
    assert!(!RegExpFlags { bits: FLAG_D }.has(FLAG_G));
}

#[test]
fn last_index_storage() {
    assert_eq!(RegExpLastIndex::from(7).get_value(), Some(7));
    assert_eq!(RegExpLastIndex::from(u32::MAX as usize - 1).get_value(), Some(u32::MAX - 1));
    assert_eq!(RegExpLastIndex::from(u32::MAX as usize).get_value(), None);
    assert_eq!(RegExpLastIndex::from(usize::MAX).get_value(), None);
    assert_eq!(RegExpLastIndex::from_value(Value::Integer(7)).get_value(), Some(7));
    assert!(RegExpLastIndex::from_value(Value::Integer(0)).is_valid());
    assert!(!RegExpLastIndex::from_value(Value::Integer(-1)).is_valid());
    assert!(!RegExpLastIndex::from_value(Value::Integer(u32::MAX as i64)).is_valid());
    assert!(!RegExpLastIndex::from_value(Value::Integer(i64::MAX)).is_valid());
    assert!(!RegExpLastIndex::from_value(Value::Number(HeapNumber { index: 0 })).is_valid());
    assert!(!RegExpLastIndex::from_value(Value::Undefined).is_valid());
    assert!(!RegExpLastIndex::default().is_valid());
    assert_eq!(RegExpLastIndex::zero().get_value(), Some(0));
}

#[test]
fn last_index_descriptor() {
    let d = RegExpLastIndex::from(3).into_property_descriptor();
    assert_eq!(d.value, Some(Value::Integer(3)));
    assert_eq!(d.writable, Some(true));
    assert_eq!(d.enumerable, Some(false));
    assert_eq!(d.configurable, Some(false));
    assert_eq!(d.get, None);
    assert_eq!(d.set, None);
    let d = RegExpLastIndex::default().into_property_descriptor();
    assert_eq!(d.value, Some(Value::Undefined));
}

#[test]
fn literal_has_a_backing_object_with_last_index() {
    let mut agent = agent();
    let source = string(&mut agent, "a");
    let r = reg_exp_create_literal(&mut agent, source, None);
    let data = &agent.heap.regexps[r.index];
    assert_eq!(data.original_source, source);
    assert_eq!(data.original_flags, RegExpFlags::empty());
    assert!(data.reg_exp_matcher.is_ok());
    let o = &agent.heap.objects[data.object_index.unwrap().index];
    assert_eq!(o.prototype, Some(Object::Exotic(ExoticObject { index: 2 })));
    assert_eq!(o.properties.len(), 1);
    assert_eq!(o.properties[0].key, "lastIndex");
    assert_eq!(o.properties[0].value, Value::Integer(0));
    assert!(o.properties[0].writable);
    assert!(!o.properties[0].enumerable);
    assert!(!o.properties[0].configurable);
}

#[test]
fn default_data_is_uninitialized() {
    let data = RegExpHeapData::default();
    assert!(matches!(&data.reg_exp_matcher, Err(message) if message.is_empty()));
    assert_eq!(data.original_source, JsString::empty());
    assert_eq!(data.object_index, None);
    assert!(!data.last_index.is_valid());
}

#[test]
fn regexp_string_is_source_between_slashes_and_flag_names() {
    let mut agent = agent();
    let units: Vec<u16> = vec![0x61, 0xD83D];
    let source = JsString::from_units(&mut agent, &units);
    let r = reg_exp_create_literal(&mut agent, source, parse_flags("dgimsuy"));
    let buf = agent.heap.regexps[r.index].create_regexp_string(&agent);
    let mut expected: Vec<u16> = "/a".encode_utf16().collect();
    expected.push(0xD83D);
    expected.extend("/GIMSUYD".encode_utf16());
    assert_eq!(buf.to_ill_formed_utf16().collect::<Vec<u16>>(), expected);
    let data = RegExpHeapData::new(&agent, JsString::empty(), parse_flags("v").unwrap());
    assert_eq!(data.create_regexp_string(&agent).to_string_lossy(), "//V");
}

#[test]
fn creating_from_strings() {
    let mut agent = agent();
    let p = string(&mut agent, "a+");
    let f = string(&mut agent, "yg");
    let r = created(reg_exp_create(&mut agent, Value::String(p), Some(f)));
    assert_eq!(r.original_flags(&agent), RegExpFlags { bits: FLAG_G | FLAG_Y });
    assert_eq!(agent.heap.regexps[r.index].original_source, p);
    assert_eq!(r.try_get_last_index(&agent), Some(0));
    let o = agent.heap.regexps[r.index].object_index.unwrap();
    assert_eq!(agent.heap.objects[o.index].properties[0].value, Value::Integer(0));
    let s = string(&mut agent, "aab");
    assert!(matches!(
        reg_exp_test(&mut agent, Object::RegExp(r), s, Ok(Value::Undefined)),
        ExecStep::Done(Ok(true))
    ));
    assert_eq!(r.try_get_last_index(&agent), Some(2));
}

#[test]
fn undefined_pattern_is_the_empty_string() {
    let mut agent = agent();
    let r = created(reg_exp_create(&mut agent, Value::Undefined, None));
    assert_eq!(agent.heap.regexps[r.index].original_source, JsString::empty());
    assert!(agent.heap.regexps[r.index].reg_exp_matcher.is_ok());
}

#[test]
fn early_errors_are_syntax_errors() {
    let mut agent = agent();
    for (pattern, flags) in [
        ("(", ""),
        ("a**", ""),
        ("[b-a]", ""),
        ("(?<n>a)(?<n>b)", ""),
        ("\\k<x>(?<y>a)", ""),
        ("{", "u"),
        ("a", "gg"),
        ("a", "x"),
        ("a", "uv"),
        ("a", "é"),
    ] {
        let p = string(&mut agent, pattern);
        let f = string(&mut agent, flags);
        let before = agent.heap.regexps.len();
        match reg_exp_create(&mut agent, Value::String(p), Some(f)) {
            InitializeStep::Done(r) => {
                let (kind, message) = exception(r);
                assert_eq!(kind, ExceptionType::SyntaxError);
                assert!(!message.is_empty());
            }
            other => panic!("{:?}", other),
        }
        assert_eq!(agent.heap.regexps[before].original_source, JsString::empty());
        assert!(agent.heap.regexps[before].reg_exp_matcher.is_err());
    }
}

#[test]
fn early_error_leaves_the_object_as_it_was() {
    let mut agent = agent();
    let a = string(&mut agent, "a");
    let r = reg_exp_create_literal(&mut agent, a, parse_flags("g"));
    assert!(r.set_last_index(&mut agent, RegExpLastIndex::from(4)));
    let bad = string(&mut agent, "(");
    let result = reg_exp_initialize_strings(&mut agent, r, bad, Ok(RegExpFlags::empty()));
    assert_eq!(exception(result).0, ExceptionType::SyntaxError);
    assert_eq!(agent.heap.regexps[r.index].original_source, a);
    assert_eq!(r.original_flags(&agent), RegExpFlags { bits: FLAG_G });
    assert_eq!(r.try_get_last_index(&agent), Some(4));
    let result = reg_exp_initialize_parsed(
        &mut agent,
        r,
        a,
        Ok(RegExpFlags::empty()),
        Some("no good".to_string()),
    );
    assert_eq!(exception(result), (ExceptionType::SyntaxError, "no good".to_string()));
}

#[test]
fn initializing_again_replaces_everything() {
    let mut agent = agent();
    let a = string(&mut agent, "a");
    let b = string(&mut agent, "b");
    let r = reg_exp_create_literal(&mut agent, a, parse_flags("g"));
    assert!(r.set_last_index(&mut agent, RegExpLastIndex::from(4)));
    assert_eq!(
        created(reg_exp_initialize(
            &mut agent,
            r,
            Value::String(b),
            Ok(RegExpFlags { bits: FLAG_I })
        )),
        r
    );
    assert_eq!(agent.heap.regexps[r.index].original_source, b);
    assert_eq!(r.original_flags(&agent), RegExpFlags { bits: FLAG_I });
    assert_eq!(r.try_get_last_index(&agent), Some(0));
    let s = string(&mut agent, "B");
    assert!(matches!(
        reg_exp_test(&mut agent, Object::RegExp(r), s, Ok(Value::Undefined)),
        ExecStep::Done(Ok(true))
    ));
}

#[test]
fn read_only_last_index_cannot_be_set() {
    let mut agent = agent();
    let a = string(&mut agent, "a");
    let b = string(&mut agent, "b");
    let r = reg_exp_create_literal(&mut agent, a, None);
    assert!(r.set_last_index(&mut agent, RegExpLastIndex::from(4)));
    let o = agent.heap.regexps[r.index].object_index.unwrap();
    assert_eq!(agent.heap.objects[o.index].properties[0].value, Value::Integer(4));
    agent.heap.objects[o.index].properties[0].writable = false;
    assert!(!r.set_last_index(&mut agent, RegExpLastIndex::from(5)));
    assert_eq!(r.try_get_last_index(&agent), Some(4));
    let result = reg_exp_initialize_strings(&mut agent, r, b, Ok(RegExpFlags::empty()));
    assert_eq!(
        exception(result),
        (
            ExceptionType::TypeError,
            "Could not set property 'lastIndex'.".to_string()
        )
    );
    assert_eq!(agent.heap.regexps[r.index].original_source, b);
    assert_eq!(r.try_get_last_index(&agent), Some(4));
    agent.heap.regexps[r.index].object_index = None;
    assert!(r.set_last_index(&mut agent, RegExpLastIndex::from(5)));
    assert_eq!(r.try_get_last_index(&agent), Some(5));
}

#[test]
fn other_values_are_converted_pattern_first() {
    let mut agent = agent();
    let a = string(&mut agent, "a");
    let i = string(&mut agent, "i");
    let r = reg_exp_create_literal(&mut agent, a, None);
    let pattern = Value::Integer(5);
    let flags = Value::Symbol(Symbol { index: 0 });
    match reg_exp_initialize(&mut agent, r, pattern, Err(flags)) {
        InitializeStep::PatternToString { obj, value, flags: f } => {
            assert_eq!((obj, value, f), (r, pattern, Err(flags)));
        }
        other => panic!("{:?}", other),
    }
    match reg_exp_initialize_with_pattern(&mut agent, r, Ok(i), Err(flags)) {
        InitializeStep::FlagsToString { obj, pattern, value } => {
            assert_eq!((obj, pattern, value), (r, i, flags));
        }
        other => panic!("{:?}", other),
    }
    assert!(matches!(
        reg_exp_initialize_with_pattern(&mut agent, r, Err(JsError::Thrown(Value::Null)), Err(flags)),
        InitializeStep::Done(Err(JsError::Thrown(Value::Null)))
    ));
    assert!(matches!(
        reg_exp_initialize_with_flags(&mut agent, r, a, Err(JsError::Thrown(Value::Null))),
        Err(JsError::Thrown(Value::Null))
    ));
    assert!(matches!(
        reg_exp_initialize_with_flags(&mut agent, r, a, Ok(i)),
        Ok(obj) if obj == r
    ));
    assert_eq!(r.original_flags(&agent), RegExpFlags { bits: FLAG_I });
    created(reg_exp_initialize(
        &mut agent,
        r,
        Value::Undefined,
        Err(Value::Undefined),
    ));
    assert_eq!(r.original_flags(&agent), RegExpFlags::empty());
    created(reg_exp_initialize(
        &mut agent,
        r,
        Value::Undefined,
        Err(Value::String(i)),
    ));
    assert_eq!(r.original_flags(&agent), RegExpFlags { bits: FLAG_I });
}

#[test]
fn flag_letters_agree_with_a_set() {
    let mut agent = agent();
    let p = string(&mut agent, "a.c");
    let letters = string(&mut agent, "ims");
    let x = reg_exp_create_literal(&mut agent, p, None);
    let y = reg_exp_create_literal(&mut agent, p, None);
    let set = RegExpFlags { bits: FLAG_I | FLAG_M | FLAG_S };
    assert!(reg_exp_initialize_strings(&mut agent, x, p, Ok(set)).is_ok());
    assert!(reg_exp_initialize_strings(&mut agent, y, p, Err(letters)).is_ok());
    assert_eq!(x.original_flags(&agent), y.original_flags(&agent));
    let s = string(&mut agent, "A\nC");
    for r in [x, y] {
        assert!(matches!(
            reg_exp_test(&mut agent, Object::RegExp(r), s, Ok(Value::Undefined)),
            ExecStep::Done(Ok(true))
        ));
    }
}

#[test]
fn flags_in_any_order_agree() {
    let mut agent = agent();
    let p = string(&mut agent, "a.c");
    for order in ["gims", "smig", "igsm"] {
        let f = string(&mut agent, order);
        let r = reg_exp_create_literal(&mut agent, p, None);
        assert!(reg_exp_initialize_strings(&mut agent, r, p, Err(f)).is_ok());
        assert_eq!(
            r.original_flags(&agent),
            RegExpFlags { bits: FLAG_G | FLAG_I | FLAG_M | FLAG_S }
        );
    }
    for order in ["uv", "vu", "ggi", "gig"] {
        let f = string(&mut agent, order);
        let r = reg_exp_create_literal(&mut agent, p, None);
        let result = reg_exp_initialize_strings(&mut agent, r, p, Err(f));
        assert_eq!(exception(result).0, ExceptionType::SyntaxError);
    }
    // The pattern is read as flags ask, wherever the letter stands.
    let bad = string(&mut agent, "\\-");
    for (order, fine) in [("gi", true), ("ig", true), ("gu", false), ("ug", false)] {
        let f = string(&mut agent, order);
        let r = reg_exp_create_literal(&mut agent, p, None);
        assert_eq!(
            reg_exp_initialize_strings(&mut agent, r, bad, Err(f)).is_ok(),
            fine
        );
    }
}

#[test]
fn prototype_is_of_the_creation_realm() {
    let mut agent = agent();
    let p = string(&mut agent, "x");
    let r = reg_exp_create_literal(&mut agent, p, None);
    let prototype = Some(Object::Exotic(ExoticObject { index: 2 }));
    assert_eq!(r.internal_prototype(&agent), prototype);
    agent.realms.push(Realm {
        object_prototype: Object::Exotic(ExoticObject { index: 11 }),
        reg_exp_prototype: Object::Exotic(ExoticObject { index: 12 }),
        reg_exp_prototype_exec: Function { index: 13 },
    });
    agent.current_realm = 1;
    assert_eq!(r.internal_prototype(&agent), prototype);
    agent.heap.regexps[r.index].object_index = None;
    assert_eq!(
        r.internal_prototype(&agent),
        Some(Object::Exotic(ExoticObject { index: 12 }))
    );
}

/// Keeps one regular expression, with what it refers to, and moves it.
fn collect(agent: &mut Agent, r: &mut RegExp, exotic: &mut [bool]) {
    let mut queues = WorkQueues::new();
    agent.heap.regexps[r.index].mark_values(&mut queues);
    let live = |len: usize, kept: Vec<usize>| CompactionList {
        live: (0..len).map(|i| kept.contains(&i)).collect(),
    };
    let objects: Vec<usize> = queues.objects.iter().map(|o| o.index).collect();
    for o in &objects {
        if let Some(Object::Exotic(x)) = agent.heap.objects[*o].prototype {
            exotic[x.index] = true;
        }
    }
    let mut strings: Vec<usize> = queues.strings.iter().map(|s| s.index).collect();
    strings.push(0);
    let c = CompactionLists {
        strings: live(agent.heap.strings.len(), strings),
        symbols: live(0, vec![]),
        objects: live(agent.heap.objects.len(), objects),
        arrays: live(agent.heap.arrays.len(), vec![]),
        functions: live(0, vec![]),
        regexps: live(agent.heap.regexps.len(), vec![r.index]),
        embedder_objects: live(0, vec![]),
        weak_refs: live(0, vec![]),
        exotic_objects: CompactionList { live: exotic.to_vec() },
    };
    for o in agent.heap.objects.iter_mut() {
        if let Some(Object::Exotic(x)) = o.prototype {
            let index = c.exotic_objects.shift_index(x.index);
            o.prototype = Some(Object::Exotic(ExoticObject { index }));
        }
    }
    agent.heap.regexps[r.index].sweep_values(&c);
    r.index = c.regexps.shift_index(r.index);
    let mut kept = c.strings.live.iter();
    agent.heap.strings.retain(|_| *kept.next().unwrap());
    let mut kept = c.objects.live.iter();
    agent.heap.objects.retain(|_| *kept.next().unwrap());
    let mut kept = c.regexps.live.iter();
    agent.heap.regexps.retain(|_| *kept.next().unwrap());
}

#[test]
fn builtin_prototypes_keep_their_creation_realm_across_reads_and_gc() {
    let mut agent = agent();
    agent.realms.push(Realm {
        object_prototype: Object::Exotic(ExoticObject { index: 4 }),
        reg_exp_prototype: Object::Exotic(ExoticObject { index: 5 }),
        reg_exp_prototype_exec: Function { index: 6 },
    });
    // The child realm is current when the literal is created.
    agent.current_realm = 1;
    let garbage = string(&mut agent, "y");
    reg_exp_create_literal(&mut agent, garbage, None);
    let p = string(&mut agent, "x");
    let mut r = reg_exp_create_literal(&mut agent, p, None);
    agent.current_realm = 0;
    assert_eq!(
        r.internal_prototype(&agent),
        Some(Object::Exotic(ExoticObject { index: 5 }))
    );
    // The child realm goes; the parent's intrinsics and what is reached stay.
    agent.realms.truncate(1);
    collect(&mut agent, &mut r, &mut [false, true, true, false, false, false]);
    assert_eq!(r, RegExp { index: 0 });
    assert_eq!(
        r.internal_prototype(&agent),
        Some(Object::Exotic(ExoticObject { index: 2 }))
    );
    collect(&mut agent, &mut r, &mut [true, true, false]);
    assert_eq!(
        r.internal_prototype(&agent),
        Some(Object::Exotic(ExoticObject { index: 2 }))
    );
    let data = &agent.heap.regexps[r.index];
    assert_eq!(data.original_source.to_string_lossy(&agent), "x");
}

#[test]
fn internal_slot_is_required() {
    let mut agent = agent();
    let repr = string(&mut agent, "42");
    let r = RegExp { index: 6 };
    assert!(matches!(
        require_internal_slot_reg_exp(&agent, Value::Object(Object::RegExp(r)), repr),
        Ok(x) if x == r
    ));
    let o = Value::Object(Object::Ordinary(OrdinaryObject { index: 0 }));
    assert_eq!(
        exception(require_internal_slot_reg_exp(&agent, o, repr)),
        (ExceptionType::TypeError, "Expected this to be RegExp".to_string())
    );
    assert_eq!(
        exception(require_internal_slot_reg_exp(&agent, Value::Integer(42), repr)),
        (ExceptionType::TypeError, "42 is not an object".to_string())
    );
}

#[test]
fn allocation_passes_on_its_completion() {
    let r = RegExp { index: 6 };
    assert!(matches!(reg_exp_alloc(Ok(Object::RegExp(r))), Ok(x) if x == r));
    assert!(matches!(
        reg_exp_alloc(Err(JsError::Thrown(Value::Null))),
        Err(JsError::Thrown(Value::Null))
    ));
}

#[test]
fn backreferences_are_noticed() {
    let points = |s: &str| s.chars().map(u32::from).collect::<Vec<u32>>();
    assert!(check_may_backreference(&points("(a)\\1")));
    assert!(check_may_backreference(&points("(?<x>a)\\k<x>")));
    assert!(!check_may_backreference(&points("\\0\\d\\")));
    assert!(!check_may_backreference(&points("")));
    assert!(!check_may_backreference(&points("1k")));
}

#[test]
fn regexps_take_part_in_collection() {
    let list = |live: &[bool]| CompactionList { live: live.to_vec() };
    let c = CompactionLists {
        strings: list(&[true, false, true]),
        symbols: list(&[]),
        objects: list(&[false, false, true]),
        arrays: list(&[]),
        functions: list(&[]),
        regexps: list(&[]),
        embedder_objects: list(&[]),
        weak_refs: list(&[]),
        exotic_objects: list(&[]),
    };
    let mut data = RegExpHeapData::default();
    data.original_source = JsString { index: 2 };
    data.object_index = Some(OrdinaryObject { index: 2 });
    let mut queues = WorkQueues::new();
    data.mark_values(&mut queues);
    assert_eq!(queues.strings, vec![JsString { index: 2 }]);
    assert_eq!(queues.objects, vec![OrdinaryObject { index: 2 }]);
    data.sweep_values(&c);
    assert_eq!(data.original_source, JsString { index: 1 });
    assert_eq!(data.object_index, Some(OrdinaryObject { index: 0 }));
}
