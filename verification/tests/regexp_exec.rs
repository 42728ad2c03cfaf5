use nova_vm::heap::{Agent, Property, Realm};
use nova_vm::regexp::data::RegExpHeapData;
use nova_vm::regexp::exec::{
    advance_string_index, reg_exp_builtin_exec, reg_exp_builtin_exec_found,
    reg_exp_builtin_exec_prepare, reg_exp_builtin_test, reg_exp_builtin_test_found, reg_exp_exec,
    reg_exp_exec_call_result, reg_exp_exec_prepare, reg_exp_exec_with_length, reg_exp_test,
    reg_exp_test_call_result, reg_exp_test_with_length, ExecPrepare, ExecStep, RegExpExecBase,
};
use nova_vm::regexp::flags::parse_flags;
use nova_vm::regexp::initialize::reg_exp_create_literal;
use nova_vm::regexp::last_index::RegExpLastIndex;
use nova_vm::regexp::match_result::{code_units_substring, index_pair};
use nova_vm::regexp::matcher::MatchRecord;
use nova_vm::values::{
    Array, ExceptionType, ExoticObject, Function, JsError, JsString, Object, OrdinaryObject,
    RegExp, Value,
};

const EXEC: Function = Function { index: 3 };

fn agent() -> Agent {
    Agent::new(Realm {
        object_prototype: Object::Exotic(ExoticObject { index: 1 }),
        reg_exp_prototype: Object::Exotic(ExoticObject { index: 2 }),
        reg_exp_prototype_exec: EXEC,
    })
}

fn literal(agent: &mut Agent, source: &str, flags: &str) -> RegExp {
    let source = JsString::from_str(agent, source);
    reg_exp_create_literal(agent, source, parse_flags(flags))
}

fn native_exec() -> Result<Value, JsError> {
    Ok(Value::Object(Object::Function(EXEC)))
}

fn execute(agent: &mut Agent, r: RegExp, s: JsString) -> Option<Array> {
    match reg_exp_exec(agent, Object::RegExp(r), s, native_exec()) {
        ExecStep::Done(Ok(Some(Object::Array(a)))) => Some(a),
        ExecStep::Done(Ok(None)) => None,
        other => panic!("{:?}", other),
    }
}

fn test(agent: &mut Agent, r: RegExp, s: JsString) -> bool {
    match reg_exp_test(agent, Object::RegExp(r), s, native_exec()) {
        ExecStep::Done(Ok(b)) => b,
        other => panic!("{:?}", other),
    }
}

fn text(agent: &Agent, value: Value) -> Option<String> {
    match value {
        Value::String(s) => Some(s.to_string_lossy(agent)),
        Value::Undefined => None,
        other => panic!("{:?}", other),
    }
}

fn texts(agent: &Agent, a: Array) -> Vec<Option<String>> {
    agent.heap.arrays[a.index]
        .elements
        .iter()
        .map(|v| text(agent, *v))
        .collect()
}

fn get(properties: &[Property], key: &str) -> Value {
    let found: Vec<&Property> = properties.iter().filter(|p| p.key == key).collect();
    assert_eq!(found.len(), 1);
    assert!(found[0].writable && found[0].enumerable && found[0].configurable);
    found[0].value
}

fn property(agent: &Agent, a: Array, key: &str) -> Value {
    get(&agent.heap.arrays[a.index].properties, key)
}

fn pair(agent: &Agent, value: Value) -> Option<(i64, i64)> {
    match value {
        Value::Undefined => None,
        Value::Object(Object::Array(a)) => match agent.heap.arrays[a.index].elements[..] {
            [Value::Integer(start), Value::Integer(end)] => Some((start, end)),
            _ => panic!("not a pair"),
        },
        other => panic!("{:?}", other),
    }
}

fn some(s: &str) -> Option<String> {
    Some(s.to_string())
}

fn last_index(agent: &Agent, r: RegExp) -> Option<u32> {
    r.try_get_last_index(agent)
}

#[test]
fn match_result_has_captures_index_and_input() {
    let mut agent = agent();
    let r = literal(&mut agent, "a(b)?(c)", "");
    let s = JsString::from_str(&mut agent, "xxacy");
    let a = execute(&mut agent, r, s).unwrap();
    assert_eq!(texts(&agent, a), vec![some("ac"), None, some("c")]);
    assert_eq!(property(&agent, a, "index"), Value::Integer(2));
    assert_eq!(property(&agent, a, "input"), Value::String(s));
    assert_eq!(property(&agent, a, "groups"), Value::Undefined);
    let keys: Vec<&str> = agent.heap.arrays[a.index]
        .properties
        .iter()
        .map(|p| p.key.as_str())
        .collect();
    assert_eq!(keys, vec!["index", "input", "groups"]);
    assert_eq!(last_index(&agent, r), Some(0));
}

#[test]
fn named_groups_and_indices() {
    let mut agent = agent();
    let r = literal(&mut agent, "(?<year>\\d{4})-(?<month>\\d\\d)(?<day>x)?", "d");
    let s = JsString::from_str(&mut agent, "on 2024-05.");
    let a = execute(&mut agent, r, s).unwrap();
    assert_eq!(
        texts(&agent, a),
        vec![some("2024-05"), some("2024"), some("05"), None]
    );
    let groups = match property(&agent, a, "groups") {
        Value::Object(Object::Ordinary(o)) => o,
        other => panic!("{:?}", other),
    };
    assert_eq!(agent.heap.objects[groups.index].prototype, None);
    let properties = &agent.heap.objects[groups.index].properties;
    assert_eq!(properties.len(), 3);
    assert_eq!(text(&agent, get(properties, "year")), some("2024"));
    assert_eq!(text(&agent, get(properties, "month")), some("05"));
    assert_eq!(text(&agent, get(properties, "day")), None);

    let indices = match property(&agent, a, "indices") {
        Value::Object(Object::Array(i)) => i,
        other => panic!("{:?}", other),
    };
    let pairs: Vec<Option<(i64, i64)>> = agent.heap.arrays[indices.index]
        .elements
        .iter()
        .map(|v| pair(&agent, *v))
        .collect();
    assert_eq!(
        pairs,
        vec![Some((3, 10)), Some((3, 7)), Some((8, 10)), None]
    );
    let groups = match property(&agent, indices, "groups") {
        Value::Object(Object::Ordinary(o)) => o,
        other => panic!("{:?}", other),
    };
    let properties = &agent.heap.objects[groups.index].properties;
    assert_eq!(pair(&agent, get(properties, "year")), Some((3, 7)));
    assert_eq!(pair(&agent, get(properties, "month")), Some((8, 10)));
    assert_eq!(pair(&agent, get(properties, "day")), None);
}

#[test]
fn indices_without_named_groups() {
    let mut agent = agent();
    let r = literal(&mut agent, "b", "d");
    let s = JsString::from_str(&mut agent, "abc");
    let a = execute(&mut agent, r, s).unwrap();
    let indices = match property(&agent, a, "indices") {
        Value::Object(Object::Array(i)) => i,
        other => panic!("{:?}", other),
    };
    assert_eq!(property(&agent, indices, "groups"), Value::Undefined);
    assert_eq!(
        pair(&agent, agent.heap.arrays[indices.index].elements[0]),
        Some((1, 2))
    );
}

#[test]
fn no_match_is_null() {
    let mut agent = agent();
    let r = literal(&mut agent, "b", "");
    let s = JsString::from_str(&mut agent, "aaa");
    assert_eq!(execute(&mut agent, r, s), None);
    assert!(!test(&mut agent, r, s));
}

#[test]
fn global_search_goes_on_where_the_last_match_ended() {
    let mut agent = agent();
    let r = literal(&mut agent, "\\d+", "g");
    let s = JsString::from_str(&mut agent, "1 22 333");
    let a = execute(&mut agent, r, s).unwrap();
    assert_eq!(texts(&agent, a), vec![some("1")]);
    assert_eq!(last_index(&agent, r), Some(1));
    let a = execute(&mut agent, r, s).unwrap();
    assert_eq!(texts(&agent, a), vec![some("22")]);
    assert_eq!(property(&agent, a, "index"), Value::Integer(2));
    assert_eq!(last_index(&agent, r), Some(4));
    assert!(test(&mut agent, r, s));
    assert_eq!(last_index(&agent, r), Some(8));
    assert_eq!(execute(&mut agent, r, s), None);
    assert_eq!(last_index(&agent, r), Some(0));
}

#[test]
fn sticky_match_begins_at_last_index() {
    let mut agent = agent();
    let r = literal(&mut agent, "b", "y");
    let s = JsString::from_str(&mut agent, "abb");
    assert_eq!(execute(&mut agent, r, s), None);
    assert_eq!(last_index(&agent, r), Some(0));
    assert!(r.set_last_index(&mut agent, RegExpLastIndex::from(1)));
    let a = execute(&mut agent, r, s).unwrap();
    assert_eq!(property(&agent, a, "index"), Value::Integer(1));
    assert_eq!(last_index(&agent, r), Some(2));
    assert!(test(&mut agent, r, s));
    assert_eq!(last_index(&agent, r), Some(3));
    assert!(!test(&mut agent, r, s));
    assert_eq!(last_index(&agent, r), Some(0));
}

#[test]
fn plain_search_ignores_last_index() {
    let mut agent = agent();
    let r = literal(&mut agent, "a", "");
    let s = JsString::from_str(&mut agent, "a");
    assert!(r.set_last_index(&mut agent, RegExpLastIndex::from(5)));
    let a = execute(&mut agent, r, s).unwrap();
    assert_eq!(property(&agent, a, "index"), Value::Integer(0));
    assert_eq!(last_index(&agent, r), Some(5));
    let b = execute(&mut agent, r, s).unwrap();
    assert_ne!(a, b);
    assert_eq!(texts(&agent, a), texts(&agent, b));
    assert_eq!(property(&agent, b, "index"), Value::Integer(0));
    assert!(test(&mut agent, r, s));
    assert_eq!(last_index(&agent, r), Some(0));
}

#[test]
fn search_beyond_the_end_fails() {
    let mut agent = agent();
    let r = literal(&mut agent, "", "g");
    let s = JsString::from_str(&mut agent, "ab");
    assert!(r.set_last_index(&mut agent, RegExpLastIndex::from(2)));
    let a = execute(&mut agent, r, s).unwrap();
    assert_eq!(texts(&agent, a), vec![some("")]);
    assert!(r.set_last_index(&mut agent, RegExpLastIndex::from(3)));
    assert_eq!(execute(&mut agent, r, s), None);
    assert_eq!(last_index(&agent, r), Some(0));
}

#[test]
fn flags_reach_the_matcher() {
    let mut agent = agent();
    let s = JsString::from_str(&mut agent, "B\na");
    for (source, flags, expected) in [
        ("b", "", false),
        ("b", "i", true),
        ("^a", "", false),
        ("^a", "m", true),
        ("B.a", "", false),
        ("B.a", "s", true),
    ] {
        let r = literal(&mut agent, source, flags);
        assert_eq!(test(&mut agent, r, s), expected);
    }
}

#[test]
fn unicode_mode_reads_code_points() {
    let mut agent = agent();
    let s = JsString::from_str(&mut agent, "😀");
    let r = literal(&mut agent, "^.$", "");
    assert!(!test(&mut agent, r, s));
    let r = literal(&mut agent, "^.$", "u");
    assert!(test(&mut agent, r, s));
    let r = literal(&mut agent, "^.$", "v");
    assert!(test(&mut agent, r, s));
    let r = literal(&mut agent, "😀", "");
    let a = execute(&mut agent, r, s).unwrap();
    assert_eq!(texts(&agent, a), vec![some("😀")]);
    let r = literal(&mut agent, "\\u{1F600}", "u");
    assert!(test(&mut agent, r, s));
}

#[test]
fn substrings_keep_split_surrogates() {
    let mut agent = agent();
    let s = JsString::from_str(&mut agent, "😀");
    let r = literal(&mut agent, "(.)(.)", "");
    let a = execute(&mut agent, r, s).unwrap();
    let units: Vec<Vec<u16>> = agent.heap.arrays[a.index]
        .elements
        .iter()
        .map(|v| match v {
            Value::String(s) => s.to_units(&agent),
            other => panic!("{:?}", other),
        })
        .collect();
    assert_eq!(units, vec![vec![0xD83D, 0xDE00], vec![0xD83D], vec![0xDE00]]);
    let r = code_units_substring(&mut agent, &[0x61, 0xD83D, 0xDE00, 0x62], (1, 3));
    assert_eq!(r.to_string_lossy(&agent), "😀");
    let r = code_units_substring(&mut agent, &[0x61, 0xD83D, 0xDE00, 0x62], (2, 4));
    assert_eq!(r.to_units(&agent), vec![0xDE00, 0x62]);
}

#[test]
fn index_pair_is_an_array_of_two() {
    let mut agent = agent();
    let a = index_pair(&mut agent, 4, 9);
    assert_eq!(
        agent.heap.arrays[a.index].elements,
        vec![Value::Integer(4), Value::Integer(9)]
    );
    assert!(agent.heap.arrays[a.index].properties.is_empty());
    let far: usize = 0x1F_FFFF_FFFF_FFFF;
    let a = index_pair(&mut agent, 0xFFFF_FFFF, far);
    assert_eq!(
        agent.heap.arrays[a.index].elements,
        vec![Value::Integer(0xFFFF_FFFF), Value::Integer(far as i64)]
    );
}

#[test]
fn lookaround_and_backreferences_are_supported() {
    let mut agent = agent();
    let s = JsString::from_str(&mut agent, "price: $42 abab");
    let r = literal(&mut agent, "(?<=\\$)\\d+(?= )", "u");
    let a = execute(&mut agent, r, s).unwrap();
    assert_eq!(texts(&agent, a), vec![some("42")]);
    let r = literal(&mut agent, "(ab)\\1", "u");
    let a = execute(&mut agent, r, s).unwrap();
    assert_eq!(property(&agent, a, "index"), Value::Integer(11));
}

#[test]
fn repetition_from_inside_a_pair() {
    let mut agent = agent();
    let s = JsString::from_str(&mut agent, "\u{1F4A9}x");
    for (source, start, expected) in [
        (".+", 1, Some((1, 3))),
        ("x?", 1, Some((1, 1))),
        (".*x", 1, Some((1, 3))),
        (".*y", 1, None),
        (".*?x", 1, Some((1, 3))),
        ("(?:.)+", 1, Some((1, 3))),
        ("(?<=.+)x", 1, Some((2, 3))),
        ("[^y]{1,9}y", 1, None),
        (".+", 0, Some((0, 3))),
    ] {
        let r = literal(&mut agent, source, "gu");
        assert!(r.set_last_index(&mut agent, RegExpLastIndex::from(start)));
        let found = execute(&mut agent, r, s).map(|a| {
            let index = match property(&agent, a, "index") {
                Value::Integer(i) => i as usize,
                other => panic!("{:?}", other),
            };
            (index, last_index(&agent, r).unwrap() as usize)
        });
        assert_eq!(found, expected);
        assert!(r.set_last_index(&mut agent, RegExpLastIndex::from(start)));
        assert_eq!(test(&mut agent, r, s), expected.is_some());
        assert_eq!(
            last_index(&agent, r),
            Some(expected.map_or(0, |(_, end)| end as u32))
        );
    }
    let pair = JsString::from_str(&mut agent, "\u{1F4A9}");
    let r = literal(&mut agent, ".+", "gu");
    assert!(r.set_last_index(&mut agent, RegExpLastIndex::from(1)));
    let a = execute(&mut agent, r, pair).unwrap();
    assert_eq!(property(&agent, a, "index"), Value::Integer(1));
    assert_eq!(last_index(&agent, r), Some(2));
}

#[test]
fn backreferences_over_unpaired_surrogates() {
    let mut agent = agent();
    let units: Vec<u16> = vec![0xD800, 0xD83D, 0xDCA9, 0x61, 0x62];
    let s = JsString::from_units(&mut agent, &units);
    let r = literal(&mut agent, "(a)\\1?b", "u");
    let a = execute(&mut agent, r, s).unwrap();
    assert_eq!(property(&agent, a, "index"), Value::Integer(3));
    // The captured lead surrogate matches the first half of the pair.
    let s = JsString::from_units(&mut agent, &[0xD83D, 0x61, 0xD83D, 0xDE00, 0x62]);
    let r = literal(&mut agent, "(.)a\\1.*y", "u");
    assert!(!test(&mut agent, r, s));
    let r = literal(&mut agent, "(.)a\\1.*b", "u");
    let a = execute(&mut agent, r, s).unwrap();
    assert_eq!(property(&agent, a, "index"), Value::Integer(0));
    let r = literal(&mut agent, "(.)\\1", "g");
    assert!(!test(&mut agent, r, s));
}

#[test]
fn searches_from_inside_a_pair() {
    let mut agent = agent();
    let s = JsString::from_str(&mut agent, "\u{10400}");
    for (source, flags, found) in [
        ("\\p{L}", "gu", false),
        ("\\p{L}", "gv", false),
        ("\\u{10400}", "gu", false),
        ("\\u{10400}", "gv", false),
        ("(?<n>.)", "gu", true),
        ("(?:.)", "gu", true),
        ("(?=.).", "gu", true),
        ("(?<=.)$", "gu", true),
        (".{1}", "gu", true),
        ("[*+?]", "gu", false),
    ] {
        let r = literal(&mut agent, source, flags);
        assert!(r.set_last_index(&mut agent, RegExpLastIndex::from(1)));
        assert_eq!(execute(&mut agent, r, s).is_some(), found);
        assert_eq!(last_index(&agent, r), Some(if found { 2 } else { 0 }));
    }
    // Without pairs nothing can be split.
    let s = JsString::from_units(&mut agent, &[0xD801, 0x61, 0x61]);
    let r = literal(&mut agent, "(.)\\1+", "u");
    assert!(test(&mut agent, r, s));
}

#[test]
fn invalid_pattern_throws_when_executed() {
    let mut agent = agent();
    let r = literal(&mut agent, "(", "");
    let s = JsString::from_str(&mut agent, "");
    let message = match &agent.heap.regexps[r.index].reg_exp_matcher {
        Err(message) => message.clone(),
        Ok(_) => panic!("compiled"),
    };
    assert!(!message.is_empty());
    match reg_exp_builtin_exec(&mut agent, r, s, Ok(0)) {
        Err(JsError::Exception { kind, message: m }) => {
            assert_eq!(kind, ExceptionType::SyntaxError);
            assert_eq!(m, message);
        }
        other => panic!("{:?}", other),
    }
    match reg_exp_builtin_test(&mut agent, r, s, Ok(0)) {
        Err(JsError::Exception { kind, message: m }) => {
            assert_eq!(kind, ExceptionType::SyntaxError);
            assert_eq!(m, message);
        }
        other => panic!("{:?}", other),
    }
}

#[test]
fn uninitialized_regexp_throws_an_empty_message() {
    let mut agent = agent();
    agent.heap.regexps.push(RegExpHeapData::default());
    let r = RegExp { index: 0 };
    match reg_exp_builtin_exec_prepare(&agent, r, JsString::empty(), Ok(0)) {
        Err(JsError::Exception { kind, message }) => {
            assert_eq!(kind, ExceptionType::SyntaxError);
            assert_eq!(message, "");
        }
        other => panic!("{:?}", other),
    }
}

#[test]
fn prepare_collects_the_flags() {
    let mut agent = agent();
    let s = JsString::from_str(&mut agent, "abc");
    let r = literal(&mut agent, "a", "dgvy");
    let base = reg_exp_builtin_exec_prepare(&agent, r, s, Ok(7)).unwrap();
    assert_eq!(
        base,
        RegExpExecBase {
            r,
            s,
            last_index: 7,
            global: true,
            sticky: true,
            has_indices: true,
            full_unicode: true,
        }
    );
    let r = literal(&mut agent, "a", "ims");
    let base = reg_exp_builtin_exec_prepare(&agent, r, s, Ok(7)).unwrap();
    assert_eq!(
        base,
        RegExpExecBase {
            r,
            s,
            last_index: 0,
            global: false,
            sticky: false,
            has_indices: false,
            full_unicode: false,
        }
    );
    assert!(matches!(
        reg_exp_builtin_exec_prepare(&agent, r, s, Err(JsError::Thrown(Value::Integer(4)))),
        Err(JsError::Thrown(Value::Integer(4)))
    ));
}

#[test]
fn outcome_follows_from_what_was_found() {
    let mut agent = agent();
    let r = literal(&mut agent, "a", "gy");
    let units: Vec<u16> = "hello".encode_utf16().collect();
    let s = JsString::from_units(&mut agent, &units);
    let mut base = RegExpExecBase {
        r,
        s,
        last_index: 1,
        global: true,
        sticky: false,
        has_indices: true,
        full_unicode: false,
    };
    let found = |start: usize| {
        Some(MatchRecord {
            start,
            end: 4,
            captures: vec![Some((2, 3)), None],
            named_groups: vec![("x".to_string(), None)],
        })
    };
    let a = reg_exp_builtin_exec_found(&mut agent, base, &units, found(2)).unwrap();
    assert_eq!(texts(&agent, a), vec![some("ll"), some("l"), None]);
    assert_eq!(last_index(&agent, r), Some(4));
    base.sticky = true;
    assert_eq!(
        reg_exp_builtin_exec_found(&mut agent, base, &units, found(2)),
        None
    );
    assert_eq!(last_index(&agent, r), Some(0));
    assert!(reg_exp_builtin_test_found(&mut agent, base, found(1)));
    assert_eq!(last_index(&agent, r), Some(4));
    assert!(!reg_exp_builtin_test_found(&mut agent, base, found(2)));
    assert_eq!(last_index(&agent, r), Some(0));
    assert!(r.set_last_index(&mut agent, RegExpLastIndex::from(3)));
    base.global = false;
    base.sticky = false;
    assert_eq!(
        reg_exp_builtin_exec_found(&mut agent, base, &units, None),
        None
    );
    assert_eq!(last_index(&agent, r), Some(3));
    assert!(!reg_exp_builtin_test_found(&mut agent, base, None));
    assert_eq!(last_index(&agent, r), Some(0));
}

#[test]
fn intrinsic_exec_takes_the_fast_path() {
    let mut agent = agent();
    let r = literal(&mut agent, "a", "");
    let s = JsString::from_str(&mut agent, "a");
    assert!(matches!(
        reg_exp_exec_prepare(&agent, Object::RegExp(r), s, native_exec()),
        ExecPrepare::Continue(r1, s1) if r1 == r && s1 == s
    ));
    // The intrinsic function on anything else is called.
    assert!(matches!(
        reg_exp_exec_prepare(&agent, Object::Ordinary(OrdinaryObject { index: 0 }), s, native_exec()),
        ExecPrepare::Call { function, this: Object::Ordinary(_), argument }
            if function == EXEC && argument == s
    ));
}

#[test]
fn exec_property_that_is_not_callable_is_ignored() {
    let mut agent = agent();
    let r = literal(&mut agent, "a", "");
    let s = JsString::from_str(&mut agent, "a");
    assert!(matches!(
        reg_exp_exec(&mut agent, Object::RegExp(r), s, Ok(Value::Undefined)),
        ExecStep::Done(Ok(Some(Object::Array(_))))
    ));
    match reg_exp_exec(
        &mut agent,
        Object::Ordinary(OrdinaryObject { index: 0 }),
        s,
        Ok(Value::Integer(1)),
    ) {
        ExecStep::Done(Err(JsError::Exception { kind, message })) => {
            assert_eq!(kind, ExceptionType::TypeError);
            assert_eq!(message, "Expected this to be RegExp");
        }
        other => panic!("{:?}", other),
    }
}

#[test]
fn callable_exec_property_is_called() {
    let mut agent = agent();
    let r = literal(&mut agent, "a", "");
    let s = JsString::from_str(&mut agent, "a");
    let own = Function { index: 9 };
    let property = || Ok(Value::Object(Object::Function(own)));
    match reg_exp_exec(&mut agent, Object::RegExp(r), s, property()) {
        ExecStep::Call { function, this, argument } => {
            assert_eq!(function, own);
            assert_eq!(this, Object::RegExp(r));
            assert_eq!(argument, s);
        }
        other => panic!("{:?}", other),
    }
    assert!(matches!(
        reg_exp_test(&mut agent, Object::RegExp(r), s, property()),
        ExecStep::Call { function, .. } if function == own
    ));
}

#[test]
fn failing_exec_lookup_is_passed_on() {
    let mut agent = agent();
    let r = literal(&mut agent, "a", "");
    let s = JsString::from_str(&mut agent, "a");
    assert!(matches!(
        reg_exp_exec(&mut agent, Object::RegExp(r), s, Err(JsError::Thrown(Value::Null))),
        ExecStep::Done(Err(JsError::Thrown(Value::Null)))
    ));
    assert!(matches!(
        reg_exp_test(&mut agent, Object::RegExp(r), s, Err(JsError::Thrown(Value::Null))),
        ExecStep::Done(Err(JsError::Thrown(Value::Null)))
    ));
}

#[test]
fn call_result_must_be_object_or_null() {
    let o = Object::Ordinary(OrdinaryObject { index: 4 });
    assert!(matches!(reg_exp_exec_call_result(Ok(Value::Object(o))), Ok(Some(x)) if x == o));
    assert!(matches!(reg_exp_exec_call_result(Ok(Value::Null)), Ok(None)));
    assert!(matches!(reg_exp_test_call_result(Ok(Value::Object(o))), Ok(true)));
    assert!(matches!(reg_exp_test_call_result(Ok(Value::Null)), Ok(false)));
    assert!(matches!(
        reg_exp_exec_call_result(Err(JsError::Thrown(Value::Null))),
        Err(JsError::Thrown(Value::Null))
    ));
    match reg_exp_exec_call_result(Ok(Value::Undefined)) {
        Err(JsError::Exception { kind, message }) => {
            assert_eq!(kind, ExceptionType::TypeError);
            assert_eq!(message, "'exec' function result was not object or null");
        }
        other => panic!("{:?}", other),
    }
    assert!(matches!(
        reg_exp_test_call_result(Ok(Value::Boolean(true))),
        Err(JsError::Exception { kind: ExceptionType::TypeError, .. })
    ));
}

#[test]
fn last_index_that_is_not_stored_is_converted() {
    let mut agent = agent();
    let r = literal(&mut agent, "a", "g");
    let s = JsString::from_str(&mut agent, "aaa");
    let o = agent.heap.regexps[r.index].object_index.unwrap();
    let value = Value::String(s);
    agent.heap.objects[o.index].properties[0].value = value;
    agent.heap.regexps[r.index].last_index = RegExpLastIndex::from_value(value);
    assert_eq!(last_index(&agent, r), None);
    match reg_exp_exec(&mut agent, Object::RegExp(r), s, native_exec()) {
        ExecStep::ToLength { r: r1, s: s1, value: v } => {
            assert_eq!((r1, s1, v), (r, s, value));
        }
        other => panic!("{:?}", other),
    }
    assert!(matches!(
        reg_exp_exec_with_length(&mut agent, r, s, Ok(1)),
        ExecStep::Done(Ok(Some(_)))
    ));
    assert_eq!(last_index(&agent, r), Some(2));
    assert!(matches!(
        reg_exp_test_with_length(&mut agent, r, s, Ok(2)),
        ExecStep::Done(Ok(true))
    ));
    assert_eq!(last_index(&agent, r), Some(3));
    assert!(matches!(
        reg_exp_test_with_length(&mut agent, r, s, Err(JsError::Thrown(Value::Null))),
        ExecStep::Done(Err(JsError::Thrown(Value::Null)))
    ));
    agent.heap.regexps[r.index].object_index = None;
    agent.heap.regexps[r.index].last_index = RegExpLastIndex::default();
    assert!(matches!(
        reg_exp_test(&mut agent, Object::RegExp(r), s, native_exec()),
        ExecStep::ToLength { value: Value::Undefined, .. }
    ));
}

#[test]
fn advancing_steps_over_pairs_in_unicode_mode() {
    let mut agent = agent();
    let s = JsString::from_units(&mut agent, &[0x61, 0xD83D, 0xDE00, 0xD83D]);
    for (index, unicode, expected) in [
        (0, true, 1),
        (1, false, 2),
        (1, true, 3),
        (2, true, 3),
        (3, true, 4),
        (4, true, 5),
        (100, true, 101),
    ] {
        assert_eq!(advance_string_index(&agent, s, index, unicode), expected);
    }
}
