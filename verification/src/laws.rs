//! What callers can rely on, stated of the calls themselves.
//!
//! Each law speaks of what calls were given and what came back. `call_ensures`
//! of a function, its arguments and a result says that the call may have that
//! result. Where one call follows another, the second is given what the first
//! left behind.

use vstd::prelude::*;
use wtf8::Wtf8Buf;

use crate::embedder_object::{
    clear_weak_ref_kept_objects, lemma_backed_object_takes_prototype, lemma_created_is_added,
    lemma_dereference, lemma_embedder_object_prototype, lemma_weak_ref_is_added,
};
use crate::heap::{Agent, Property, Realm};
use crate::regexp::data::{
    lemma_last_index_writable, lemma_regexp_prototype, lemma_regexp_string, RegExpHeapData,
};
use crate::regexp::exec::{
    advance_string_index, exec_base, exec_found, is_exec_result, is_exec_start, is_test_result,
    is_test_start, lemma_exec_base, lemma_found_is_what_the_engine_finds, lemma_next_index,
    reg_exp_builtin_exec, reg_exp_builtin_test, reg_exp_exec, reg_exp_exec_call_result,
    reg_exp_exec_prepare, reg_exp_exec_with_length, reg_exp_test, reg_exp_test_call_result,
    reg_exp_test_with_length, ExecPrepare, ExecStep,
};
use crate::regexp::flags::{
    flag_names, lemma_compile_flags_letters, lemma_flags_determined, lemma_flags_text_letters,
    lemma_flags_text_round_trip, lemma_full_unicode, parse_flags, RegExpFlags,
};
use crate::regexp::initialize::{
    is_allocated, is_initialize_start, is_literal, lemma_literal, lemma_regexp_created,
    reg_exp_alloc, reg_exp_create, reg_exp_create_literal,
    reg_exp_initialize_with_flags, reg_exp_initialize_with_pattern, regexp_created,
    require_internal_slot_reg_exp, require_internal_slot_reg_exp_object, InitializeStep,
};
use crate::regexp::last_index::RegExpLastIndex;
use crate::regexp::match_result::lemma_match_result_elements;
use crate::regexp::matcher::{
    regress_compile_unoptimized, regress_find_ucs2, regress_find_utf16, MatchModel, Matcher,
};
use crate::utf16::{decode_lossy, lemma_code_point_at, lemma_decode_encode};
use crate::values::{
    is_callable, Array, EmbedderObject, ExceptionType, Function, JsError, JsResult, JsString,
    Object, OrdinaryObject, PropertyDescriptor, RegExp, Value, WeakKey,
    WeakRef,
};
use crate::weak_ref::lemma_clear;
use crate::wtf8_buf::code_units;

verus! {

/// Advancing without Unicode mode goes one further, whatever the string. In
/// Unicode mode it goes two further if and only if a lead surrogate at the index
/// is directly followed by a trail surrogate, and else one.
pub proof fn law_advance_string_index(
    agent: &Agent,
    s: JsString,
    index: usize,
    unicode: bool,
    r: usize,
)
    requires
        call_ensures(advance_string_index, (agent, s, index, unicode), r),
    ensures
        !unicode ==> r == index + 1,
        unicode ==> {
            let units = code_units(agent.heap.strings@[s.index as int]);
            let pair = index + 1 < units.len() && 0xD800 <= units[index as int] <= 0xDBFF && 0xDC00
                <= units[index + 1] <= 0xDFFF;
            r == if pair {
                index + 2
            } else {
                index + 1
            }
        },
{
    lemma_next_index(code_units(agent.heap.strings@[s.index as int]), index as int);
}

/// The flags to compile with hold each of the letters i, m, s, u and v if and
/// only if its bit is set, whatever else is, and nothing else. They are in
/// alphabetical order, so none is there twice.
pub proof fn law_compile_flags(flags: RegExpFlags, r: String)
    requires
        call_ensures(RegExpFlags::compile_flags, (flags,), r),
    ensures
        r@.contains('i') <==> flags.bits & 0x02 != 0,
        r@.contains('m') <==> flags.bits & 0x04 != 0,
        r@.contains('s') <==> flags.bits & 0x08 != 0,
        r@.contains('u') <==> flags.bits & 0x10 != 0,
        r@.contains('v') <==> flags.bits & 0x80 != 0,
        forall|c: char| #[trigger]
            r@.contains(c) ==> c == 'i' || c == 'm' || c == 's' || c == 'u' || c == 'v',
        forall|i: int, j: int| 0 <= i < j < r@.len() ==> (#[trigger] r@[i]) < (#[trigger] r@[j]),
{
    lemma_compile_flags_letters(flags.bits);
}

/// The text of flags holds each of the eight letters if and only if its bit is
/// set, in alphabetical order.
pub proof fn law_to_text(flags: RegExpFlags, r: String)
    requires
        call_ensures(RegExpFlags::to_text, (flags,), r),
    ensures
        r@.contains('g') <==> flags.bits & 0x01 != 0,
        r@.contains('i') <==> flags.bits & 0x02 != 0,
        r@.contains('m') <==> flags.bits & 0x04 != 0,
        r@.contains('s') <==> flags.bits & 0x08 != 0,
        r@.contains('u') <==> flags.bits & 0x10 != 0,
        r@.contains('y') <==> flags.bits & 0x20 != 0,
        r@.contains('d') <==> flags.bits & 0x40 != 0,
        r@.contains('v') <==> flags.bits & 0x80 != 0,
        forall|i: int, j: int| 0 <= i < j < r@.len() ==> (#[trigger] r@[i]) < (#[trigger] r@[j]),
{
    lemma_flags_text_letters(flags.bits);
}

/// Parsing accepts a text if and only if each of its characters is one of the
/// eight letters and no two are the same. A flag is set if and only if its letter
/// is there.
pub proof fn law_parse_flags(text: &str, r: Option<RegExpFlags>)
    requires
        call_ensures(parse_flags, (text,), r),
    ensures
        r is Some <==> {
            &&& forall|i: int|
                0 <= i < text@.len() ==> {
                    let c = #[trigger] text@[i];
                    c == 'd' || c == 'g' || c == 'i' || c == 'm' || c == 's' || c == 'u' || c == 'v'
                        || c == 'y'
                }
            &&& forall|i: int, j: int|
                0 <= i < j < text@.len() ==> #[trigger] text@[i] != #[trigger] text@[j]
        },
        r matches Some(flags) ==> {
            &&& flags.bits & 0x01 != 0 <==> text@.contains('g')
            &&& flags.bits & 0x02 != 0 <==> text@.contains('i')
            &&& flags.bits & 0x04 != 0 <==> text@.contains('m')
            &&& flags.bits & 0x08 != 0 <==> text@.contains('s')
            &&& flags.bits & 0x10 != 0 <==> text@.contains('u')
            &&& flags.bits & 0x20 != 0 <==> text@.contains('y')
            &&& flags.bits & 0x40 != 0 <==> text@.contains('d')
            &&& flags.bits & 0x80 != 0 <==> text@.contains('v')
        },
{
    if forall|i: int, j: int|
        0 <= i < j < text@.len() ==> #[trigger] text@[i] != #[trigger] text@[j] {
        assert forall|i: int, j: int|
            0 <= i < text@.len() && 0 <= j < text@.len() && i != j implies text@[i] != text@[j] by {
            if i < j {
                assert(text@[i] != text@[j]);
            } else {
                assert(text@[j] != text@[i]);
            }
        }
    }
}

/// Parsing the text of flags gives the flags.
pub proof fn law_text_parses_back(
    flags: RegExpFlags,
    written: String,
    text: &str,
    r: Option<RegExpFlags>,
)
    requires
        call_ensures(RegExpFlags::to_text, (flags,), written),
        text@ == written@,
        call_ensures(parse_flags, (text,), r),
    ensures
        r == Some(flags),
{
    lemma_flags_text_round_trip(flags.bits);
    if let Some(parsed) = r {
        lemma_flags_determined(flags.bits, parsed.bits, text@);
    }
}

/// Unicode mode is on where `u` is set or `v` is set. No flag is set in the empty
/// set.
pub proof fn law_flags(flags: RegExpFlags, unicode: bool, flag: u8, has: bool, none: RegExpFlags)
    requires
        call_ensures(RegExpFlags::full_unicode, (flags,), unicode),
        call_ensures(RegExpFlags::has, (flags, flag), has),
        call_ensures(RegExpFlags::empty, (), none),
    ensures
        unicode <==> flags.bits & 0x10 != 0 || flags.bits & 0x80 != 0,
        has <==> flags.bits & flag != 0,
        none.bits == 0,
{
    lemma_full_unicode(flags);
}

/// Executing acts on what the engine finds in the code units of the string from
/// the index that the flags ask for: lastIndex with `g` or `y`, else 0. That the
/// string is empty makes no difference. Only beyond the end of the string is
/// there no match without asking the engine. A match counts unless `y` is set and
/// it begins elsewhere. It gives an array that holds what was captured, an empty
/// group as the empty string and only a group that did not take part as
/// undefined.
pub proof fn law_builtin_exec(
    agent: &mut Agent,
    r: RegExp,
    s: JsString,
    last_index: usize,
    result: JsResult<Option<Array>>,
    matcher: Matcher,
)
    requires
        call_ensures(reg_exp_builtin_exec, (agent, r, s, Ok(last_index)), result),
        old(agent).heap.regexps@[r.index as int].reg_exp_matcher == Ok::<Matcher, String>(matcher),
    ensures
        ({
            let heap = final(agent).heap;
            let bits = old(agent).heap.regexps@[r.index as int].original_flags.bits;
            let sticky = bits & 0x20 != 0;
            let unicode = bits & 0x10 != 0 || bits & 0x80 != 0;
            let start = if bits & 0x01 != 0 || sticky {
                last_index
            } else {
                0
            };
            let units = code_units(old(agent).heap.strings@[s.index as int]);
            let is_part = |value: Value, from: usize, to: usize|
                {
                    &&& value matches Value::String(part)
                    &&& part.index < heap.strings@.len()
                    &&& code_units(heap.strings@[part.index as int]) == units.subrange(
                        from as int,
                        to as int,
                    )
                };
            let acts_on = |found: Option<MatchModel>|
                match found {
                    Some(m) if !sticky || m.start == start => {
                        &&& result matches Ok(Some(a))
                        &&& ({
                            let elements = heap.arrays@[a.index as int].elements@;
                            &&& elements.len() == m.captures.len() + 1
                            &&& is_part(elements[0], m.start, m.end)
                            &&& forall|i: int|
                                #![trigger m.captures[i]]
                                0 <= i < m.captures.len() ==> match m.captures[i] {
                                    Some((from, to)) => is_part(elements[i + 1], from, to),
                                    None => elements[i + 1] == Value::Undefined,
                                }
                        })
                    },
                    _ => result == Ok::<Option<Array>, JsError>(None),
                };
            &&& start > units.len() ==> acts_on(None)
            &&& start <= units.len() && !unicode ==> acts_on(
                regress_find_ucs2(matcher.regex(), units, start),
            )
            &&& start <= units.len() && unicode ==> {
                ||| acts_on(regress_find_utf16(matcher.regex(), units, start))
                ||| regress_compile_unoptimized(matcher.pattern(), matcher.flags()) matches Ok(
                    regex,
                ) ==> acts_on(regress_find_utf16(regex, units, start))
            }
        }),
{
    let base = exec_base(old(agent).heap, r, s, last_index);
    lemma_exec_base(old(agent).heap, r, s, last_index);
    lemma_found_is_what_the_engine_finds(old(agent).heap, matcher, base);
    let found = exec_found(old(agent).heap, matcher, base);
    if let (Ok(Some(a)), Some(m)) = (result, found) {
        lemma_match_result_elements(
            final(agent).heap,
            a,
            base.s,
            base.s.units(old(agent).heap),
            m,
            base.has_indices,
        );
    }
}

/// Testing acts on the very same as executing. It gives true if and only if a
/// match counts. With `g` or `y` the index that is stored then is where the match
/// ended, and in any other case it is 0.
pub proof fn law_builtin_test(
    agent: &mut Agent,
    r: RegExp,
    s: JsString,
    last_index: usize,
    result: JsResult<bool>,
    matcher: Matcher,
)
    requires
        call_ensures(reg_exp_builtin_test, (agent, r, s, Ok(last_index)), result),
        r.index < old(agent).heap.regexps@.len(),
        old(agent).heap.regexps@[r.index as int].reg_exp_matcher == Ok::<Matcher, String>(matcher),
    ensures
        ({
            let bits = old(agent).heap.regexps@[r.index as int].original_flags.bits;
            let sticky = bits & 0x20 != 0;
            let heeds = bits & 0x01 != 0 || sticky;
            let unicode = bits & 0x10 != 0 || bits & 0x80 != 0;
            let start = if heeds {
                last_index
            } else {
                0
            };
            let units = code_units(old(agent).heap.strings@[s.index as int]);
            let stored = final(agent).heap.regexps@[r.index as int].last_index.raw;
            let acts_on = |found: Option<MatchModel>|
                match found {
                    Some(m) if !sticky || m.start == start => {
                        &&& result == Ok::<bool, JsError>(true)
                        &&& !heeds ==> stored == 0
                        &&& heeds && m.end < 0xFFFF_FFFF ==> stored == m.end
                        &&& heeds && m.end >= 0xFFFF_FFFF ==> stored == 0xFFFF_FFFF
                    },
                    _ => result == Ok::<bool, JsError>(false) && stored == 0,
                };
            &&& start > units.len() ==> acts_on(None)
            &&& start <= units.len() && !unicode ==> acts_on(
                regress_find_ucs2(matcher.regex(), units, start),
            )
            &&& start <= units.len() && unicode ==> {
                ||| acts_on(regress_find_utf16(matcher.regex(), units, start))
                ||| regress_compile_unoptimized(matcher.pattern(), matcher.flags()) matches Ok(
                    regex,
                ) ==> acts_on(regress_find_utf16(regex, units, start))
            }
        }),
{
    lemma_exec_base(old(agent).heap, r, s, last_index);
    lemma_found_is_what_the_engine_finds(
        old(agent).heap,
        matcher,
        exec_base(old(agent).heap, r, s, last_index),
    );
}

/// Neither executing nor testing changes anything where converting lastIndex
/// threw, which is thrown on, or where the pattern did not compile, which is a
/// SyntaxError with the message that says why.
pub proof fn law_failed_search(
    executing: &mut Agent,
    testing: &mut Agent,
    r: RegExp,
    s: JsString,
    last_index: JsResult<usize>,
    executed: JsResult<Option<Array>>,
    tested: JsResult<bool>,
)
    requires
        call_ensures(reg_exp_builtin_exec, (executing, r, s, last_index), executed),
        call_ensures(reg_exp_builtin_test, (testing, r, s, last_index), tested),
    ensures
        last_index matches Err(e) ==> {
            &&& executed == Err::<Option<Array>, JsError>(e)
            &&& tested == Err::<bool, JsError>(e)
            &&& *final(executing) == *old(executing)
            &&& *final(testing) == *old(testing)
        },
        last_index is Ok ==> {
            &&& old(executing).heap.regexps@[r.index as int].reg_exp_matcher matches Err(why) ==> {
                &&& executed matches Err(
                    JsError::Exception { kind: ExceptionType::SyntaxError, message },
                )
                &&& message@ == why@
                &&& *final(executing) == *old(executing)
            }
            &&& old(testing).heap.regexps@[r.index as int].reg_exp_matcher matches Err(why) ==> {
                &&& tested matches Err(
                    JsError::Exception { kind: ExceptionType::SyntaxError, message },
                )
                &&& message@ == why@
                &&& *final(testing) == *old(testing)
            }
        },
{
}

/// What RegExpExec does first: what getting "exec" threw is thrown on. A function
/// other than the intrinsic one is called on the object with the string. A regular
/// expression with the intrinsic function, or without a function, is executed. Any
/// other object has even the intrinsic function called, and is a TypeError without
/// a function.
pub proof fn law_exec_prepare(
    agent: &Agent,
    r: Object,
    s: JsString,
    exec_property: JsResult<Value>,
    step: ExecPrepare,
)
    requires
        call_ensures(reg_exp_exec_prepare, (agent, r, s, exec_property), step),
    ensures
        ({
            let intrinsic = agent.realms@[agent.current_realm as int].reg_exp_prototype_exec;
            &&& exec_property matches Err(e) ==> step == ExecPrepare::Break(e)
            &&& exec_property matches Ok(Value::Object(Object::Function(f))) ==> {
                &&& f != intrinsic || !(r is RegExp) ==> step == (ExecPrepare::Call {
                    function: f,
                    this: r,
                    argument: s,
                })
                &&& f == intrinsic ==> match r {
                    Object::RegExp(regexp) => step == ExecPrepare::Continue(regexp, s),
                    _ => true,
                }
            }
            &&& exec_property matches Ok(value) ==> (match value {
                Value::Object(Object::Function(_)) => true,
                _ => match r {
                    Object::RegExp(regexp) => step == ExecPrepare::Continue(regexp, s),
                    _ => {
                        &&& step matches ExecPrepare::Break(
                            JsError::Exception { kind: ExceptionType::TypeError, message },
                        )
                        &&& message@ == "Expected this to be RegExp"@
                    },
                },
            })
        }),
{
}

/// What a called "exec" function results in counts as a match if it is an object
/// and as none if it is null. What it threw is thrown on, and anything else is a
/// TypeError.
pub proof fn law_call_results(
    result: JsResult<Value>,
    executed: JsResult<Option<Object>>,
    tested: JsResult<bool>,
)
    requires
        call_ensures(reg_exp_exec_call_result, (result,), executed),
        call_ensures(reg_exp_test_call_result, (result,), tested),
    ensures
        match result {
            Err(e) => executed == Err::<Option<Object>, JsError>(e) && tested == Err::<
                bool,
                JsError,
            >(e),
            Ok(Value::Object(o)) => executed == Ok::<Option<Object>, JsError>(Some(o)) && tested
                == Ok::<bool, JsError>(true),
            Ok(Value::Null) => executed == Ok::<Option<Object>, JsError>(None) && tested == Ok::<
                bool,
                JsError,
            >(false),
            Ok(_) => {
                &&& executed matches Err(
                    JsError::Exception { kind: ExceptionType::TypeError, message: m1 },
                )
                &&& tested matches Err(
                    JsError::Exception { kind: ExceptionType::TypeError, message: m2 },
                )
                &&& m1@ == "'exec' function result was not object or null"@
                &&& m2@ == m1@
            },
        },
{
}

/// The prototype of an embedder object with a backing object is that of the
/// backing object, whatever that is and whichever realm is current. Without one
/// it is that of objects in the current realm.
pub proof fn law_embedder_object_prototype(agent: &Agent, e: EmbedderObject, r: Option<Object>)
    requires
        call_ensures(EmbedderObject::internal_prototype, (e, agent), r),
    ensures
        agent.heap.embedder_objects@[e.index as int].backing_object matches Some(o) ==> r
            == agent.heap.objects@[o.index as int].prototype,
        agent.heap.embedder_objects@[e.index as int].backing_object is None ==> r == Some(
            agent.realms@[agent.current_realm as int].object_prototype,
        ),
{
    lemma_embedder_object_prototype(e, *agent, *agent);
}

/// After a backing object is installed, the prototype reads as the one that the
/// backing object has, also once the current realm has been switched, and the
/// backing object reads back.
pub proof fn law_backing_object_decides_prototype(
    agent: &mut Agent,
    later: &Agent,
    e: EmbedderObject,
    o: OrdinaryObject,
    prototype: Option<Object>,
    backing: Option<OrdinaryObject>,
)
    requires
        e.index < old(agent).heap.embedder_objects@.len(),
        call_ensures(EmbedderObject::set_backing_object, (e, agent, o), ()),
        later.heap == final(agent).heap,
        call_ensures(EmbedderObject::internal_prototype, (e, later), prototype),
        call_ensures(EmbedderObject::get_backing_object, (e, later), backing),
    ensures
        prototype == old(agent).heap.objects@[o.index as int].prototype,
        backing == Some(o),
{
    lemma_backed_object_takes_prototype(*old(agent), *final(agent), *later, e, o, prototype);
}

/// A created backing object is a new object without properties whose prototype is
/// the one that the embedder object had, which it keeps.
pub proof fn law_created_backing_object(
    agent: &mut Agent,
    e: EmbedderObject,
    o: OrdinaryObject,
)
    requires
        e.index < old(agent).heap.embedder_objects@.len(),
        old(agent).heap.embedder_objects@[e.index as int].backing_object is None,
        call_ensures(EmbedderObject::create_backing_object, (e, agent), o),
    ensures
        o.index == old(agent).heap.objects@.len(),
        o.index < final(agent).heap.objects@.len(),
        final(agent).heap.objects@[o.index as int].properties@.len() == 0,
        final(agent).heap.objects@[o.index as int].prototype == Some(
            old(agent).realms@[old(agent).current_realm as int].object_prototype,
        ),
        e.spec_internal_prototype(*final(agent)) == e.spec_internal_prototype(*old(agent)),
{
    lemma_embedder_object_prototype(e, *old(agent), *old(agent));
    lemma_embedder_object_prototype(e, *final(agent), *final(agent));
}

/// What an embedder object is created with reads back, and the owner is 0 where
/// none is given.
pub proof fn law_native_data_reads_back(
    agent: &mut Agent,
    other: &mut Agent,
    embedder_data: u64,
    embedder_owner: u64,
    e: EmbedderObject,
    unowned: EmbedderObject,
    now: &Agent,
    other_now: &Agent,
    data: u64,
    owner: u64,
    unowned_data: u64,
    no_owner: u64,
)
    requires
        call_ensures(
            EmbedderObject::create_with_owner,
            (agent, embedder_data, embedder_owner),
            e,
        ),
        call_ensures(EmbedderObject::create_with_data, (other, embedder_data), unowned),
        *now == *final(agent),
        *other_now == *final(other),
        call_ensures(EmbedderObject::embedder_data, (e, now), data),
        call_ensures(EmbedderObject::embedder_owner, (e, now), owner),
        call_ensures(EmbedderObject::embedder_data, (unowned, other_now), unowned_data),
        call_ensures(EmbedderObject::embedder_owner, (unowned, other_now), no_owner),
    ensures
        data == embedder_data,
        owner == embedder_owner,
        unowned_data == embedder_data,
        no_owner == 0,
        e.index == old(agent).heap.embedder_objects@.len(),
        unowned.index == old(other).heap.embedder_objects@.len(),
{
    lemma_created_is_added(*old(agent), *final(agent), e, embedder_data, embedder_owner);
    lemma_created_is_added(*old(other), *final(other), unowned, embedder_data, 0);
}

/// Dereferencing a `WeakRef` right after it was created gives the object that it
/// was created for. After clearing it still does, and in between the object is
/// not kept alive by any `WeakRef`.
pub proof fn law_weak_ref_reads_back(
    created: &mut Agent,
    cleared: &mut Agent,
    read: &mut Agent,
    e: EmbedderObject,
    weak_ref: WeakRef,
    r: Option<EmbedderObject>,
)
    requires
        call_ensures(EmbedderObject::into_weak_ref, (e, created), weak_ref),
        *old(cleared) == *final(created),
        call_ensures(clear_weak_ref_kept_objects, (cleared,), ()),
        *old(read) == *final(created) || *old(read) == *final(cleared),
        call_ensures(EmbedderObject::from_weak_ref, (read, weak_ref), r),
    ensures
        r == Some(e),
        final(created).heap.weak_refs@[weak_ref.index as int].kept_alive,
        forall|i: int|
            0 <= i < final(cleared).heap.weak_refs@.len() ==> !(
            #[trigger] final(cleared).heap.weak_refs@[i]).kept_alive,
        final(read).heap.weak_refs@[weak_ref.index as int].kept_alive,
{
    lemma_weak_ref_is_added(*old(created), *final(created), e, weak_ref);
    lemma_clear(*old(cleared), *final(cleared));
    let data = old(cleared).heap.weak_refs@[weak_ref.index as int];
    assert(final(cleared).heap.weak_refs@[weak_ref.index as int].weak_ref_target
        == data.weak_ref_target);
    lemma_dereference(*old(read), *final(read), weak_ref, r);
    assert(final(read).heap.weak_refs@[weak_ref.index as int].kept_alive);
}

/// The prototype of a regular expression with a backing object is that of the
/// backing object, whatever that is and whichever realm is current. Without one
/// it is that of regular expressions in the current realm.
pub proof fn law_regexp_prototype(agent: &Agent, regexp: RegExp, r: Option<Object>)
    requires
        call_ensures(RegExp::internal_prototype, (regexp, agent), r),
    ensures
        agent.heap.regexps@[regexp.index as int].object_index matches Some(o) ==> r
            == agent.heap.objects@[o.index as int].prototype,
        agent.heap.regexps@[regexp.index as int].object_index is None ==> r == Some(
            agent.realms@[agent.current_realm as int].reg_exp_prototype,
        ),
{
    lemma_regexp_prototype(regexp, *agent, *agent);
}

/// Where setting "lastIndex" succeeds, the index reads back, and where it does
/// not, nothing changes. Without a backing object it succeeds.
pub proof fn law_last_index_reads_back(
    agent: &mut Agent,
    now: &Agent,
    regexp: RegExp,
    last_index: RegExpLastIndex,
    done: bool,
    r: Option<u32>,
)
    requires
        regexp.index < old(agent).heap.regexps@.len(),
        call_ensures(RegExp::set_last_index, (regexp, agent, last_index), done),
        *now == *final(agent),
        call_ensures(RegExp::try_get_last_index, (regexp, now), r),
    ensures
        done ==> r == if last_index.raw == 0xFFFF_FFFF {
            None
        } else {
            Some(last_index.raw)
        },
        !done ==> *final(agent) == *old(agent),
        old(agent).heap.regexps@[regexp.index as int].object_index is None ==> done,
{
    lemma_last_index_writable(regexp, old(agent).heap, 0);
}

/// The literal of a regular expression is a slash, the source, a slash, and the
/// names of its flags.
pub proof fn law_regexp_string(data: &RegExpHeapData, agent: &Agent, r: Wtf8Buf)
    requires
        call_ensures(RegExpHeapData::create_regexp_string, (data, agent), r),
    ensures
        ({
            let source = code_units(agent.heap.strings@[data.original_source.index as int]);
            let names = flag_names(data.original_flags.bits);
            &&& code_units(r).len() == source.len() + names.len() + 2
            &&& code_units(r)[0] == '/' as int
            &&& code_units(r).subrange(1, 1 + source.len() as int) == source
            &&& code_units(r)[1 + source.len() as int] == '/' as int
            &&& forall|i: int|
                #![trigger names[i]]
                0 <= i < names.len() ==> code_units(r)[source.len() + 2 + i] == names[i] as int
        }),
{
    lemma_regexp_string(
        code_units(agent.heap.strings@[data.original_source.index as int]),
        data.original_flags,
    );
}

/// A string that is made from code units has these, and they read back, with
/// their number. Its code point at a position is that of a surrogate pair if one
/// begins there, and else the code unit.
pub proof fn law_string_reads_back(
    agent: &mut Agent,
    now: &Agent,
    units: &[u16],
    s: JsString,
    read: Vec<u16>,
    length: usize,
    index: usize,
    code_point: u32,
)
    requires
        call_ensures(JsString::from_units, (agent, units), s),
        *now == *final(agent),
        call_ensures(JsString::to_units, (s, now), read),
        call_ensures(JsString::utf16_len, (s, now), length),
        index < units@.len(),
        call_ensures(JsString::code_point_at, (s, now, index), code_point),
    ensures
        read@ == units@,
        length == units@.len(),
        ({
            let unit = units@[index as int];
            let pair = index + 1 < units@.len() && 0xD800 <= unit <= 0xDBFF && 0xDC00
                <= units@[index + 1] <= 0xDFFF;
            &&& pair ==> code_point == 0x10000 + (unit - 0xD800) * 0x400 + (units@[index + 1]
                - 0xDC00)
            &&& !pair ==> code_point == unit
        }),
{
    lemma_code_point_at(units@, index as int);
}

/// A string that is made from text has that text.
pub proof fn law_text_reads_back(
    agent: &mut Agent,
    now: &Agent,
    text: &str,
    s: JsString,
    read: String,
)
    requires
        call_ensures(JsString::from_str, (agent, text), s),
        *now == *final(agent),
        call_ensures(JsString::to_string_lossy, (s, now), read),
    ensures
        read@ == text@,
{
    lemma_decode_encode(text@);
}

/// A value is an object or it is none, and it can be called exactly if it is a
/// function.
pub proof fn law_kinds_of_values(value: Value, object: Option<Object>, function: Option<Function>)
    requires
        call_ensures(Object::from_value, (value,), object),
        call_ensures(is_callable, (value,), function),
    ensures
        match object {
            Some(o) => value == Value::Object(o),
            None => !(value is Object),
        },
        match function {
            Some(f) => object == Some(Object::Function(f)),
            None => object matches Some(o) ==> !(o is Function),
        },
{
}

/// The stored form of a value is the index that it is, below 2^32 - 1, and the
/// sentinel for any other value. An index is stored or not, and the property
/// reads as the index or as undefined.
pub proof fn law_stored_index(
    value: Value,
    stored: RegExpLastIndex,
    valid: bool,
    index: Option<u32>,
    property: Value,
    descriptor: PropertyDescriptor,
    key: String,
    data_property: Property,
)
    requires
        call_ensures(RegExpLastIndex::from_value, (value,), stored),
        call_ensures(RegExpLastIndex::is_valid, (stored,), valid),
        call_ensures(RegExpLastIndex::get_value, (stored,), index),
        call_ensures(RegExpLastIndex::into_property_value, (stored,), property),
        call_ensures(RegExpLastIndex::into_property_descriptor, (stored,), descriptor),
        call_ensures(PropertyDescriptor::into_data_property, (descriptor, key), data_property),
    ensures
        ({
            let fits = match value {
                Value::Integer(i) => 0 <= i < 0xFFFF_FFFF,
                _ => false,
            };
            &&& valid <==> fits
            &&& fits ==> property == value && index == Some(value->Integer_0 as u32) && stored.raw
                == value->Integer_0
            &&& !fits ==> property == Value::Undefined && index is None && stored.raw == 0xFFFF_FFFF
        }),
        data_property.key == key,
        data_property.value == property,
        data_property.writable,
        !data_property.enumerable,
        !data_property.configurable,
{
}

/// A literal is a new regular expression with the given source and flags, none if
/// there are none, the matcher that is compiled from them, and the index 0.
pub proof fn law_literal(
    agent: &mut Agent,
    p: JsString,
    f: Option<RegExpFlags>,
    r: RegExp,
)
    requires
        call_ensures(reg_exp_create_literal, (agent, p, f), r),
    ensures
        ({
            let data = final(agent).heap.regexps@[r.index as int];
            &&& r.index == old(agent).heap.regexps@.len()
            &&& final(agent).heap.regexps@.len() == old(agent).heap.regexps@.len() + 1
            &&& data.original_source == p
            &&& f matches Some(flags) ==> data.original_flags == flags
            &&& f is None ==> data.original_flags.bits == 0
            &&& data.last_index.raw == 0
            &&& RegExpHeapData::is_matcher(
                data.reg_exp_matcher,
                decode_lossy(code_units(old(agent).heap.strings@[p.index as int])),
                data.original_flags,
            )
            &&& data.object_index matches Some(o)
            &&& o.index == old(agent).heap.objects@.len()
            &&& final(agent).heap.objects@[o.index as int].prototype == Some(
                old(agent).realms@[old(agent).current_realm as int].reg_exp_prototype,
            )
        }),
{
    let flags = match f {
        Some(flags) => flags,
        None => RegExpFlags { bits: 0 },
    };
    let data = choose|data: RegExpHeapData|
        is_literal(old(agent).heap, data, p, flags) && #[trigger] regexp_created(
            *old(agent),
            *final(agent),
            r,
            data,
        );
    lemma_literal(old(agent).heap, data, p, flags);
    lemma_regexp_created(*old(agent), *final(agent), r, data);
}

/// What converting the pattern or the flags threw is thrown on, and nothing
/// changes.
pub proof fn law_failed_conversion(
    agent: &mut Agent,
    other: &mut Agent,
    obj: RegExp,
    p: JsString,
    flags: Result<RegExpFlags, Value>,
    e: JsError,
    r: JsResult<RegExp>,
    step: InitializeStep,
)
    requires
        call_ensures(reg_exp_initialize_with_flags, (agent, obj, p, Err(e)), r),
        call_ensures(reg_exp_initialize_with_pattern, (other, obj, Err(e), flags), step),
    ensures
        r == Err::<RegExp, JsError>(e),
        step == InitializeStep::Done(Err(e)),
        *final(agent) == *old(agent),
        *final(other) == *old(other),
{
}

/// A value is accepted as a regular expression exactly if it is one. Any other
/// object is a TypeError, and so is anything that is no object, with a message
/// that begins with what represents it.
pub proof fn law_require_regexp(
    agent: &Agent,
    value: Value,
    repr: JsString,
    r: JsResult<RegExp>,
    object: Object,
    of_object: JsResult<RegExp>,
)
    requires
        call_ensures(require_internal_slot_reg_exp, (agent, value, repr), r),
        call_ensures(require_internal_slot_reg_exp_object, (object,), of_object),
    ensures
        r matches Ok(regexp) ==> value == Value::Object(Object::RegExp(regexp)),
        of_object matches Ok(regexp) ==> object == Object::RegExp(regexp),
        r matches Err(e) ==> {
            &&& !(value matches Value::Object(Object::RegExp(_)))
            &&& e matches JsError::Exception { kind: ExceptionType::TypeError, message }
            &&& value is Object ==> message@ == "Expected this to be RegExp"@
            &&& !(value is Object) ==> message@ == decode_lossy(
                code_units(agent.heap.strings@[repr.index as int]),
            ) + " is not an object"@
        },
        of_object matches Err(e) ==> {
            &&& !(object is RegExp)
            &&& e matches JsError::Exception { kind: ExceptionType::TypeError, message }
            &&& message@ == "Expected this to be RegExp"@
        },
{
}

/// What was created is the regular expression that is given, and what was thrown
/// is thrown on.
pub proof fn law_alloc(created: JsResult<Object>, r: JsResult<RegExp>)
    requires
        call_ensures(reg_exp_alloc, (created,), r),
    ensures
        created matches Ok(o) ==> {
            &&& r matches Ok(regexp)
            &&& o == Object::RegExp(regexp)
        },
        created matches Err(e) ==> r == Err::<RegExp, JsError>(e),
{
}

/// RegExpExec and testing take the same first step: what getting "exec" threw is
/// thrown on, a function is called in the same cases, an object that is no
/// regular expression is the same TypeError, and otherwise both begin to search.
/// In all but the last case nothing changes.
pub proof fn law_exec_and_test(
    executing: &mut Agent,
    testing: &mut Agent,
    r: Object,
    s: JsString,
    exec_property: JsResult<Value>,
    executed: ExecStep<Option<Object>>,
    tested: ExecStep<bool>,
)
    requires
        call_ensures(reg_exp_exec, (executing, r, s, exec_property), executed),
        call_ensures(reg_exp_test, (testing, r, s, exec_property), tested),
        *old(testing) == *old(executing),
    ensures
        ({
            let agent = *old(executing);
            let intrinsic = agent.realms@[agent.current_realm as int].reg_exp_prototype_exec;
            let unchanged = *final(executing) == agent && *final(testing) == agent;
            match exec_property {
                Err(e) => {
                    &&& executed == ExecStep::<Option<Object>>::Done(Err(e))
                    &&& tested == ExecStep::<bool>::Done(Err(e))
                    &&& unchanged
                },
                Ok(Value::Object(Object::Function(f))) if f != intrinsic || !(r is RegExp) => {
                    &&& executed == (ExecStep::<Option<Object>>::Call {
                        function: f,
                        this: r,
                        argument: s,
                    })
                    &&& tested == (ExecStep::<bool>::Call { function: f, this: r, argument: s })
                    &&& unchanged
                },
                Ok(_) => match r {
                    Object::RegExp(regexp) => {
                        &&& is_exec_start(agent, *final(executing), regexp, s, executed)
                        &&& is_test_start(agent, *final(testing), regexp, s, tested)
                    },
                    _ => {
                        &&& executed matches ExecStep::Done(
                            Err(JsError::Exception { kind: ExceptionType::TypeError, message: m1 }),
                        )
                        &&& tested matches ExecStep::Done(
                            Err(JsError::Exception { kind: ExceptionType::TypeError, message: m2 }),
                        )
                        &&& m1@ == "Expected this to be RegExp"@
                        &&& m2@ == m1@
                        &&& unchanged
                    },
                },
            }
        }),
{
}

/// A new agent runs in the one realm that it is given. Its heap holds the empty
/// string and nothing else.
pub proof fn law_new_agent(realm: Realm, agent: Agent, now: &Agent, current: Realm)
    requires
        call_ensures(Agent::new, (realm,), agent),
        *now == agent,
        call_ensures(Agent::current_realm_record, (now,), current),
    ensures
        agent.realms@.len() == 1,
        agent.realms@[0] == realm,
        agent.current_realm == 0,
        current == realm,
        agent.heap.strings@.len() == 1,
        code_units(agent.heap.strings@[0]).len() == 0,
        agent.heap.objects@.len() == 0,
        agent.heap.arrays@.len() == 0,
        agent.heap.regexps@.len() == 0,
        agent.heap.embedder_objects@.len() == 0,
        agent.heap.weak_refs@.len() == 0,
        !agent.kept_alive,
{
}

/// Setting the target of a `WeakRef` makes it the one that reads back, and changes
/// no other.
pub proof fn law_target_reads_back(
    agent: &mut Agent,
    now: &Agent,
    weak_ref: WeakRef,
    target: WeakKey,
    r: Option<WeakKey>,
)
    requires
        weak_ref.index < old(agent).heap.weak_refs@.len(),
        call_ensures(WeakRef::set_target, (weak_ref, agent, target), ()),
        *now == *final(agent),
        call_ensures(WeakRef::get_target, (weak_ref, now), r),
    ensures
        r == Some(target),
        final(agent).heap.weak_refs@[weak_ref.index as int].kept_alive
            == old(agent).heap.weak_refs@[weak_ref.index as int].kept_alive,
        final(agent).heap.weak_refs@.len() == old(agent).heap.weak_refs@.len(),
        forall|i: int|
            0 <= i < old(agent).heap.weak_refs@.len() && i != weak_ref.index
                ==> #[trigger] final(agent).heap.weak_refs@[i] == old(agent).heap.weak_refs@[i],
{
}

/// A created object has the prototype and the properties that it is given, and its
/// prototype reads back. A created array has the elements and the properties that
/// it is given. Both are new.
pub proof fn law_create_object_and_array(
    agent: &mut Agent,
    now: &Agent,
    prototype: Option<Object>,
    properties: Vec<Property>,
    o: OrdinaryObject,
    read: Option<Object>,
    other: &mut Agent,
    elements: Vec<Value>,
    a: Array,
)
    requires
        call_ensures(OrdinaryObject::create_object, (agent, prototype, properties), o),
        *now == *final(agent),
        call_ensures(OrdinaryObject::internal_prototype, (o, now), read),
        call_ensures(Array::create_array, (other, elements, properties), a),
    ensures
        read == prototype,
        o.index == old(agent).heap.objects@.len(),
        final(agent).heap.objects@.len() == old(agent).heap.objects@.len() + 1,
        final(agent).heap.objects@[o.index as int].properties == properties,
        a.index == old(other).heap.arrays@.len(),
        final(other).heap.arrays@.len() == old(other).heap.arrays@.len() + 1,
        final(other).heap.arrays@[a.index as int].elements == elements,
        final(other).heap.arrays@[a.index as int].properties == properties,
{
}

/// RegExpCreate allocates a new regular expression and begins to initialize it
/// with the pattern, and with the flags, none if there are none.
pub proof fn law_create(
    agent: &mut Agent,
    p: Value,
    f: Option<JsString>,
    step: InitializeStep,
)
    requires
        call_ensures(reg_exp_create, (agent, p, f), step),
    ensures
        exists|middle: Agent, obj: RegExp|
            {
                &&& #[trigger] is_allocated(*old(agent), middle, obj)
                &&& f matches Some(s) ==> is_initialize_start(
                    middle,
                    *final(agent),
                    obj,
                    p,
                    Err(Value::String(s)),
                    step,
                )
                &&& f is None ==> exists|none: RegExpFlags|
                    none.bits == 0 && #[trigger] is_initialize_start(
                        middle,
                        *final(agent),
                        obj,
                        p,
                        Ok(none),
                        step,
                    )
            },
{
    let flags: Result<RegExpFlags, Value> = match f {
        Some(s) => Err(Value::String(s)),
        None => Ok(RegExpFlags { bits: 0 }),
    };
    let (middle, obj) = choose|middle: Agent, obj: RegExp| #[trigger]
        is_allocated(*old(agent), middle, obj) && is_initialize_start(
            middle,
            *final(agent),
            obj,
            p,
            flags,
            step,
        );
    assert(is_allocated(*old(agent), middle, obj));
    if f is None {
        assert(is_initialize_start(
            middle,
            *final(agent),
            obj,
            p,
            Ok(RegExpFlags { bits: 0 }),
            step,
        ));
    }
}

/// Going on with a converted index completes the search from that index.
pub proof fn law_search_with_length(
    executing: &mut Agent,
    testing: &mut Agent,
    r: RegExp,
    s: JsString,
    last_index: JsResult<usize>,
    executed: ExecStep<Option<Object>>,
    tested: ExecStep<bool>,
)
    requires
        call_ensures(reg_exp_exec_with_length, (executing, r, s, last_index), executed),
        call_ensures(reg_exp_test_with_length, (testing, r, s, last_index), tested),
    ensures
        ({
            &&& executed matches ExecStep::Done(result)
            &&& is_exec_result(*old(executing), *final(executing), r, s, last_index, result)
        }),
        ({
            &&& tested matches ExecStep::Done(result)
            &&& is_test_result(*old(testing), *final(testing), r, s, last_index, result)
        }),
{
}

} // verus!
