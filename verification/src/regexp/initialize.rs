//! Creating and initializing regular expressions.
//!
//! Converting values to strings can run code of the program. Where that is
//! needed, an operation stops and says so in its result; the caller does the
//! work and hands the completion to the function that goes on from there.

use vstd::prelude::*;
use vstd::string::StringExecFns;

use crate::heap::{extends, properties_view, Agent, Heap};
use crate::regexp::data::RegExpHeapData;
use crate::regexp::flags::{
    all_flag_letters, compile_flags_text, flags_match_text, flags_text, is_flag_letter,
    lemma_flags_determined, lemma_flags_text_round_trip, lemma_valid_flags_text, parse_flags,
    valid_flags_text, RegExpFlags, FLAG_D, FLAG_G, FLAG_Y,
};
use crate::regexp::last_index::{last_index_of, RegExpLastIndex};
use crate::regexp::matcher::{
    depends_on_mode, literal_early_error, message_view, parse_literal, pattern_code_points, Matcher,
    MAX_PATTERN_LENGTH,
};
use crate::utf16::{
    decode_lossy, is_surrogate, lemma_decode_length, lemma_decode_plain, lemma_encode_length,
    lemma_encode_pair, pair_at, pair_value,
};
use crate::values::{throws, ExceptionType, JsError, JsResult, JsString, Object, RegExp, Value};
use crate::wtf8_buf::code_units;

verus! {

/// What RegExpInitialize needs next.
#[derive(Debug)]
pub enum InitializeStep {
    /// Convert the pattern `value` with ToString, then go on with that string.
    PatternToString { obj: RegExp, value: Value, flags: Result<RegExpFlags, Value> },
    /// Convert the flags `value` with ToString, then go on with that string.
    FlagsToString { obj: RegExp, pattern: JsString, value: Value },
    /// Nothing: the operation has completed.
    Done(JsResult<RegExp>),
}

/// The regular expression that a value is. `repr` is a string that represents
/// the value.
pub fn require_internal_slot_reg_exp(agent: &Agent, o: Value, repr: JsString) -> (r: JsResult<
    RegExp,
>)
    requires
        repr.valid(agent.heap),
    ensures
        (match o {
            Value::Object(Object::RegExp(reg_exp)) => r == Ok::<RegExp, JsError>(reg_exp),
            Value::Object(_) => throws(
                r,
                ExceptionType::TypeError,
                "Expected this to be RegExp"@,
            ),
            _ => throws(
                r,
                ExceptionType::TypeError,
                decode_lossy(repr.units(agent.heap)) + " is not an object"@,
            ),
        }),
{
    // 1. If O is not an Object, throw a TypeError exception.
    match Object::from_value(o) {
        Some(o) => require_internal_slot_reg_exp_object(o),
        None => {
            let mut message: String = repr.to_string_lossy(agent);
            message.append(" is not an object");
            Err(JsError::Exception { kind: ExceptionType::TypeError, message })
        },
    }
}

/// The regular expression that an object is.
pub fn require_internal_slot_reg_exp_object(o: Object) -> (r: JsResult<RegExp>)
    ensures
        (match o {
            Object::RegExp(reg_exp) => r == Ok::<RegExp, JsError>(reg_exp),
            _ => throws(r, ExceptionType::TypeError, "Expected this to be RegExp"@),
        }),
{
    match o {
        // 1. Perform ? RequireInternalSlot(O, [[RegExpMatcher]]).
        Object::RegExp(reg_exp) => Ok(reg_exp),
        _ => Err(
            JsError::Exception {
                kind: ExceptionType::TypeError,
                message: "Expected this to be RegExp".to_owned(),
            },
        ),
    }
}

/// Whether a string is one of the heap and short enough for the parser, which
/// counts bytes in 32 bits.
pub open spec fn is_parsable(heap: Heap, s: JsString) -> bool {
    &&& s.valid(heap)
    &&& s.units(heap).len() <= MAX_PATTERN_LENGTH
}

/// The text of flags that are given as a set or as a string.
pub open spec fn flags_source(heap: Heap, f: Result<RegExpFlags, JsString>) -> Seq<char> {
    match f {
        Ok(flags) => flags_text(flags.bits),
        Err(s) => decode_lossy(s.units(heap)),
    }
}

/// The text, unless it is empty.
pub open spec fn unless_empty(text: Seq<char>) -> Option<Seq<char>> {
    if text.len() == 0 {
        None
    } else {
        Some(text)
    }
}

/// Whether `flags` is the set of flags that is given as `f`.
pub open spec fn is_flags_of(
    heap: Heap,
    f: Result<RegExpFlags, JsString>,
    flags: RegExpFlags,
) -> bool {
    match f {
        Ok(set) => flags == set,
        Err(s) => flags_match_text(flags.bits, decode_lossy(s.units(heap))),
    }
}

/// Whether `after` is `before` with the source, the flags and the matcher of
/// `obj` set and its lastIndex 0. A read-only "lastIndex" is left alone, and
/// then a TypeError is thrown.
pub open spec fn is_initialized(
    before: Agent,
    after: Agent,
    obj: RegExp,
    p: JsString,
    flags: RegExpFlags,
    matcher: Result<Matcher, String>,
    r: JsResult<RegExp>,
) -> bool {
    let data = RegExpHeapData {
        reg_exp_matcher: matcher,
        original_source: p,
        original_flags: flags,
        ..obj.data(before.heap)
    };
    if obj.last_index_writable(before.heap) {
        &&& r == Ok::<RegExp, JsError>(obj)
        &&& obj.data_replaced(
            before,
            after,
            RegExpHeapData { last_index: last_index_of(0), ..data },
        )
        &&& obj.backing_last_index_set(before.heap, after.heap, Value::Integer(0))
    } else {
        &&& throws(r, ExceptionType::TypeError, "Could not set property 'lastIndex'."@)
        &&& obj.data_replaced(before, after, data)
        &&& after.heap.objects == before.heap.objects
    }
}

/// Performs steps 16-23 of RegExpInitialize with the compiled pattern.
pub fn reg_exp_initialize_compiled(
    agent: &mut Agent,
    obj: RegExp,
    p: JsString,
    flags: RegExpFlags,
    matcher: Result<Matcher, String>,
) -> (r: JsResult<RegExp>)
    requires
        old(agent).wf(),
        obj.valid(old(agent).heap),
        p.valid(old(agent).heap),
        matcher matches Ok(m) ==> {
            &&& m.pattern() == pattern_code_points(decode_lossy(p.units(old(agent).heap)), flags)
            &&& m.flags() == compile_flags_text(flags.bits)
        },
    ensures
        final(agent).wf(),
        is_initialized(*old(agent), *final(agent), obj, p, flags, matcher, r),
{
    // 16. Set obj.[[OriginalSource]] to P.
    agent.heap.regexps[obj.index].original_source = p;
    // 17. Set obj.[[OriginalFlags]] to F.
    agent.heap.regexps[obj.index].original_flags = flags;
    // 21. Set obj.[[RegExpMatcher]] to CompilePattern of parseResult with argument rer.
    agent.heap.regexps[obj.index].reg_exp_matcher = matcher;
    let ghost data = RegExpHeapData {
        reg_exp_matcher: matcher,
        original_source: p,
        original_flags: flags,
        ..obj.data(old(agent).heap)
    };
    proof {
        let before = old(agent).heap;
        assert(agent.heap.regexps@ =~= before.regexps@.update(obj.index as int, data));
        assert forall|i: int| 0 <= i < agent.heap.regexps@.len() implies (
        #[trigger] agent.heap.regexps@[i]).wf(agent.heap) by {
            assert(before.regexps@[i].wf(before));
        }
    }
    // 22. Perform ? Set(obj, "lastIndex", +0𝔽, true).
    if !obj.set_last_index(agent, RegExpLastIndex::zero()) {
        return Err(
            JsError::Exception {
                kind: ExceptionType::TypeError,
                message: "Could not set property 'lastIndex'.".to_owned(),
            },
        );
    }
    assert(agent.heap.regexps@ =~= old(agent).heap.regexps@.update(
        obj.index as int,
        RegExpHeapData { last_index: last_index_of(0), ..data },
    ));
    // 23. Return obj.
    Ok(obj)
}

/// Whether `r` is a result of RegExpInitialize with a pattern and flags that
/// have the given early error, if any.
pub open spec fn is_initialize_result(
    before: Agent,
    after: Agent,
    obj: RegExp,
    p: JsString,
    f: Result<RegExpFlags, JsString>,
    early_error: Option<Seq<char>>,
    r: JsResult<RegExp>,
) -> bool {
    match early_error {
        Some(message) => throws(r, ExceptionType::SyntaxError, message) && after == before,
        None => {
            let data = obj.data(after.heap);
            &&& is_flags_of(before.heap, f, data.original_flags)
            &&& RegExpHeapData::is_matcher(
                data.reg_exp_matcher,
                decode_lossy(p.units(before.heap)),
                data.original_flags,
            )
            &&& is_initialized(
                before,
                after,
                obj,
                p,
                data.original_flags,
                data.reg_exp_matcher,
                r,
            )
        },
    }
}

/// Whether a text is flag letters, none twice.
pub open spec fn is_flag_set(text: Seq<char>) -> bool {
    all_flag_letters(text) && text.no_duplicates()
}

/// Performs steps 14-23 of RegExpInitialize. `early_error` is what parsing the
/// pattern and flags reported.
pub fn reg_exp_initialize_parsed(
    agent: &mut Agent,
    obj: RegExp,
    p: JsString,
    f: Result<RegExpFlags, JsString>,
    early_error: Option<String>,
) -> (r: JsResult<RegExp>)
    requires
        old(agent).wf(),
        obj.valid(old(agent).heap),
        p.valid(old(agent).heap),
        f matches Err(s) ==> s.valid(old(agent).heap) && (early_error is None
            ==> is_flag_set(decode_lossy(s.units(old(agent).heap)))),
    ensures
        final(agent).wf(),
        is_initialize_result(
            *old(agent),
            *final(agent),
            obj,
            p,
            f,
            message_view(early_error),
            r,
        ),
{
    // 14. If parseResult is a non-empty List of SyntaxError objects, throw a
    //     SyntaxError exception.
    if let Some(message) = early_error {
        return Err(JsError::Exception { kind: ExceptionType::SyntaxError, message });
    }
    let flags: RegExpFlags = match f {
        Ok(flags) => flags,
        Err(s) => {
            let text: String = s.to_string_lossy(agent);
            match parse_flags(text.as_str()) {
                Some(flags) => flags,
                // The parser has seen flag letters only, none twice.
                None => {
                    assert(false);
                    RegExpFlags::empty()
                },
            }
        },
    };
    let source: String = p.to_string_lossy(agent);
    let matcher: Result<Matcher, String> = RegExpHeapData::compile_pattern(
        source.as_str(),
        flags,
    );
    reg_exp_initialize_compiled(agent, obj, p, flags, matcher)
}

/// Whether `r` is a result of RegExpInitialize with a pattern and flags that
/// are strings or known. Flags that hold anything but flag letters, that
/// repeat, or that combine `u` and `v` are a SyntaxError. Of other flags only
/// `u` and `v` matter to whether there is an early error.
pub open spec fn is_strings_result(
    before: Agent,
    after: Agent,
    obj: RegExp,
    p: JsString,
    f: Result<RegExpFlags, JsString>,
    r: JsResult<RegExp>,
) -> bool {
    let flags = flags_source(before.heap, f);
    let early_error = literal_early_error(
        decode_lossy(p.units(before.heap)),
        unless_empty(flags),
    );
    &&& is_initialize_result(before, after, obj, p, f, early_error, r)
    &&& !valid_flags_text(flags) ==> early_error is Some
    &&& flags.len() > 0 ==> depends_on_mode(
        decode_lossy(p.units(before.heap)),
        flags,
        early_error,
    )
}

/// Performs steps 5-23 of RegExpInitialize, once the pattern and the flags are
/// strings or known.
pub fn reg_exp_initialize_strings(
    agent: &mut Agent,
    obj: RegExp,
    p: JsString,
    f: Result<RegExpFlags, JsString>,
) -> (r: JsResult<RegExp>)
    requires
        old(agent).wf(),
        obj.valid(old(agent).heap),
        is_parsable(old(agent).heap, p),
        f matches Err(s) ==> is_parsable(old(agent).heap, s),
    ensures
        final(agent).wf(),
        is_strings_result(*old(agent), *final(agent), obj, p, f, r),
{
    let flags: String = match &f {
        Ok(flags) => flags.to_text(),
        Err(s) => s.to_string_lossy(agent),
    };
    let pattern: String = p.to_string_lossy(agent);
    proof {
        lemma_decode_length(p.units(agent.heap));
        match f {
            Ok(set) => lemma_encode_length(flags_text(set.bits)),
            Err(s) => lemma_decode_length(s.units(agent.heap)),
        }
    }
    // 13. Let parseResult be ParsePattern(patternText, u, v).
    let early_error: Option<String> = if flags.as_str().is_empty() {
        parse_literal(pattern.as_str(), None)
    } else {
        parse_literal(pattern.as_str(), Some(flags.as_str()))
    };
    reg_exp_initialize_parsed(agent, obj, p, f, early_error)
}

/// Whether RegExpInitialize went on with the step `step` once its pattern was
/// the string `p`.
pub open spec fn is_pattern_step(
    before: Agent,
    after: Agent,
    obj: RegExp,
    p: JsString,
    flags: Result<RegExpFlags, Value>,
    step: InitializeStep,
) -> bool {
    match flags {
        Ok(set) => step matches InitializeStep::Done(r) && is_strings_result(
            before,
            after,
            obj,
            p,
            Ok(set),
            r,
        ),
        Err(Value::Undefined) => step matches InitializeStep::Done(r) && is_strings_result(
            before,
            after,
            obj,
            p,
            Ok(RegExpFlags { bits: 0 }),
            r,
        ),
        Err(Value::String(s)) => step matches InitializeStep::Done(r) && is_strings_result(
            before,
            after,
            obj,
            p,
            Err(s),
            r,
        ),
        Err(value) => step == (InitializeStep::FlagsToString { obj, pattern: p, value }) && after
            == before,
    }
}

/// Whether RegExpInitialize began with the step `step`.
pub open spec fn is_initialize_start(
    before: Agent,
    after: Agent,
    obj: RegExp,
    pattern: Value,
    flags: Result<RegExpFlags, Value>,
    step: InitializeStep,
) -> bool {
    match pattern {
        Value::Undefined => is_pattern_step(
            before,
            after,
            obj,
            JsString { index: 0 },
            flags,
            step,
        ),
        Value::String(p) => is_pattern_step(before, after, obj, p, flags, step),
        value => step == (InitializeStep::PatternToString { obj, value, flags }) && after
            == before,
    }
}

/// Whether a value, if it is a string, is one that can be parsed.
pub open spec fn is_parsable_value(heap: Heap, value: Value) -> bool {
    value matches Value::String(s) ==> is_parsable(heap, s)
}

/// Goes on with RegExpInitialize where ToString(flags) has completed with `f`.
pub fn reg_exp_initialize_with_flags(
    agent: &mut Agent,
    obj: RegExp,
    p: JsString,
    f: JsResult<JsString>,
) -> (r: JsResult<RegExp>)
    requires
        old(agent).wf(),
        obj.valid(old(agent).heap),
        is_parsable(old(agent).heap, p),
        f matches Ok(s) ==> is_parsable(old(agent).heap, s),
    ensures
        final(agent).wf(),
        (match f {
            Ok(s) => is_strings_result(*old(agent), *final(agent), obj, p, Err(s), r),
            Err(e) => r == Err::<RegExp, JsError>(e) && *final(agent) == *old(agent),
        }),
{
    match f {
        Ok(s) => reg_exp_initialize_strings(agent, obj, p, Err(s)),
        Err(e) => Err(e),
    }
}

/// Goes on with RegExpInitialize where ToString(pattern) has completed with `p`.
pub fn reg_exp_initialize_with_pattern(
    agent: &mut Agent,
    obj: RegExp,
    p: JsResult<JsString>,
    flags: Result<RegExpFlags, Value>,
) -> (step: InitializeStep)
    requires
        old(agent).wf(),
        obj.valid(old(agent).heap),
        p matches Ok(s) ==> is_parsable(old(agent).heap, s),
        flags matches Err(value) ==> is_parsable_value(old(agent).heap, value),
    ensures
        final(agent).wf(),
        (match p {
            Ok(s) => is_pattern_step(*old(agent), *final(agent), obj, s, flags, step),
            Err(e) => step == InitializeStep::Done(Err(e)) && *final(agent) == *old(agent),
        }),
{
    let p: JsString = match p {
        Ok(p) => p,
        Err(e) => {
            return InitializeStep::Done(Err(e));
        },
    };
    let f: Result<RegExpFlags, JsString> = match flags {
        Ok(flags) => Ok(flags),
        // 3. If flags is undefined, let F be the empty String.
        Err(Value::Undefined) => Ok(RegExpFlags::empty()),
        Err(Value::String(f)) => Err(f),
        // 4. Else, let F be ? ToString(flags).
        Err(value) => {
            return InitializeStep::FlagsToString { obj, pattern: p, value };
        },
    };
    InitializeStep::Done(reg_exp_initialize_strings(agent, obj, p, f))
}

/// ### 22.2.3.3 RegExpInitialize ( obj, pattern, flags )
///
/// The abstract operation RegExpInitialize takes arguments obj (an Object),
/// pattern (an ECMAScript language value), and flags (an ECMAScript language
/// value) and returns either a normal completion containing an Object or a
/// throw completion.
pub fn reg_exp_initialize(
    agent: &mut Agent,
    obj: RegExp,
    pattern: Value,
    flags: Result<RegExpFlags, Value>,
) -> (step: InitializeStep)
    requires
        old(agent).wf(),
        obj.valid(old(agent).heap),
        is_parsable_value(old(agent).heap, pattern),
        flags matches Err(value) ==> is_parsable_value(old(agent).heap, value),
    ensures
        final(agent).wf(),
        is_initialize_start(*old(agent), *final(agent), obj, pattern, flags, step),
{
    let p: JsString = match pattern {
        // 1. If pattern is undefined, let P be the empty String.
        Value::Undefined => JsString::empty(),
        Value::String(p) => p,
        // 2. Else, let P be ? ToString(pattern).
        value => {
            return InitializeStep::PatternToString { obj, value, flags };
        },
    };
    reg_exp_initialize_with_pattern(agent, obj, Ok(p), flags)
}

/// Whether `after` is `before` with the regular expression `r` added, whose
/// data is `data` with a new backing object.
pub open spec fn regexp_created(
    before: Agent,
    after: Agent,
    r: RegExp,
    data: RegExpHeapData,
) -> bool {
    &&& r.index == before.heap.regexps@.len()
    &&& after.heap.regexps@.len() == before.heap.regexps@.len() + 1
    &&& extends(before.heap.regexps@, after.heap.regexps@)
    &&& r.data(after.heap) == (RegExpHeapData {
        object_index: r.data(after.heap).object_index,
        ..data
    })
    &&& r.data(after.heap).object_index matches Some(o)
    &&& o.index == before.heap.objects@.len()
    &&& after.heap.objects@.len() == before.heap.objects@.len() + 1
    &&& extends(before.heap.objects@, after.heap.objects@)
    &&& o.data(after.heap).prototype == Some(before.spec_realm().reg_exp_prototype)
    &&& properties_view(o.data(after.heap).properties@) == seq![
        data.last_index.initial_property(),
    ]
    &&& after.heap.strings == before.heap.strings
    &&& after.heap.arrays == before.heap.arrays
    &&& after.heap.embedder_objects == before.heap.embedder_objects
    &&& after.heap.weak_refs == before.heap.weak_refs
    &&& before.same_state(after)
}

/// Adds a regular expression to the heap and creates its backing object.
fn create_regexp(agent: &mut Agent, data: RegExpHeapData) -> (r: RegExp)
    requires
        old(agent).wf(),
        data.wf(old(agent).heap),
        data.object_index is None,
    ensures
        final(agent).wf(),
        regexp_created(*old(agent), *final(agent), r, data),
{
    let ghost before = agent.heap;
    let r: RegExp = RegExp { index: agent.heap.regexps.len() };
    agent.heap.regexps.push(data);
    proof {
        assert forall|i: int| 0 <= i < agent.heap.regexps@.len() implies (
        #[trigger] agent.heap.regexps@[i]).wf(agent.heap) by {
            if i < before.regexps@.len() {
                assert(before.regexps@[i].wf(before));
            }
        }
    }
    r.create_backing_object(agent);
    r
}

/// Whether `data` is that of a regular expression before it is initialized.
pub open spec fn is_uninitialized(data: RegExpHeapData) -> bool {
    &&& data.object_index is None
    &&& data.reg_exp_matcher matches Err(message)
    &&& message@.len() == 0
    &&& data.original_source.index == 0
    &&& data.original_flags.bits == 0
    &&& data.last_index.raw == u32::MAX
}

/// Whether `after` is `before` with an uninitialized regular expression added.
pub open spec fn is_allocated(before: Agent, after: Agent, r: RegExp) -> bool {
    exists|data: RegExpHeapData|
        is_uninitialized(data) && #[trigger] regexp_created(before, after, r, data)
}

/// ### 22.2.3.1 RegExpCreate ( P, F )
///
/// The abstract operation RegExpCreate takes arguments P (an ECMAScript
/// language value) and F (a String or undefined) and returns either a normal
/// completion containing an Object or a throw completion.
pub fn reg_exp_create(agent: &mut Agent, p: Value, f: Option<JsString>) -> (step: InitializeStep)
    requires
        old(agent).wf(),
        is_parsable_value(old(agent).heap, p),
        f matches Some(s) ==> is_parsable(old(agent).heap, s),
    ensures
        final(agent).wf(),
        exists|middle: Agent, obj: RegExp|
            #[trigger] is_allocated(*old(agent), middle, obj) && is_initialize_start(
                middle,
                *final(agent),
                obj,
                p,
                (match f {
                    Some(s) => Err(Value::String(s)),
                    None => Ok(RegExpFlags { bits: 0 }),
                }),
                step,
            ),
{
    let flags: Result<RegExpFlags, Value> = match f {
        Some(s) => Err(Value::String(s)),
        None => Ok(RegExpFlags::empty()),
    };
    // 1. Let obj be ! RegExpAlloc(%RegExp%).
    let data: RegExpHeapData = RegExpHeapData::default();
    let obj: RegExp = create_regexp(agent, data);
    let ghost middle = *agent;
    proof {
        assert(regexp_created(*old(agent), middle, obj, data));
        assert(is_allocated(*old(agent), middle, obj));
    }
    // 2. Return ? RegExpInitialize(obj, P, F).
    reg_exp_initialize(agent, obj, p, flags)
}

/// Whether `data` is that of a regular expression literal.
pub open spec fn is_literal(
    heap: Heap,
    data: RegExpHeapData,
    p: JsString,
    flags: RegExpFlags,
) -> bool {
    &&& data.object_index is None
    &&& RegExpHeapData::is_matcher(data.reg_exp_matcher, decode_lossy(p.units(heap)), flags)
    &&& data.original_source == p
    &&& data.original_flags == flags
    &&& data.last_index.raw == 0
}

/// ### 22.2.3.1 RegExpCreate ( P, F )
///
/// This is a variant for RegExp literal creation that cannot fail and skips
/// all of the abstract operation busy-work.
pub fn reg_exp_create_literal(agent: &mut Agent, p: JsString, f: Option<RegExpFlags>) -> (r: RegExp)
    requires
        old(agent).wf(),
        p.valid(old(agent).heap),
    ensures
        final(agent).wf(),
        exists|data: RegExpHeapData|
            is_literal(
                old(agent).heap,
                data,
                p,
                (match f {
                    Some(flags) => flags,
                    None => RegExpFlags { bits: 0 },
                }),
            ) && #[trigger] regexp_created(*old(agent), *final(agent), r, data),
{
    let flags: RegExpFlags = match f {
        Some(flags) => flags,
        None => RegExpFlags::empty(),
    };
    // 1. Let obj be ! RegExpAlloc(%RegExp%).
    // 2. Return ? RegExpInitialize(obj, P, F).
    let data: RegExpHeapData = RegExpHeapData::new(agent, p, flags);
    create_regexp(agent, data)
}

/// Whether two matchers are the same as far as it can be told.
pub open spec fn same_matcher(a: Result<Matcher, String>, b: Result<Matcher, String>) -> bool {
    match (a, b) {
        (Ok(m), Ok(n)) => {
            &&& m.regex() == n.regex()
            &&& m.pattern() == n.pattern()
            &&& m.flags() == n.flags()
        },
        (Err(m), Err(n)) => m@ == n@,
        _ => false,
    }
}

/// A regular expression that is initialized from a pattern and flags without
/// early errors is the same as the literal with that pattern and flags.
pub proof fn lemma_initialize_agrees_with_literal(
    before: Agent,
    after: Agent,
    obj: RegExp,
    p: JsString,
    flags: RegExpFlags,
    literal: RegExpHeapData,
)
    requires
        obj.valid(before.heap),
        is_initialize_result(before, after, obj, p, Ok(flags), None, Ok(obj)),
        is_literal(before.heap, literal, p, flags),
    ensures
        obj.data(after.heap).original_source == literal.original_source,
        obj.data(after.heap).original_flags == literal.original_flags,
        obj.data(after.heap).last_index == literal.last_index,
        same_matcher(obj.data(after.heap).reg_exp_matcher, literal.reg_exp_matcher),
{
}

/// Whether the same flags are given twice: as strings that are permutations of
/// each other, or as a set and the letters of that set in any order.
pub open spec fn same_flags(
    heap: Heap,
    a: Result<RegExpFlags, JsString>,
    b: Result<RegExpFlags, JsString>,
) -> bool {
    match (a, b) {
        (Ok(x), Ok(y)) => x == y,
        (Ok(x), Err(s)) => is_flag_set(decode_lossy(s.units(heap))) && flags_match_text(
            x.bits,
            decode_lossy(s.units(heap)),
        ),
        (Err(s), Ok(y)) => is_flag_set(decode_lossy(s.units(heap))) && flags_match_text(
            y.bits,
            decode_lossy(s.units(heap)),
        ),
        (Err(s), Err(t)) => s.units(heap).to_multiset() == t.units(heap).to_multiset(),
    }
}

/// Whether two completions are alike: with the same value, or with exceptions
/// of the same kind.
pub open spec fn alike(a: JsResult<RegExp>, b: JsResult<RegExp>) -> bool {
    match (a, b) {
        (Ok(x), Ok(y)) => x == y,
        (
            Err(JsError::Exception { kind: x, message: _ }),
            Err(JsError::Exception { kind: y, message: _ }),
        ) => x == y,
        _ => false,
    }
}

/// Neither the order of flags nor whether they are given as a string or as a
/// set matters: all fail alike, or all succeed with the same source and flags
/// and an equivalent matcher.
pub proof fn lemma_flag_order_does_not_matter(
    before: Agent,
    obj: RegExp,
    p: JsString,
    f1: Result<RegExpFlags, JsString>,
    f2: Result<RegExpFlags, JsString>,
    after1: Agent,
    after2: Agent,
    r1: JsResult<RegExp>,
    r2: JsResult<RegExp>,
)
    requires
        obj.valid(before.heap),
        same_flags(before.heap, f1, f2),
        is_strings_result(before, after1, obj, p, f1, r1),
        is_strings_result(before, after2, obj, p, f2, r2),
    ensures
        alike(r1, r2),
        obj.data(after1.heap).original_source == obj.data(after2.heap).original_source,
        obj.data(after1.heap).original_flags == obj.data(after2.heap).original_flags,
        obj.data(after1.heap).last_index == obj.data(after2.heap).last_index,
        same_matcher(
            obj.data(after1.heap).reg_exp_matcher,
            obj.data(after2.heap).reg_exp_matcher,
        ),
        r1 is Ok ==> is_flags_of(before.heap, f2, obj.data(after1.heap).original_flags),
{
    let heap = before.heap;
    let t1 = flags_source(heap, f1);
    let t2 = flags_source(heap, f2);
    match f1 {
        Ok(set) => lemma_flags_text_round_trip(set.bits),
        Err(_) => {},
    }
    match f2 {
        Ok(set) => lemma_flags_text_round_trip(set.bits),
        Err(_) => {},
    }
    match (f1, f2) {
        (Err(s), Err(t)) => {
            if is_flag_set(t1) {
                lemma_permuted_flags(s.units(heap), t.units(heap));
            } else if is_flag_set(t2) {
                lemma_permuted_flags(t.units(heap), s.units(heap));
            }
        },
        (Ok(x), Err(_)) => lemma_matching_texts(x.bits, t1, t2),
        (Err(_), Ok(y)) => lemma_matching_texts(y.bits, t1, t2),
        _ => {},
    }
    if is_flag_set(t1) {
        assert(is_flag_set(t2) && forall|c: char| #[trigger]
            t1.contains(c) <==> t2.contains(c));
        assert(t1.len() == 0 <==> t2.len() == 0) by {
            if t1.len() > 0 {
                assert(t1.contains(t1[0]));
                assert(t2.contains(t1[0]));
            }
            if t2.len() > 0 {
                assert(t2.contains(t2[0]));
                assert(t1.contains(t2[0]));
            }
        }
        assert(valid_flags_text(t1) <==> valid_flags_text(t2));
        let pattern = decode_lossy(p.units(heap));
        let e1 = literal_early_error(pattern, unless_empty(t1));
        let e2 = literal_early_error(pattern, unless_empty(t2));
        if valid_flags_text(t1) {
            assert(e1 == e2);
        }
        let flags1 = obj.data(after1.heap).original_flags;
        let flags2 = obj.data(after2.heap).original_flags;
        if e1 is None {
            assert(flags_match_text(flags1.bits, t1));
            assert(flags_match_text(flags2.bits, t2));
            assert(flags_match_text(flags2.bits, t1));
            lemma_flags_determined(flags1.bits, flags2.bits, t1);
        }
    }
}

/// Two texts of flag letters that match the same flags hold the same letters.
proof fn lemma_matching_texts(bits: u8, t1: Seq<char>, t2: Seq<char>)
    requires
        all_flag_letters(t1),
        all_flag_letters(t2),
        flags_match_text(bits, t1),
        flags_match_text(bits, t2),
    ensures
        forall|c: char| #[trigger] t1.contains(c) <==> t2.contains(c),
{
    assert forall|c: char| #[trigger] t1.contains(c) <==> t2.contains(c) by {
        if t1.contains(c) || t2.contains(c) {
            assert(is_flag_letter(c));
        }
    }
}

/// A permutation of a string of flag letters, none twice, is another one with
/// the same letters.
proof fn lemma_permuted_flags(u1: Seq<u16>, u2: Seq<u16>)
    requires
        u1.to_multiset() == u2.to_multiset(),
        is_flag_set(decode_lossy(u1)),
    ensures
        is_flag_set(decode_lossy(u2)),
        forall|c: char| #[trigger]
            decode_lossy(u1).contains(c) <==> decode_lossy(u2).contains(c),
{
    broadcast use vstd::seq_lib::group_to_multiset_ensures;

    let t1 = decode_lossy(u1);
    let t2 = decode_lossy(u2);
    lemma_flag_letters_are_plain(u1);
    lemma_decode_plain(u1);
    assert forall|i: int| 0 <= i < u2.len() implies u1.contains(#[trigger] u2[i]) by {
        assert(u2.contains(u2[i]));
        assert(u2.to_multiset().count(u2[i]) > 0);
    }
    assert forall|i: int| 0 <= i < u1.len() implies u2.contains(#[trigger] u1[i]) by {
        assert(u1.contains(u1[i]));
        assert(u1.to_multiset().count(u1[i]) > 0);
    }
    lemma_decode_plain(u2);
    assert(u1.no_duplicates()) by {
        assert forall|i: int, j: int| 0 <= i < u1.len() && 0 <= j < u1.len() && i
            != j implies u1[i] != u1[j] by {
            assert(t1[i] != t1[j]);
        }
    }
    u1.lemma_multiset_has_no_duplicates();
    u2.lemma_multiset_has_no_duplicates_conv();
    assert forall|c: char| #[trigger] t1.contains(c) <==> t2.contains(c) by {
        if t1.contains(c) {
            let i = choose|i: int| 0 <= i < t1.len() && t1[i] == c;
            assert(u2.contains(u1[i]));
            let j = choose|j: int| 0 <= j < u2.len() && u2[j] == u1[i];
            assert(t2[j] == c);
        }
        if t2.contains(c) {
            let i = choose|i: int| 0 <= i < t2.len() && t2[i] == c;
            assert(u1.contains(u2[i]));
            let j = choose|j: int| 0 <= j < u1.len() && u1[j] == u2[i];
            assert(t1[j] == c);
        }
    }
    assert forall|i: int| 0 <= i < t2.len() implies is_flag_letter(#[trigger] t2[i]) by {
        assert(t2.contains(t2[i]));
        assert(t1.contains(t2[i]));
    }
    assert forall|i: int, j: int| 0 <= i < t2.len() && 0 <= j < t2.len() && i != j implies t2[i]
        != t2[j] by {
        assert(u2[i] != u2[j]);
    }
}

/// A string whose text is flag letters has no surrogates.
proof fn lemma_flag_letters_are_plain(units: Seq<u16>)
    requires
        all_flag_letters(decode_lossy(units)),
    ensures
        forall|i: int| 0 <= i < units.len() ==> !is_surrogate(#[trigger] units[i]),
    decreases units.len(),
{
    if units.len() > 0 {
        let text = decode_lossy(units);
        assert(is_flag_letter(text[0]));
        if pair_at(units, 0) {
            lemma_encode_pair(units[0], units[1]);
            assert(text[0] == pair_value(units[0], units[1]) as char);
            assert(false);
        }
        let rest = units.skip(1);
        assert(text.skip(1) =~= decode_lossy(rest));
        assert forall|i: int| 0 <= i < decode_lossy(rest).len() implies is_flag_letter(
            #[trigger] decode_lossy(rest)[i],
        ) by {
            assert(is_flag_letter(text[i + 1]));
        }
        lemma_flag_letters_are_plain(rest);
        assert forall|i: int| 0 <= i < units.len() implies !is_surrogate(#[trigger] units[i]) by {
            if i > 0 {
                assert(units[i] == rest[i - 1]);
            }
        }
    }
}

/// The flags `g`, `y` and `d` do not matter when a pattern is compiled.
pub proof fn lemma_execution_flags_do_not_affect_compilation(
    source: Seq<char>,
    a: RegExpFlags,
    b: RegExpFlags,
    compiled_a: Result<Matcher, String>,
    compiled_b: Result<Matcher, String>,
)
    requires
        a.bits | (FLAG_G | FLAG_Y | FLAG_D) == b.bits | (FLAG_G | FLAG_Y | FLAG_D),
        RegExpHeapData::is_matcher(compiled_a, source, a),
        RegExpHeapData::is_matcher(compiled_b, source, b),
    ensures
        same_matcher(compiled_a, compiled_b),
{
    let x: u8 = a.bits;
    let y: u8 = b.bits;
    assert(x & 0x02 == y & 0x02 && x & 0x04 == y & 0x04 && x & 0x08 == y & 0x08 && x & 0x10 == y
        & 0x10 && x & 0x80 == y & 0x80 && x & (0x10u8 | 0x80u8) == y & (0x10u8 | 0x80u8))
        by (bit_vector)
        requires
            x | (0x01u8 | 0x20u8 | 0x40u8) == y | (0x01u8 | 0x20u8 | 0x40u8),
    ;
}

/// ### 22.2.3.2 RegExpAlloc ( newTarget )
///
/// The abstract operation RegExpAlloc takes argument newTarget (a constructor)
/// and returns either a normal completion containing an Object or a throw
/// completion. `created` is the completion of
/// OrdinaryCreateFromConstructor(newTarget, "%RegExp.prototype%").
pub fn reg_exp_alloc(created: JsResult<Object>) -> (r: JsResult<RegExp>)
    requires
        created matches Ok(o) ==> o is RegExp,
    ensures
        (match created {
            Ok(o) => o == Object::RegExp(r->Ok_0) && r is Ok,
            Err(e) => r == Err::<RegExp, JsError>(e),
        }),
{
    match created {
        Ok(Object::RegExp(obj)) => Ok(obj),
        Ok(_) => {
            assert(false);
            Ok(RegExp { index: 0 })
        },
        Err(e) => Err(e),
    }
}

/// Initializing sets the source, the flags and the matcher to what is given. If
/// "lastIndex" is writable it becomes 0, both where an index is stored and in the
/// backing object, and the regular expression is returned. If not, "lastIndex"
/// stays and a TypeError is thrown. No other regular expression changes.
pub proof fn lemma_initialized(
    before: Agent,
    after: Agent,
    obj: RegExp,
    p: JsString,
    flags: RegExpFlags,
    matcher: Result<Matcher, String>,
    r: JsResult<RegExp>,
)
    requires
        obj.index < before.heap.regexps@.len(),
        is_initialized(before, after, obj, p, flags, matcher, r),
    ensures
        ({
            let old_data = before.heap.regexps@[obj.index as int];
            let new_data = after.heap.regexps@[obj.index as int];
            &&& new_data.original_source == p
            &&& new_data.original_flags == flags
            &&& new_data.reg_exp_matcher == matcher
            &&& new_data.object_index == old_data.object_index
            &&& obj.last_index_writable(before.heap) ==> {
                &&& r == Ok::<RegExp, JsError>(obj)
                &&& new_data.last_index.raw == 0
                &&& obj.backing_last_index_set(before.heap, after.heap, Value::Integer(0))
            }
            &&& !obj.last_index_writable(before.heap) ==> {
                &&& r matches Err(JsError::Exception { kind: ExceptionType::TypeError, message })
                &&& message@ == "Could not set property 'lastIndex'."@
                &&& new_data.last_index == old_data.last_index
                &&& after.heap.objects == before.heap.objects
            }
        }),
        after.heap.regexps@.len() == before.heap.regexps@.len(),
        forall|i: int|
            0 <= i < before.heap.regexps@.len() && i != obj.index
                ==> #[trigger] after.heap.regexps@[i] == before.heap.regexps@[i],
        after.heap.strings == before.heap.strings,
        after.heap.arrays == before.heap.arrays,
        after.heap.embedder_objects == before.heap.embedder_objects,
        after.heap.weak_refs == before.heap.weak_refs,
        after.realms == before.realms,
        after.current_realm == before.current_realm,
        after.kept_alive == before.kept_alive,
{
}

/// Initializing from strings is a SyntaxError that changes nothing if and only
/// if the parser reports an early error for the text of the pattern and of the
/// flags, where it is given no flags if they are empty. The message is that of
/// the parser. Without an early error the flags are those whose letters are
/// given, and the matcher is compiled from the pattern with these flags.
pub proof fn lemma_initialized_from_strings(
    before: Agent,
    after: Agent,
    obj: RegExp,
    p: JsString,
    f: JsString,
    r: JsResult<RegExp>,
)
    requires
        is_strings_result(before, after, obj, p, Err(f), r),
    ensures
        ({
            let pattern = decode_lossy(code_units(before.heap.strings@[p.index as int]));
            let text = decode_lossy(code_units(before.heap.strings@[f.index as int]));
            let early_error = if text.len() == 0 {
                literal_early_error(pattern, None)
            } else {
                literal_early_error(pattern, Some(text))
            };
            let data = after.heap.regexps@[obj.index as int];
            let bits = data.original_flags.bits;
            &&& early_error matches Some(why) ==> {
                &&& r matches Err(JsError::Exception { kind: ExceptionType::SyntaxError, message })
                &&& message@ == why
                &&& after == before
            }
            &&& early_error is None ==> {
                &&& bits & 0x01 != 0 <==> text.contains('g')
                &&& bits & 0x02 != 0 <==> text.contains('i')
                &&& bits & 0x04 != 0 <==> text.contains('m')
                &&& bits & 0x08 != 0 <==> text.contains('s')
                &&& bits & 0x10 != 0 <==> text.contains('u')
                &&& bits & 0x20 != 0 <==> text.contains('y')
                &&& bits & 0x40 != 0 <==> text.contains('d')
                &&& bits & 0x80 != 0 <==> text.contains('v')
                &&& RegExpHeapData::is_matcher(data.reg_exp_matcher, pattern, data.original_flags)
                &&& is_initialized(
                    before,
                    after,
                    obj,
                    p,
                    data.original_flags,
                    data.reg_exp_matcher,
                    r,
                )
            }
        }),
{
}

/// Flags that hold anything but the eight letters, that hold one twice, or that
/// hold both `u` and `v`, are a SyntaxError, whatever the pattern.
pub proof fn lemma_invalid_flags_are_an_error(
    before: Agent,
    after: Agent,
    obj: RegExp,
    p: JsString,
    f: JsString,
    r: JsResult<RegExp>,
)
    requires
        is_strings_result(before, after, obj, p, Err(f), r),
        ({
            let text = decode_lossy(code_units(before.heap.strings@[f.index as int]));
            ||| exists|i: int|
                0 <= i < text.len() && {
                    let c = #[trigger] text[i];
                    c != 'd' && c != 'g' && c != 'i' && c != 'm' && c != 's' && c != 'u' && c != 'v'
                        && c != 'y'
                }
            ||| exists|i: int, j: int|
                0 <= i < j < text.len() && #[trigger] text[i] == #[trigger] text[j]
            ||| text.contains('u') && text.contains('v')
        }),
    ensures
        r matches Err(JsError::Exception { kind: ExceptionType::SyntaxError, message: _ }),
        after == before,
{
    lemma_valid_flags_text(decode_lossy(code_units(before.heap.strings@[f.index as int])));
}

/// Initializing from a pattern and a set of flags parses with the letters of the
/// set, none if it is empty. Without an early error the flags are the set.
pub proof fn lemma_initialized_from_set(
    before: Agent,
    after: Agent,
    obj: RegExp,
    p: JsString,
    set: RegExpFlags,
    r: JsResult<RegExp>,
)
    requires
        is_strings_result(before, after, obj, p, Ok(set), r),
    ensures
        ({
            let pattern = decode_lossy(code_units(before.heap.strings@[p.index as int]));
            let text = flags_text(set.bits);
            let early_error = if text.len() == 0 {
                literal_early_error(pattern, None)
            } else {
                literal_early_error(pattern, Some(text))
            };
            let data = after.heap.regexps@[obj.index as int];
            &&& early_error matches Some(why) ==> {
                &&& r matches Err(JsError::Exception { kind: ExceptionType::SyntaxError, message })
                &&& message@ == why
                &&& after == before
            }
            &&& early_error is None ==> {
                &&& data.original_flags == set
                &&& RegExpHeapData::is_matcher(data.reg_exp_matcher, pattern, set)
                &&& is_initialized(before, after, obj, p, set, data.reg_exp_matcher, r)
            }
        }),
{
}

/// Once the pattern is a string, flags that are a set or a string are used as
/// they are, undefined flags are none, and anything else is converted first,
/// with nothing changed meanwhile.
pub proof fn lemma_pattern_step(
    before: Agent,
    after: Agent,
    obj: RegExp,
    p: JsString,
    flags: Result<RegExpFlags, Value>,
    step: InitializeStep,
)
    requires
        is_pattern_step(before, after, obj, p, flags, step),
    ensures
        flags matches Ok(set) ==> {
            &&& step matches InitializeStep::Done(r)
            &&& is_strings_result(before, after, obj, p, Ok(set), r)
        },
        flags == Err::<RegExpFlags, Value>(Value::Undefined) ==> {
            &&& step matches InitializeStep::Done(r)
            &&& exists|none: RegExpFlags|
                none.bits == 0 && #[trigger] is_strings_result(before, after, obj, p, Ok(none), r)
        },
        flags matches Err(Value::String(s)) ==> {
            &&& step matches InitializeStep::Done(r)
            &&& is_strings_result(before, after, obj, p, Err(s), r)
        },
        flags matches Err(value) ==> value != Value::Undefined && !(value is String) ==> {
            &&& step == (InitializeStep::FlagsToString { obj, pattern: p, value })
            &&& after == before
        },
{
    if let InitializeStep::Done(r) = step {
        let none = RegExpFlags { bits: 0 };
        if flags == Err::<RegExpFlags, Value>(Value::Undefined) {
            assert(is_strings_result(before, after, obj, p, Ok(none), r));
        }
    }
}

/// A pattern that is a string is used as it is, an undefined pattern is the
/// empty string, and anything else is converted first, with nothing changed
/// meanwhile.
pub proof fn lemma_initialize_start(
    before: Agent,
    after: Agent,
    obj: RegExp,
    pattern: Value,
    flags: Result<RegExpFlags, Value>,
    step: InitializeStep,
)
    requires
        before.wf(),
        is_initialize_start(before, after, obj, pattern, flags, step),
    ensures
        pattern matches Value::String(p) ==> is_pattern_step(before, after, obj, p, flags, step),
        pattern == Value::Undefined ==> exists|p: JsString|
            p.index < before.heap.strings@.len() && code_units(
                before.heap.strings@[p.index as int],
            ).len() == 0 && #[trigger] is_pattern_step(before, after, obj, p, flags, step),
        !(pattern is String) && pattern != Value::Undefined ==> {
            &&& step == (InitializeStep::PatternToString { obj, value: pattern, flags })
            &&& after == before
        },
{
    if pattern == Value::Undefined {
        assert(is_pattern_step(before, after, obj, JsString { index: 0 }, flags, step));
    }
}

/// A created regular expression is put behind all others, with the given matcher,
/// source, flags and stored index. Its backing object is a new one, whose
/// prototype is that of regular expressions in the current realm, and whose one
/// property is "lastIndex". Nothing that there was changes.
pub proof fn lemma_regexp_created(before: Agent, after: Agent, r: RegExp, data: RegExpHeapData)
    requires
        regexp_created(before, after, r, data),
    ensures
        r.index == before.heap.regexps@.len(),
        after.heap.regexps@.len() == before.heap.regexps@.len() + 1,
        forall|i: int|
            0 <= i < before.heap.regexps@.len() ==> #[trigger] after.heap.regexps@[i]
                == before.heap.regexps@[i],
        ({
            let new_data = after.heap.regexps@[r.index as int];
            &&& new_data.reg_exp_matcher == data.reg_exp_matcher
            &&& new_data.original_source == data.original_source
            &&& new_data.original_flags == data.original_flags
            &&& new_data.last_index == data.last_index
            &&& new_data.object_index matches Some(o)
            &&& o.index == before.heap.objects@.len()
            &&& after.heap.objects@[o.index as int].prototype == Some(
                before.realms@[before.current_realm as int].reg_exp_prototype,
            )
            &&& ({
                let properties = after.heap.objects@[o.index as int].properties@;
                &&& properties.len() == 1
                &&& properties[0].key@ == "lastIndex"@
                &&& data.last_index.raw != 0xFFFF_FFFF ==> properties[0].value == Value::Integer(
                    data.last_index.raw as i64,
                )
                &&& data.last_index.raw == 0xFFFF_FFFF ==> properties[0].value == Value::Undefined
                &&& properties[0].writable
                &&& !properties[0].enumerable
                &&& !properties[0].configurable
            })
        }),
        after.heap.objects@.len() == before.heap.objects@.len() + 1,
        forall|i: int|
            0 <= i < before.heap.objects@.len() ==> #[trigger] after.heap.objects@[i]
                == before.heap.objects@[i],
        after.heap.strings == before.heap.strings,
        after.heap.arrays == before.heap.arrays,
        after.heap.embedder_objects == before.heap.embedder_objects,
        after.heap.weak_refs == before.heap.weak_refs,
        after.realms == before.realms,
        after.current_realm == before.current_realm,
        after.kept_alive == before.kept_alive,
{
    if let Some(o) = after.heap.regexps@[r.index as int].object_index {
        let properties = after.heap.objects@[o.index as int].properties@;
        assert(properties_view(properties).len() == 1);
        assert(properties_view(properties)[0] == properties[0]@);
    }
}

/// A regular expression that was allocated and not initialized has the empty
/// source and no flags, has no index stored, and never matches: executing it is
/// a SyntaxError with an empty message.
pub proof fn lemma_allocated(before: Agent, after: Agent, r: RegExp)
    requires
        is_allocated(before, after, r),
    ensures
        r.index == before.heap.regexps@.len(),
        r.index < after.heap.regexps@.len(),
        ({
            let data = after.heap.regexps@[r.index as int];
            &&& data.reg_exp_matcher matches Err(message)
            &&& message@ == Seq::<char>::empty()
            &&& data.original_source.index == 0
            &&& data.original_flags.bits == 0
            &&& data.last_index.raw == 0xFFFF_FFFF
        }),
{
    let data = choose|data: RegExpHeapData|
        is_uninitialized(data) && #[trigger] regexp_created(before, after, r, data);
    lemma_regexp_created(before, after, r, data);
}

/// A literal has the given source and flags, the matcher that is compiled from
/// them, and the index 0.
pub proof fn lemma_literal(heap: Heap, data: RegExpHeapData, p: JsString, flags: RegExpFlags)
    requires
        is_literal(heap, data, p, flags),
    ensures
        data.original_source == p,
        data.original_flags == flags,
        data.last_index.raw == 0,
        data.object_index is None,
        RegExpHeapData::is_matcher(
            data.reg_exp_matcher,
            decode_lossy(code_units(heap.strings@[p.index as int])),
            flags,
        ),
{
}

} // verus!
