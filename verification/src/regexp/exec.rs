//! Executing regular expressions.
//!
//! Getting properties, calling functions and converting values can run code of
//! the program. Where an operation needs one of these, it stops and says so in
//! its result; the caller does the work and hands the completion to the
//! function that goes on from there.

use vstd::prelude::*;

use crate::heap::{
    data_property, extends, find_property, lemma_property_of, properties_view, Agent, Heap,
};
use crate::regexp::data::RegExpHeapData;
use crate::regexp::flags::{lemma_full_unicode, RegExpFlags, FLAG_D, FLAG_G, FLAG_Y};
use crate::regexp::initialize::require_internal_slot_reg_exp_object;
use crate::regexp::last_index::{last_index_of, RegExpLastIndex};
use crate::regexp::match_result::{
    is_match_result, lemma_match_result_elements, lemma_match_result_properties,
    make_match_result,
};
use crate::regexp::matcher::{
    lemma_find_is_what_the_engine_finds, match_in_range, match_view, regress_compile_unoptimized,
    regress_find_ucs2, regress_find_utf16, MatchModel, MatchRecord, Matcher,
};
use crate::utf16::{lemma_encode_pair, pair_at, splits_pair};
use crate::values::{
    is_callable, throws, Array, ExceptionType, Function, JsError, JsResult, JsString, Object,
    RegExp, Value,
};
use crate::wtf8_buf::code_units;

verus! {

/// What is known before a search begins.
#[derive(Debug, Clone, Copy, PartialEq, Eq, Structural)]
pub struct RegExpExecBase {
    pub r: RegExp,
    pub s: JsString,
    /// Where the search begins, in code units.
    pub last_index: usize,
    pub global: bool,
    pub sticky: bool,
    pub has_indices: bool,
    pub full_unicode: bool,
}

/// The search that `last_index` and the flags of `r` ask for. Only global and
/// sticky searches heed `last_index`.
pub open spec fn exec_base(heap: Heap, r: RegExp, s: JsString, last_index: usize) -> RegExpExecBase {
    let flags = r.data(heap).original_flags;
    let global = flags.bits & FLAG_G != 0;
    let sticky = flags.bits & FLAG_Y != 0;
    RegExpExecBase {
        r,
        s,
        last_index: if global || sticky {
            last_index
        } else {
            0
        },
        global,
        sticky,
        has_indices: flags.bits & FLAG_D != 0,
        full_unicode: flags.spec_full_unicode(),
    }
}

/// What an operation on a regular expression needs next.
#[derive(Debug)]
pub enum ExecStep<T> {
    /// Call `function` on `this` with the one argument, then go on from the result.
    Call { function: Function, this: Object, argument: JsString },
    /// Convert `value` with ToLength, then go on with that index.
    ToLength { r: RegExp, s: JsString, value: Value },
    /// Nothing: the operation has completed.
    Done(JsResult<T>),
}

/// What RegExpExec does with an object, given its "exec" property.
pub enum ExecTarget {
    /// Execute the regular expression.
    Builtin(RegExp),
    /// Call a function.
    Call(Function),
    /// Throw, for the object is not a regular expression.
    NotRegExp,
}

/// What RegExpExec does with `r`, given its "exec" property.
pub open spec fn exec_target(agent: Agent, r: Object, exec_property: Value) -> ExecTarget {
    match (r, exec_property) {
        (Object::RegExp(regexp), Value::Object(Object::Function(f))) if f
            == agent.spec_realm().reg_exp_prototype_exec => ExecTarget::Builtin(regexp),
        (_, Value::Object(Object::Function(f))) => ExecTarget::Call(f),
        (Object::RegExp(regexp), _) => ExecTarget::Builtin(regexp),
        _ => ExecTarget::NotRegExp,
    }
}

/// The outcome of the first steps of RegExpExec.
#[derive(Debug)]
pub enum ExecPrepare {
    Continue(RegExp, JsString),
    Call { function: Function, this: Object, argument: JsString },
    Break(JsError),
}

/// Performs steps 1-3 of RegExpExec, up to the call of a function. `exec_property`
/// is the completion of Get(R, "exec").
pub fn reg_exp_exec_prepare(
    agent: &Agent,
    r: Object,
    s: JsString,
    exec_property: JsResult<Value>,
) -> (step: ExecPrepare)
    requires
        agent.wf(),
    ensures
        (match exec_property {
            Err(e) => step == ExecPrepare::Break(e),
            Ok(exec_property) => match exec_target(*agent, r, exec_property) {
                ExecTarget::Builtin(regexp) => step == ExecPrepare::Continue(regexp, s),
                ExecTarget::Call(f) => step == (ExecPrepare::Call {
                    function: f,
                    this: r,
                    argument: s,
                }),
                ExecTarget::NotRegExp => step matches ExecPrepare::Break(e) && throws(
                    Err::<RegExp, JsError>(e),
                    ExceptionType::TypeError,
                    "Expected this to be RegExp"@,
                ),
            },
        }),
{
    // 1. Let exec be ? Get(R, "exec").
    let exec_property: Value = match exec_property {
        Ok(value) => value,
        Err(e) => {
            return ExecPrepare::Break(e);
        },
    };
    // Fast path: native RegExp object and intrinsic exec function.
    if let Object::RegExp(regexp) = r {
        if exec_property == Value::Object(
            Object::Function(agent.current_realm_record().reg_exp_prototype_exec),
        ) {
            return ExecPrepare::Continue(regexp, s);
        }
    }
    // 2. If IsCallable(exec) is true, then
    if let Some(function) = is_callable(exec_property) {
        // a. Let result be ? Call(exec, R, « S »).
        return ExecPrepare::Call { function, this: r, argument: s };
    }
    // 3. Perform ? RequireInternalSlot(R, [[RegExpMatcher]]).
    match require_internal_slot_reg_exp_object(r) {
        Ok(regexp) => ExecPrepare::Continue(regexp, s),
        Err(e) => ExecPrepare::Break(e),
    }
}

/// Whether `r` is what RegExpExec makes of the completion of a called "exec"
/// function.
pub open spec fn is_call_result(
    result: JsResult<Value>,
    r: JsResult<Option<Object>>,
) -> bool {
    match result {
        Err(e) => r == Err::<Option<Object>, JsError>(e),
        Ok(Value::Object(o)) => r == Ok::<Option<Object>, JsError>(Some(o)),
        Ok(Value::Null) => r == Ok::<Option<Object>, JsError>(None),
        Ok(_) => throws(
            r,
            ExceptionType::TypeError,
            "'exec' function result was not object or null"@,
        ),
    }
}

/// Performs steps 2.b and 2.c of RegExpExec. `result` is the completion of the
/// called function.
pub fn reg_exp_exec_call_result(result: JsResult<Value>) -> (r: JsResult<Option<Object>>)
    ensures
        is_call_result(result, r),
{
    match result {
        Err(e) => Err(e),
        // b. If result is not an Object and result is not null, throw a TypeError exception.
        // c. Return result.
        Ok(Value::Object(o)) => Ok(Some(o)),
        Ok(Value::Null) => Ok(None),
        Ok(_) => Err(
            JsError::Exception {
                kind: ExceptionType::TypeError,
                message: "'exec' function result was not object or null".to_owned(),
            },
        ),
    }
}

/// The same steps where only whether there was a match matters.
pub fn reg_exp_test_call_result(result: JsResult<Value>) -> (r: JsResult<bool>)
    ensures
        (match result {
            Err(e) => r == Err::<bool, JsError>(e),
            Ok(Value::Object(_)) => r == Ok::<bool, JsError>(true),
            Ok(Value::Null) => r == Ok::<bool, JsError>(false),
            Ok(_) => throws(
                r,
                ExceptionType::TypeError,
                "'exec' function result was not object or null"@,
            ),
        }),
{
    match reg_exp_exec_call_result(result) {
        Ok(o) => Ok(o.is_some()),
        Err(e) => Err(e),
    }
}

impl RegExp {
    /// The value of the "lastIndex" property where no index is stored.
    pub open spec fn last_index_property(self, heap: Heap) -> Value {
        match self.backing_last_index(heap) {
            Some(property) => property.value,
            None => Value::Undefined,
        }
    }

    /// Gets the "lastIndex" property where no index is stored.
    ///
    /// The property is an unconfigurable data property: getting it never runs
    /// any code.
    pub fn get_last_index_property(self, agent: &Agent) -> (r: Value)
        requires
            agent.wf(),
            self.valid(agent.heap),
        ensures
            r == self.last_index_property(agent.heap),
    {
        match agent.heap.regexps[self.index].object_index {
            Some(backing_object) => {
                assert(self.data(agent.heap).wf(agent.heap));
                let properties = &agent.heap.objects[backing_object.index].properties;
                match find_property(properties, &"lastIndex".to_owned()) {
                    Some(i) => properties[i].value,
                    None => Value::Undefined,
                }
            },
            None => Value::Undefined,
        }
    }
}

/// What RegExpBuiltinExec needs to know its lastIndex.
#[derive(Debug, Clone, Copy, PartialEq, Eq, Structural)]
pub enum LastIndexStep {
    /// Nothing: this is the index.
    Known(usize),
    /// Convert the value with ToLength.
    ToLength(Value),
}

impl RegExp {
    /// What it takes to know the lastIndex: nothing where an index is stored,
    /// else a conversion of the "lastIndex" property.
    pub open spec fn spec_last_index_step(self, heap: Heap) -> LastIndexStep {
        match self.data(heap).last_index.spec_get_value() {
            Some(i) => LastIndexStep::Known(i as usize),
            None => LastIndexStep::ToLength(self.last_index_property(heap)),
        }
    }

    /// Performs step 2 of RegExpBuiltinExec, up to the conversion of a value.
    pub fn last_index_step(self, agent: &Agent) -> (r: LastIndexStep)
        requires
            agent.wf(),
            self.valid(agent.heap),
        ensures
            r == self.spec_last_index_step(agent.heap),
    {
        // 2. Let lastIndex be ℝ(? ToLength(? Get(R, "lastIndex"))).
        match self.try_get_last_index(agent) {
            Some(last_index) => LastIndexStep::Known(last_index as usize),
            None => LastIndexStep::ToLength(self.get_last_index_property(agent)),
        }
    }
}

/// Performs steps 3-9 of RegExpBuiltinExec. `last_index` is the completion of
/// ToLength(Get(R, "lastIndex")).
pub fn reg_exp_builtin_exec_prepare(
    agent: &Agent,
    r: RegExp,
    s: JsString,
    last_index: JsResult<usize>,
) -> (base: JsResult<RegExpExecBase>)
    requires
        r.valid(agent.heap),
    ensures
        (match last_index {
            Err(e) => base == Err::<RegExpExecBase, JsError>(e),
            Ok(last_index) => match r.data(agent.heap).reg_exp_matcher {
                Err(message) => throws(base, ExceptionType::SyntaxError, message@),
                Ok(_) => base == Ok::<RegExpExecBase, JsError>(
                    exec_base(agent.heap, r, s, last_index),
                ),
            },
        }),
{
    let mut last_index: usize = match last_index {
        Ok(last_index) => last_index,
        Err(e) => {
            return Err(e);
        },
    };
    // 3. Let flags be R.[[OriginalFlags]].
    let flags: RegExpFlags = r.original_flags(agent);
    // 4. If flags contains "g", let global be true; else let global be false.
    let global: bool = flags.has(FLAG_G);
    // 5. If flags contains "y", let sticky be true; else let sticky be false.
    let sticky: bool = flags.has(FLAG_Y);
    // 6. If flags contains "d", let hasIndices be true; else let hasIndices be false.
    let has_indices: bool = flags.has(FLAG_D);
    // 7. If global is false and sticky is false, set lastIndex to 0.
    if !global && !sticky {
        last_index = 0;
    }
    // 8. Let matcher be R.[[RegExpMatcher]].
    if let Err(message) = &agent.heap.regexps[r.index].reg_exp_matcher {
        return Err(
            JsError::Exception { kind: ExceptionType::SyntaxError, message: message.clone() },
        );
    }
    // 9. If flags contains "u" or flags contains "v", let fullUnicode be true;
    //    else let fullUnicode be false.
    let full_unicode: bool = flags.full_unicode();
    Ok(RegExpExecBase { r, s, last_index, global, sticky, has_indices, full_unicode })
}

/// The match that counts: a sticky match must begin exactly at lastIndex.
pub open spec fn accepted(base: RegExpExecBase, found: Option<MatchModel>) -> Option<MatchModel> {
    match found {
        Some(m) => if base.sticky && m.start != base.last_index {
            None
        } else {
            Some(m)
        },
        None => None,
    }
}

/// What RegExpBuiltinExec leaves as the stored index: where the match ended or
/// 0 if there was none. Only global and sticky searches change it.
pub open spec fn exec_last_index(
    base: RegExpExecBase,
    found: Option<MatchModel>,
    stored: RegExpLastIndex,
) -> RegExpLastIndex {
    if base.global || base.sticky {
        match accepted(base, found) {
            Some(m) => last_index_of(m.end as int),
            None => last_index_of(0),
        }
    } else {
        stored
    }
}

/// What a test leaves as the stored index: where the match ended, or 0 if
/// there was none or the search is neither global nor sticky.
pub open spec fn test_last_index(base: RegExpExecBase, found: Option<MatchModel>) -> RegExpLastIndex {
    match accepted(base, found) {
        Some(m) if base.global || base.sticky => last_index_of(m.end as int),
        _ => last_index_of(0),
    }
}

impl RegExp {
    /// Whether `after` is `before` with another stored index and maybe further
    /// strings, objects and arrays.
    pub open spec fn last_index_stored_and_grown(
        self,
        before: Agent,
        after: Agent,
        last_index: RegExpLastIndex,
    ) -> bool {
        &&& after.heap.regexps@ == before.heap.regexps@.update(
            self.index as int,
            RegExpHeapData { last_index, ..self.data(before.heap) },
        )
        &&& extends(before.heap.strings@, after.heap.strings@)
        &&& extends(before.heap.objects@, after.heap.objects@)
        &&& extends(before.heap.arrays@, after.heap.arrays@)
        &&& after.heap.embedder_objects == before.heap.embedder_objects
        &&& after.heap.weak_refs == before.heap.weak_refs
        &&& before.same_state(after)
    }
}

/// Whether the search for `base` had the outcome `r`, given what was found.
pub open spec fn is_exec_outcome(
    before: Agent,
    after: Agent,
    base: RegExpExecBase,
    found: Option<MatchModel>,
    r: Option<Object>,
) -> bool {
    let last_index = exec_last_index(base, found, base.r.data(before.heap).last_index);
    match accepted(base, found) {
        Some(m) => {
            &&& r matches Some(Object::Array(a))
            &&& a.index >= before.heap.arrays@.len()
            &&& is_match_result(
                after.heap,
                a,
                base.s,
                base.s.units(before.heap),
                m,
                base.has_indices,
            )
            &&& base.r.last_index_stored_and_grown(before, after, last_index)
        },
        None => {
            &&& r is None
            &&& base.r.last_index_stored(before, after, last_index)
        },
    }
}

/// An array as an object.
pub open spec fn array_object(a: Option<Array>) -> Option<Object> {
    match a {
        Some(a) => Some(Object::Array(a)),
        None => None,
    }
}

/// Performs the steps of RegExpBuiltinExec that follow the search for `base`,
/// which found `found` in the code units `units` of the string.
pub fn reg_exp_builtin_exec_found(
    agent: &mut Agent,
    base: RegExpExecBase,
    units: &[u16],
    found: Option<MatchRecord>,
) -> (r: Option<Array>)
    requires
        old(agent).wf(),
        base.r.valid(old(agent).heap),
        base.s.valid(old(agent).heap),
        base.s.units(old(agent).heap) == units@,
        found matches Some(m) ==> match_in_range(m@, units@.len()),
    ensures
        final(agent).wf(),
        is_exec_outcome(*old(agent), *final(agent), base, match_view(found), array_object(r)),
{
    let m: MatchRecord = match found {
        Some(m) => m,
        // 13.d. If r is failure, then reset (if g/y) and return null.
        None => {
            if base.global || base.sticky {
                base.r.store_last_index(agent, RegExpLastIndex::zero());
            } else {
                assert(agent.heap.regexps@ =~= old(agent).heap.regexps@.update(
                    base.r.index as int,
                    base.r.data(old(agent).heap),
                ));
            }
            return None;
        },
    };
    // The matcher has no native sticky flag: a sticky match must begin exactly
    // at lastIndex.
    if base.sticky && m.start != base.last_index {
        base.r.store_last_index(agent, RegExpLastIndex::zero());
        return None;
    }
    // 16. If global is true or sticky is true, set lastIndex to e.
    if base.global || base.sticky {
        base.r.store_last_index(agent, RegExpLastIndex::from(m.end));
    } else {
        assert(agent.heap.regexps@ =~= old(agent).heap.regexps@.update(
            base.r.index as int,
            base.r.data(old(agent).heap),
        ));
    }
    let a: Array = make_match_result(agent, base.s, units, &m, base.has_indices);
    // 36. Return A.
    Some(a)
}

/// Performs the steps of a test that follow the search for `base`, which found
/// `found`.
pub fn reg_exp_builtin_test_found(
    agent: &mut Agent,
    base: RegExpExecBase,
    found: Option<MatchRecord>,
) -> (r: bool)
    requires
        old(agent).wf(),
        base.r.valid(old(agent).heap),
    ensures
        final(agent).wf(),
        r == (accepted(base, match_view(found)) is Some),
        base.r.last_index_stored(
            *old(agent),
            *final(agent),
            test_last_index(base, match_view(found)),
        ),
{
    // Global and sticky observe the match position via lastIndex; non-global
    // non-sticky always resets lastIndex to 0.
    match found {
        Some(m) => {
            if base.sticky && m.start != base.last_index {
                base.r.store_last_index(agent, RegExpLastIndex::zero());
                false
            } else {
                let last_index: RegExpLastIndex = if base.global || base.sticky {
                    RegExpLastIndex::from(m.end)
                } else {
                    RegExpLastIndex::zero()
                };
                base.r.store_last_index(agent, last_index);
                true
            }
        },
        None => {
            base.r.store_last_index(agent, RegExpLastIndex::zero());
            false
        },
    }
}

/// What the matcher finds for `base`. Nothing is found beyond the end.
pub open spec fn exec_found(
    heap: Heap,
    matcher: Matcher,
    base: RegExpExecBase,
) -> Option<MatchModel> {
    let units = base.s.units(heap);
    if base.last_index > units.len() {
        None
    } else {
        matcher.spec_find(units, base.last_index, base.full_unicode)
    }
}

/// Runs the matcher for `base` on the code units of its string.
fn run_matcher(agent: &Agent, base: RegExpExecBase, units: &[u16]) -> (found: Option<MatchRecord>)
    requires
        base.r.valid(agent.heap),
        base.s.units(agent.heap) == units@,
        base.r.data(agent.heap).reg_exp_matcher is Ok,
    ensures
        base.r.data(agent.heap).reg_exp_matcher matches Ok(matcher) && match_view(found)
            == exec_found(agent.heap, matcher, base),
        found matches Some(m) ==> base.last_index <= m.start && match_in_range(m@, units@.len()),
{
    // 13.a. If lastIndex > length, then
    if base.last_index > units.len() {
        return None;
    }
    // 13.c. Let r be matcher(input, lastIndex).
    match &agent.heap.regexps[base.r.index].reg_exp_matcher {
        Ok(matcher) => matcher.find(units, base.last_index, base.full_unicode),
        Err(_) => None,
    }
}

/// Whether `r` is a result of RegExpBuiltinExec. Where it is a match, that
/// lies within the string and not before the index that was asked for.
pub open spec fn is_exec_result(
    before: Agent,
    after: Agent,
    r: RegExp,
    s: JsString,
    last_index: JsResult<usize>,
    result: JsResult<Option<Object>>,
) -> bool {
    match (last_index, r.data(before.heap).reg_exp_matcher) {
        (Err(e), _) => result == Err::<Option<Object>, JsError>(e) && after == before,
        (Ok(_), Err(message)) => throws(result, ExceptionType::SyntaxError, message@) && after
            == before,
        (Ok(last_index), Ok(matcher)) => {
            let base = exec_base(before.heap, r, s, last_index);
            let found = exec_found(before.heap, matcher, base);
            &&& result matches Ok(o)
            &&& is_exec_outcome(before, after, base, found, o)
            &&& (found matches Some(m) ==> base.last_index <= m.start && match_in_range(
                m,
                s.units(before.heap).len(),
            ))
        },
    }
}

/// The array of a completion as an object.
pub open spec fn array_objects(r: JsResult<Option<Array>>) -> JsResult<Option<Object>> {
    match r {
        Ok(a) => Ok(array_object(a)),
        Err(e) => Err(e),
    }
}

/// ### 22.2.7.2 RegExpBuiltinExec ( R, S )
///
/// The abstract operation RegExpBuiltinExec takes arguments R (an initialized
/// RegExp instance) and S (a String) and returns either a normal completion
/// containing either an Array exotic object or null, or a throw completion.
/// `last_index` is the completion of ToLength(Get(R, "lastIndex")).
pub fn reg_exp_builtin_exec(
    agent: &mut Agent,
    r: RegExp,
    s: JsString,
    last_index: JsResult<usize>,
) -> (result: JsResult<Option<Array>>)
    requires
        old(agent).wf(),
        r.valid(old(agent).heap),
        s.valid(old(agent).heap),
    ensures
        final(agent).wf(),
        is_exec_result(*old(agent), *final(agent), r, s, last_index, array_objects(result)),
{
    let base: RegExpExecBase = match reg_exp_builtin_exec_prepare(agent, r, s, last_index) {
        Ok(base) => base,
        Err(e) => {
            return Err(e);
        },
    };
    // Feed the matcher the string as UTF-16 code units; it reports matches as
    // code-unit ranges.
    let units: Vec<u16> = s.to_units(agent);
    let found: Option<MatchRecord> = run_matcher(agent, base, units.as_slice());
    Ok(reg_exp_builtin_exec_found(agent, base, units.as_slice(), found))
}

/// Whether `r` is a result of testing for a match.
pub open spec fn is_test_result(
    before: Agent,
    after: Agent,
    r: RegExp,
    s: JsString,
    last_index: JsResult<usize>,
    result: JsResult<bool>,
) -> bool {
    match (last_index, r.data(before.heap).reg_exp_matcher) {
        (Err(e), _) => result == Err::<bool, JsError>(e) && after == before,
        (Ok(_), Err(message)) => throws(result, ExceptionType::SyntaxError, message@) && after
            == before,
        (Ok(last_index), Ok(matcher)) => {
            let base = exec_base(before.heap, r, s, last_index);
            let found = exec_found(before.heap, matcher, base);
            &&& result == Ok::<bool, JsError>(accepted(base, found) is Some)
            &&& r.last_index_stored(before, after, test_last_index(base, found))
        },
    }
}

/// RegExpBuiltinExec where only whether there is a match matters.
pub fn reg_exp_builtin_test(
    agent: &mut Agent,
    r: RegExp,
    s: JsString,
    last_index: JsResult<usize>,
) -> (result: JsResult<bool>)
    requires
        old(agent).wf(),
        r.valid(old(agent).heap),
        s.valid(old(agent).heap),
    ensures
        final(agent).wf(),
        is_test_result(*old(agent), *final(agent), r, s, last_index, result),
{
    let base: RegExpExecBase = match reg_exp_builtin_exec_prepare(agent, r, s, last_index) {
        Ok(base) => base,
        Err(e) => {
            return Err(e);
        },
    };
    let units: Vec<u16> = s.to_units(agent);
    let found: Option<MatchRecord> = run_matcher(agent, base, units.as_slice());
    Ok(reg_exp_builtin_test_found(agent, base, found))
}

/// Whether executing `r` from a known index took the step `step`.
pub open spec fn is_exec_step(
    before: Agent,
    after: Agent,
    r: RegExp,
    s: JsString,
    last_index: JsResult<usize>,
    step: ExecStep<Option<Object>>,
) -> bool {
    step matches ExecStep::Done(result) && is_exec_result(before, after, r, s, last_index, result)
}

/// Whether executing `r` began with the step `step`. Where no index is stored,
/// the "lastIndex" property is converted first.
pub open spec fn is_exec_start(
    before: Agent,
    after: Agent,
    r: RegExp,
    s: JsString,
    step: ExecStep<Option<Object>>,
) -> bool {
    match r.spec_last_index_step(before.heap) {
        LastIndexStep::Known(i) => is_exec_step(before, after, r, s, Ok(i), step),
        LastIndexStep::ToLength(value) => {
            &&& step == (ExecStep::<Option<Object>>::ToLength { r, s, value })
            &&& after == before
        },
    }
}

/// Goes on with RegExpExec where ToLength has completed with `last_index`.
pub fn reg_exp_exec_with_length(
    agent: &mut Agent,
    r: RegExp,
    s: JsString,
    last_index: JsResult<usize>,
) -> (step: ExecStep<Option<Object>>)
    requires
        old(agent).wf(),
        r.valid(old(agent).heap),
        s.valid(old(agent).heap),
    ensures
        final(agent).wf(),
        is_exec_step(*old(agent), *final(agent), r, s, last_index, step),
{
    match reg_exp_builtin_exec(agent, r, s, last_index) {
        Ok(Some(a)) => ExecStep::Done(Ok(Some(Object::Array(a)))),
        Ok(None) => ExecStep::Done(Ok(None)),
        Err(e) => ExecStep::Done(Err(e)),
    }
}

/// ### 22.2.7.1 RegExpExec ( R, S )
///
/// The abstract operation RegExpExec takes arguments R (an Object) and S (a
/// String) and returns either a normal completion containing either an Object
/// or null, or a throw completion. `exec_property` is the completion of
/// Get(R, "exec").
///
/// > NOTE: If a callable "exec" property is not found this algorithm falls
/// > back to attempting to use the built-in RegExp matching algorithm.
pub fn reg_exp_exec(
    agent: &mut Agent,
    r: Object,
    s: JsString,
    exec_property: JsResult<Value>,
) -> (step: ExecStep<Option<Object>>)
    requires
        old(agent).wf(),
        r matches Object::RegExp(regexp) ==> regexp.valid(old(agent).heap),
        s.valid(old(agent).heap),
    ensures
        final(agent).wf(),
        (match exec_property {
            Err(e) => step == ExecStep::<Option<Object>>::Done(Err(e)) && *final(agent) == *old(
                agent,
            ),
            Ok(value) => match exec_target(*old(agent), r, value) {
                ExecTarget::Builtin(regexp) => is_exec_start(
                    *old(agent),
                    *final(agent),
                    regexp,
                    s,
                    step,
                ),
                ExecTarget::Call(function) => {
                    &&& step == (ExecStep::<Option<Object>>::Call {
                        function,
                        this: r,
                        argument: s,
                    })
                    &&& *final(agent) == *old(agent)
                },
                ExecTarget::NotRegExp => {
                    &&& step matches ExecStep::Done(result)
                    &&& throws(result, ExceptionType::TypeError, "Expected this to be RegExp"@)
                    &&& *final(agent) == *old(agent)
                },
            },
        }),
{
    match reg_exp_exec_prepare(agent, r, s, exec_property) {
        // 4. Return ? RegExpBuiltinExec(R, S).
        ExecPrepare::Continue(r, s) => match r.last_index_step(agent) {
            LastIndexStep::Known(last_index) => reg_exp_exec_with_length(
                agent,
                r,
                s,
                Ok(last_index),
            ),
            LastIndexStep::ToLength(value) => ExecStep::ToLength { r, s, value },
        },
        ExecPrepare::Call { function, this, argument } => ExecStep::Call {
            function,
            this,
            argument,
        },
        ExecPrepare::Break(e) => ExecStep::Done(Err(e)),
    }
}

/// Whether testing with `r` from a known index took the step `step`.
pub open spec fn is_test_step(
    before: Agent,
    after: Agent,
    r: RegExp,
    s: JsString,
    last_index: JsResult<usize>,
    step: ExecStep<bool>,
) -> bool {
    step matches ExecStep::Done(result) && is_test_result(before, after, r, s, last_index, result)
}

/// Whether testing with `r` began with the step `step`.
pub open spec fn is_test_start(
    before: Agent,
    after: Agent,
    r: RegExp,
    s: JsString,
    step: ExecStep<bool>,
) -> bool {
    match r.spec_last_index_step(before.heap) {
        LastIndexStep::Known(i) => is_test_step(before, after, r, s, Ok(i), step),
        LastIndexStep::ToLength(value) => {
            &&& step == (ExecStep::<bool>::ToLength { r, s, value })
            &&& after == before
        },
    }
}

/// Goes on with a test where ToLength has completed with `last_index`.
pub fn reg_exp_test_with_length(
    agent: &mut Agent,
    r: RegExp,
    s: JsString,
    last_index: JsResult<usize>,
) -> (step: ExecStep<bool>)
    requires
        old(agent).wf(),
        r.valid(old(agent).heap),
        s.valid(old(agent).heap),
    ensures
        final(agent).wf(),
        is_test_step(*old(agent), *final(agent), r, s, last_index, step),
{
    ExecStep::Done(reg_exp_builtin_test(agent, r, s, last_index))
}

/// RegExpExec where only whether there is a match matters. `exec_property` is
/// the completion of Get(R, "exec").
pub fn reg_exp_test(
    agent: &mut Agent,
    r: Object,
    s: JsString,
    exec_property: JsResult<Value>,
) -> (step: ExecStep<bool>)
    requires
        old(agent).wf(),
        r matches Object::RegExp(regexp) ==> regexp.valid(old(agent).heap),
        s.valid(old(agent).heap),
    ensures
        final(agent).wf(),
        (match exec_property {
            Err(e) => step == ExecStep::<bool>::Done(Err(e)) && *final(agent) == *old(agent),
            Ok(value) => match exec_target(*old(agent), r, value) {
                ExecTarget::Builtin(regexp) => is_test_start(
                    *old(agent),
                    *final(agent),
                    regexp,
                    s,
                    step,
                ),
                ExecTarget::Call(function) => {
                    &&& step == (ExecStep::<bool>::Call { function, this: r, argument: s })
                    &&& *final(agent) == *old(agent)
                },
                ExecTarget::NotRegExp => {
                    &&& step matches ExecStep::Done(result)
                    &&& throws(result, ExceptionType::TypeError, "Expected this to be RegExp"@)
                    &&& *final(agent) == *old(agent)
                },
            },
        }),
{
    match reg_exp_exec_prepare(agent, r, s, exec_property) {
        // 4. Return ? RegExpBuiltinExec(R, S).
        ExecPrepare::Continue(r, s) => match r.last_index_step(agent) {
            LastIndexStep::Known(last_index) => reg_exp_test_with_length(
                agent,
                r,
                s,
                Ok(last_index),
            ),
            LastIndexStep::ToLength(value) => ExecStep::ToLength { r, s, value },
        },
        ExecPrepare::Call { function, this, argument } => ExecStep::Call {
            function,
            this,
            argument,
        },
        ExecPrepare::Break(e) => ExecStep::Done(Err(e)),
    }
}

/// The index of the next character: in Unicode mode a surrogate pair is one.
pub open spec fn next_index(units: Seq<u16>, index: int, unicode: bool) -> int {
    if unicode && pair_at(units, index) {
        index + 2
    } else {
        index + 1
    }
}

/// ### 22.2.7.3 AdvanceStringIndex ( S, index, unicode )
///
/// The abstract operation AdvanceStringIndex takes arguments S (a String),
/// index (a non-negative integer), and unicode (a Boolean) and returns an
/// integer.
pub fn advance_string_index(agent: &Agent, s: JsString, index: usize, unicode: bool) -> (r: usize)
    requires
        s.valid(agent.heap),
        // 1. Assert: index ≤ 2**53 - 1.
        index < 0x20_0000_0000_0000,
        index < usize::MAX,
    ensures
        r == next_index(s.units(agent.heap), index as int, unicode),
{
    // 2. If unicode is false, return index + 1.
    if !unicode {
        return index + 1;
    }
    // 3. Let length be the length of S.
    let length: usize = s.utf16_len(agent);
    // 4. If index + 1 ≥ length, return index + 1.
    if index + 1 >= length {
        return index + 1;
    }
    // 5. Let cp be CodePointAt(S, index).
    let cp: u32 = s.code_point_at(agent, index);
    // 6. Return index + cp.[[CodeUnitCount]].
    proof {
        let units = s.units(agent.heap);
        if pair_at(units, index as int) {
            lemma_encode_pair(units[index as int], units[index + 1]);
        }
    }
    if cp > 0xFFFF {
        // Two-code-unit character.
        index + 2
    } else {
        index + 1
    }
}

/// The next index is further on, and in Unicode mode advancing from a
/// character boundary never gets inside a surrogate pair.
pub proof fn lemma_advance_keeps_boundaries(units: Seq<u16>, index: int, unicode: bool)
    requires
        0 <= index,
    ensures
        index < next_index(units, index, unicode) <= index + 2,
        index < units.len() ==> next_index(units, index, unicode) <= units.len(),
        unicode && !splits_pair(units, index) ==> !splits_pair(
            units,
            next_index(units, index, unicode),
        ),
{
}

/// Executing and testing agree: they fail alike, they find a match alike, and
/// where the search is global or sticky they leave the same index stored.
pub proof fn lemma_exec_and_test_agree(
    before: Agent,
    after_exec: Agent,
    after_test: Agent,
    r: RegExp,
    s: JsString,
    last_index: JsResult<usize>,
    executed: JsResult<Option<Object>>,
    tested: JsResult<bool>,
)
    requires
        r.valid(before.heap),
        is_exec_result(before, after_exec, r, s, last_index, executed),
        is_test_result(before, after_test, r, s, last_index, tested),
    ensures
        (match (executed, tested) {
            (Ok(o), Ok(b)) => b == (o is Some),
            (
                Err(JsError::Exception { kind: k1, message: m1 }),
                Err(JsError::Exception { kind: k2, message: m2 }),
            ) => k1 == k2 && m1@ == m2@,
            (Err(JsError::Thrown(v1)), Err(JsError::Thrown(v2))) => v1 == v2,
            _ => false,
        }),
        r.data(before.heap).original_flags.bits & FLAG_G != 0 || r.data(
            before.heap,
        ).original_flags.bits & FLAG_Y != 0 ==> r.data(after_exec.heap).last_index == r.data(
            after_test.heap,
        ).last_index,
{
}

/// A match of a sticky search begins exactly at the index that was asked for.
pub proof fn lemma_sticky_match_begins_at_last_index(
    before: Agent,
    after: Agent,
    r: RegExp,
    s: JsString,
    last_index: usize,
    a: Array,
)
    requires
        r.valid(before.heap),
        r.data(before.heap).original_flags.bits & FLAG_Y != 0,
        is_exec_result(before, after, r, s, Ok(last_index), Ok(Some(Object::Array(a)))),
    ensures
        properties_view(a.data(after.heap).properties@)[0] == data_property(
            "index"@,
            Value::Integer(last_index as i64),
        ),
{
}

/// After a match of a global or sticky search the stored index is where the
/// match ended, which is not before the index that was asked for: repeating
/// the search makes no step back. An end that does not lie below the sentinel
/// cannot be stored.
pub proof fn lemma_repeated_search_never_steps_back(
    before: Agent,
    after: Agent,
    r: RegExp,
    s: JsString,
    last_index: usize,
    o: Object,
    matcher: Matcher,
    m: MatchModel,
)
    requires
        r.valid(before.heap),
        r.data(before.heap).original_flags.bits & FLAG_G != 0 || r.data(
            before.heap,
        ).original_flags.bits & FLAG_Y != 0,
        is_exec_result(before, after, r, s, Ok(last_index), Ok(Some(o))),
        r.data(before.heap).reg_exp_matcher == Ok::<Matcher, String>(matcher),
        exec_found(before.heap, matcher, exec_base(before.heap, r, s, last_index)) == Some(
            m,
        ),
        m.end < u32::MAX,
    ensures
        r.data(after.heap).last_index.spec_get_value() == Some(m.end as u32),
        last_index <= m.start <= m.end <= s.units(before.heap).len(),
{
}

/// Without the flags `g` and `y` executing ignores lastIndex and leaves it alone.
pub proof fn lemma_plain_search_ignores_last_index(
    before: Agent,
    after: Agent,
    r: RegExp,
    s: JsString,
    last_index: usize,
    other: usize,
    result: JsResult<Option<Object>>,
)
    requires
        r.valid(before.heap),
        r.data(before.heap).original_flags.bits & FLAG_G == 0,
        r.data(before.heap).original_flags.bits & FLAG_Y == 0,
        is_exec_result(before, after, r, s, Ok(last_index), result),
    ensures
        is_exec_result(before, after, r, s, Ok(other), result),
        r.data(after.heap).last_index == r.data(before.heap).last_index,
{
}

/// Whether the array `a` of one heap and `b` of another are results of the same
/// match.
pub open spec fn is_same_answer(
    first: Heap,
    a: Array,
    second: Heap,
    b: Array,
    s: JsString,
    units: Seq<u16>,
    has_indices: bool,
) -> bool {
    exists|m: MatchModel|
        #[trigger] is_match_result(first, a, s, units, m, has_indices) && is_match_result(
            second,
            b,
            s,
            units,
            m,
            has_indices,
        )
}

/// Without the flags `g` and `y` executing twice gives the same answer: no match
/// again, or two new arrays that say the same of one match.
pub proof fn lemma_plain_search_repeats_its_answer(
    before: Agent,
    middle: Agent,
    after: Agent,
    r: RegExp,
    s: JsString,
    first_index: usize,
    second_index: usize,
    first: Option<Object>,
    second: Option<Object>,
)
    requires
        r.valid(before.heap),
        s.valid(before.heap),
        r.data(before.heap).original_flags.bits & FLAG_G == 0,
        r.data(before.heap).original_flags.bits & FLAG_Y == 0,
        is_exec_result(before, middle, r, s, Ok(first_index), Ok(first)),
        is_exec_result(middle, after, r, s, Ok(second_index), Ok(second)),
    ensures
        (match (first, second) {
            (None, None) => true,
            (Some(Object::Array(a)), Some(Object::Array(b))) => is_same_answer(
                middle.heap,
                a,
                after.heap,
                b,
                s,
                s.units(before.heap),
                r.data(before.heap).original_flags.bits & FLAG_D != 0,
            ),
            _ => false,
        }),
{
    assert(s.units(middle.heap) == s.units(before.heap));
    match r.data(before.heap).reg_exp_matcher {
        Ok(matcher) => {
            let base = exec_base(before.heap, r, s, first_index);
            assert(exec_base(middle.heap, r, s, second_index) == base);
            assert(exec_found(middle.heap, matcher, base) == exec_found(
                before.heap,
                matcher,
                base,
            ));
            if let (Some(m), Some(Object::Array(a))) = (
                accepted(base, exec_found(before.heap, matcher, base)),
                first,
            ) {
                assert(is_match_result(
                    middle.heap,
                    a,
                    s,
                    s.units(before.heap),
                    m,
                    base.has_indices,
                ));
            }
        },
        Err(_) => {},
    }
}

/// Without Unicode mode the next index is one further on, whatever the string.
/// In Unicode mode it is two further on if and only if a lead surrogate at the
/// index is directly followed by a trail surrogate, and else one.
pub proof fn lemma_next_index(units: Seq<u16>, index: int)
    requires
        0 <= index,
    ensures
        next_index(units, index, false) == index + 1,
        next_index(units, index, true) == index + 2 <==> index + 1 < units.len() && 0xD800
            <= units[index] <= 0xDBFF && 0xDC00 <= units[index + 1] <= 0xDFFF,
        next_index(units, index, true) == index + 2 || next_index(units, index, true) == index + 1,
{
}

/// What RegExpExec does with an object: a function other than the intrinsic
/// "exec" is called. A regular expression with the intrinsic function, or
/// without a function, is executed. On any other object even the intrinsic
/// function is called, and without a function it is an error.
pub proof fn lemma_exec_target(agent: Agent, r: Object, exec_property: Value, f: Function)
    ensures
        ({
            let intrinsic = agent.realms@[agent.current_realm as int].reg_exp_prototype_exec;
            let function = exec_property == Value::Object(Object::Function(f));
            let no_function = !(exec_property matches Value::Object(Object::Function(_)));
            &&& function && f != intrinsic ==> exec_target(agent, r, exec_property)
                == ExecTarget::Call(f)
            &&& function && f == intrinsic ==> match r {
                Object::RegExp(regexp) => exec_target(agent, r, exec_property)
                    == ExecTarget::Builtin(regexp),
                _ => exec_target(agent, r, exec_property) == ExecTarget::Call(f),
            }
            &&& no_function ==> match r {
                Object::RegExp(regexp) => exec_target(agent, r, exec_property)
                    == ExecTarget::Builtin(regexp),
                _ => exec_target(agent, r, exec_property) == ExecTarget::NotRegExp,
            }
        }),
{
}

/// What a called "exec" function results in is taken over if it is an object or
/// null or was thrown. Anything else is a TypeError.
pub proof fn lemma_call_result(result: JsResult<Value>, r: JsResult<Option<Object>>)
    requires
        is_call_result(result, r),
    ensures
        result matches Err(e) ==> r == Err::<Option<Object>, JsError>(e),
        result matches Ok(Value::Object(o)) ==> r == Ok::<Option<Object>, JsError>(Some(o)),
        result == Ok::<Value, JsError>(Value::Null) ==> r == Ok::<Option<Object>, JsError>(None),
        result matches Ok(value) ==> !(value is Object) && value != Value::Null ==> {
            &&& r matches Err(JsError::Exception { kind: ExceptionType::TypeError, message })
            &&& message@ == "'exec' function result was not object or null"@
        },
{
}

/// The search begins at lastIndex if the flag `g` or the flag `y` is set, and
/// else at 0. The flags alone say whether it is global (`g`), sticky (`y`), with
/// indices (`d`) and in Unicode mode (`u` or `v`).
pub proof fn lemma_exec_base(heap: Heap, r: RegExp, s: JsString, last_index: usize)
    ensures
        ({
            let base = exec_base(heap, r, s, last_index);
            let bits = heap.regexps@[r.index as int].original_flags.bits;
            &&& base.r == r
            &&& base.s == s
            &&& bits & 0x01 != 0 || bits & 0x20 != 0 ==> base.last_index == last_index
            &&& bits & 0x01 == 0 && bits & 0x20 == 0 ==> base.last_index == 0
            &&& base.global <==> bits & 0x01 != 0
            &&& base.sticky <==> bits & 0x20 != 0
            &&& base.has_indices <==> bits & 0x40 != 0
            &&& base.full_unicode <==> bits & 0x10 != 0 || bits & 0x80 != 0
        }),
{
    lemma_full_unicode(r.data(heap).original_flags);
}

/// Wherever the search begins at or before the end of the string, be the string
/// empty or not, what is found is what the engine finds in the code units of the
/// string from there on. Beyond the end nothing is found.
pub proof fn lemma_found_is_what_the_engine_finds(
    heap: Heap,
    matcher: Matcher,
    base: RegExpExecBase,
)
    ensures
        ({
            let units = code_units(heap.strings@[base.s.index as int]);
            let start = base.last_index;
            let found = exec_found(heap, matcher, base);
            &&& start > units.len() ==> found is None
            &&& start <= units.len() && !base.full_unicode ==> found == regress_find_ucs2(
                matcher.regex(),
                units,
                start,
            )
            &&& start <= units.len() && base.full_unicode ==> {
                ||| found == regress_find_utf16(matcher.regex(), units, start)
                ||| regress_compile_unoptimized(matcher.pattern(), matcher.flags()) matches Ok(
                    regex,
                ) ==> found == regress_find_utf16(regex, units, start)
            }
            &&& start <= units.len() && base.full_unicode && (forall|i: int|
                #![trigger units[i]]
                0 <= i && i + 1 < units.len() ==> !(0xD800 <= units[i] <= 0xDBFF && 0xDC00
                    <= units[i + 1] <= 0xDFFF)) ==> found == regress_find_utf16(matcher.regex(), units, start)
        }),
{
    let units = base.s.units(heap);
    lemma_find_is_what_the_engine_finds(matcher, units, base.last_index);
}

/// Executing acts on what the engine finds from the index that the flags ask
/// for, and testing acts on the very same: a match counts if the flag `y` is not
/// set or the match begins at that index. Executing gives an array and testing
/// gives true if and only if a match counts.
pub proof fn lemma_exec_and_test_follow_the_engine(
    before: Agent,
    after_exec: Agent,
    after_test: Agent,
    r: RegExp,
    s: JsString,
    last_index: usize,
    executed: JsResult<Option<Object>>,
    tested: JsResult<bool>,
    matcher: Matcher,
)
    requires
        before.heap.regexps@[r.index as int].reg_exp_matcher == Ok::<Matcher, String>(matcher),
        is_exec_result(before, after_exec, r, s, Ok(last_index), executed),
        is_test_result(before, after_test, r, s, Ok(last_index), tested),
    ensures
        ({
            let bits = before.heap.regexps@[r.index as int].original_flags.bits;
            let sticky = bits & 0x20 != 0;
            let unicode = bits & 0x10 != 0 || bits & 0x80 != 0;
            let start = if bits & 0x01 != 0 || sticky {
                last_index
            } else {
                0
            };
            let units = code_units(before.heap.strings@[s.index as int]);
            let acts_on = |found: Option<MatchModel>|
                {
                    let counts = match found {
                        Some(m) => !sticky || m.start == start,
                        None => false,
                    };
                    &&& executed matches Ok(o) && (o is Some <==> counts)
                    &&& tested matches Ok(b) && (b <==> counts)
                };
            &&& start > units.len() ==> acts_on(None)
            &&& start <= units.len() && !unicode ==> acts_on(
                regress_find_ucs2(matcher.regex(), units, start),
            )
            &&& start <= units.len() && unicode ==> {
                ||| acts_on(regress_find_utf16(matcher.regex(), units, start))
                ||| regress_compile_unoptimized(matcher.pattern(), matcher.flags()) matches Ok(
                    regex,
                ) ==> acts_on(regress_find_utf16(regex, units, start))
            }
            &&& start <= units.len() && unicode && (forall|i: int|
                #![trigger units[i]]
                0 <= i && i + 1 < units.len() ==> !(0xD800 <= units[i] <= 0xDBFF && 0xDC00
                    <= units[i + 1] <= 0xDFFF)) ==> acts_on(regress_find_utf16(matcher.regex(), units, start))
        }),
{
    let base = exec_base(before.heap, r, s, last_index);
    lemma_exec_base(before.heap, r, s, last_index);
    lemma_found_is_what_the_engine_finds(before.heap, matcher, base);
}

/// Where executing gives an array, that holds what the engine captured: first
/// the code units of the whole match, then those of each group, also where they
/// are none, and undefined exactly where the group did not take part. Its first
/// property is where the match began.
pub proof fn lemma_exec_result_holds_captures(
    before: Agent,
    after: Agent,
    r: RegExp,
    s: JsString,
    last_index: usize,
    a: Array,
    matcher: Matcher,
)
    requires
        before.heap.regexps@[r.index as int].reg_exp_matcher == Ok::<Matcher, String>(matcher),
        is_exec_result(before, after, r, s, Ok(last_index), Ok(Some(Object::Array(a)))),
    ensures
        ({
            let bits = before.heap.regexps@[r.index as int].original_flags.bits;
            let unicode = bits & 0x10 != 0 || bits & 0x80 != 0;
            let start = if bits & 0x01 != 0 || bits & 0x20 != 0 {
                last_index
            } else {
                0
            };
            let units = code_units(before.heap.strings@[s.index as int]);
            let elements = after.heap.arrays@[a.index as int].elements@;
            let is_part = |value: Value, from: usize, to: usize|
                {
                    &&& value matches Value::String(part)
                    &&& part.index < after.heap.strings@.len()
                    &&& code_units(after.heap.strings@[part.index as int]) == units.subrange(
                        from as int,
                        to as int,
                    )
                };
            let holds = |found: Option<MatchModel>|
                {
                    &&& found matches Some(m)
                    &&& elements.len() == m.captures.len() + 1
                    &&& is_part(elements[0], m.start, m.end)
                    &&& forall|i: int|
                        #![trigger m.captures[i]]
                        0 <= i < m.captures.len() ==> match m.captures[i] {
                            Some((from, to)) => is_part(elements[i + 1], from, to),
                            None => elements[i + 1] == Value::Undefined,
                        }
                    &&& after.heap.arrays@[a.index as int].properties@[0].value == Value::Integer(
                        m.start as i64,
                    )
                };
            &&& start <= units.len()
            &&& !unicode ==> holds(regress_find_ucs2(matcher.regex(), units, start))
            &&& unicode ==> {
                ||| holds(regress_find_utf16(matcher.regex(), units, start))
                ||| regress_compile_unoptimized(matcher.pattern(), matcher.flags()) matches Ok(
                    regex,
                ) ==> holds(regress_find_utf16(regex, units, start))
            }
        }),
{
    let base = exec_base(before.heap, r, s, last_index);
    lemma_exec_base(before.heap, r, s, last_index);
    lemma_found_is_what_the_engine_finds(before.heap, matcher, base);
    if let Some(m) = exec_found(before.heap, matcher, base) {
        let units = base.s.units(before.heap);
        lemma_match_result_elements(after.heap, a, base.s, units, m, base.has_indices);
        lemma_match_result_properties(after.heap, a, base.s, units, m, base.has_indices);
    }
}

/// What a search leaves behind: with the flag `g` or `y` the stored index is
/// where a match that counts ended, or 0 if none counts, and without both it
/// stays. A match that counts gives a new array that is its result. Nothing else
/// of the regular expression changes, nor any other, and nothing that was in the
/// heap.
pub proof fn lemma_exec_outcome(
    before: Agent,
    after: Agent,
    base: RegExpExecBase,
    found: Option<MatchModel>,
    r: Option<Object>,
)
    requires
        base.r.index < before.heap.regexps@.len(),
        is_exec_outcome(before, after, base, found, r),
    ensures
        ({
            let counts = match found {
                Some(m) => !base.sticky || m.start == base.last_index,
                None => false,
            };
            let old_data = before.heap.regexps@[base.r.index as int];
            let new_data = after.heap.regexps@[base.r.index as int];
            let stored = new_data.last_index.raw;
            &&& !base.global && !base.sticky ==> stored == old_data.last_index.raw
            &&& (base.global || base.sticky) && !counts ==> stored == 0
            &&& (base.global || base.sticky) && counts ==> stored == (if found->0.end
                < 0xFFFF_FFFF {
                found->0.end as int
            } else {
                0xFFFF_FFFF
            })
            &&& !counts ==> r is None
            &&& counts ==> {
                &&& r matches Some(Object::Array(a))
                &&& before.heap.arrays@.len() <= a.index < after.heap.arrays@.len()
                &&& is_match_result(
                    after.heap,
                    a,
                    base.s,
                    code_units(before.heap.strings@[base.s.index as int]),
                    found->0,
                    base.has_indices,
                )
            }
            &&& new_data.original_source == old_data.original_source
            &&& new_data.original_flags == old_data.original_flags
            &&& new_data.reg_exp_matcher == old_data.reg_exp_matcher
            &&& new_data.object_index == old_data.object_index
            &&& after.heap.regexps@.len() == before.heap.regexps@.len()
            &&& forall|i: int|
                0 <= i < before.heap.regexps@.len() && i != base.r.index
                    ==> #[trigger] after.heap.regexps@[i] == before.heap.regexps@[i]
            &&& forall|i: int|
                0 <= i < before.heap.strings@.len() ==> #[trigger] after.heap.strings@[i]
                    == before.heap.strings@[i]
            &&& forall|i: int|
                0 <= i < before.heap.objects@.len() ==> #[trigger] after.heap.objects@[i]
                    == before.heap.objects@[i]
            &&& forall|i: int|
                0 <= i < before.heap.arrays@.len() ==> #[trigger] after.heap.arrays@[i]
                    == before.heap.arrays@[i]
            &&& after.heap.embedder_objects == before.heap.embedder_objects
            &&& after.heap.weak_refs == before.heap.weak_refs
            &&& after.realms == before.realms
            &&& after.current_realm == before.current_realm
            &&& after.kept_alive == before.kept_alive
        }),
{
}

/// What a test leaves behind: with the flag `g` or `y` the stored index is where
/// a match that counts ended. Where none counts, or without both flags, it is
/// 0. Nothing else changes.
pub proof fn lemma_test_outcome(
    before: Agent,
    after: Agent,
    r: RegExp,
    s: JsString,
    last_index: usize,
    result: JsResult<bool>,
    matcher: Matcher,
)
    requires
        r.index < before.heap.regexps@.len(),
        before.heap.regexps@[r.index as int].reg_exp_matcher == Ok::<Matcher, String>(matcher),
        is_test_result(before, after, r, s, Ok(last_index), result),
    ensures
        ({
            let bits = before.heap.regexps@[r.index as int].original_flags.bits;
            let heeds = bits & 0x01 != 0 || bits & 0x20 != 0;
            let found = exec_found(
                before.heap,
                matcher,
                exec_base(before.heap, r, s, last_index),
            );
            let old_data = before.heap.regexps@[r.index as int];
            let new_data = after.heap.regexps@[r.index as int];
            let stored = new_data.last_index.raw;
            &&& result matches Ok(b)
            &&& b ==> found is Some
            &&& heeds && b ==> stored == (if found->0.end < 0xFFFF_FFFF {
                found->0.end as int
            } else {
                0xFFFF_FFFF
            })
            &&& !(heeds && b) ==> stored == 0
            &&& new_data.original_source == old_data.original_source
            &&& new_data.original_flags == old_data.original_flags
            &&& new_data.reg_exp_matcher == old_data.reg_exp_matcher
            &&& new_data.object_index == old_data.object_index
            &&& after.heap.regexps@.len() == before.heap.regexps@.len()
            &&& forall|i: int|
                0 <= i < before.heap.regexps@.len() && i != r.index
                    ==> #[trigger] after.heap.regexps@[i] == before.heap.regexps@[i]
            &&& after.heap.strings == before.heap.strings
            &&& after.heap.objects == before.heap.objects
            &&& after.heap.arrays == before.heap.arrays
            &&& after.heap.embedder_objects == before.heap.embedder_objects
            &&& after.heap.weak_refs == before.heap.weak_refs
            &&& after.realms == before.realms
            &&& after.current_realm == before.current_realm
            &&& after.kept_alive == before.kept_alive
        }),
{
    lemma_exec_base(before.heap, r, s, last_index);
}

/// Executing is a search as the flags ask for, for what the engine finds, unless
/// it fails. It fails with what converting lastIndex threw, and otherwise with a
/// SyntaxError if and only if the pattern did not compile, whose message says
/// why. Then nothing changes.
pub proof fn lemma_exec_result(
    before: Agent,
    after: Agent,
    r: RegExp,
    s: JsString,
    last_index: JsResult<usize>,
    result: JsResult<Option<Object>>,
)
    requires
        is_exec_result(before, after, r, s, last_index, result),
    ensures
        last_index matches Err(e) ==> result == Err::<Option<Object>, JsError>(e) && after
            == before,
        last_index matches Ok(index) ==> match before.heap.regexps@[
            r.index as int
        ].reg_exp_matcher {
            Err(why) => {
                &&& result matches Err(
                    JsError::Exception { kind: ExceptionType::SyntaxError, message },
                )
                &&& message@ == why@
                &&& after == before
            },
            Ok(matcher) => {
                let base = exec_base(before.heap, r, s, index);
                &&& result matches Ok(o)
                &&& is_exec_outcome(
                    before,
                    after,
                    base,
                    exec_found(before.heap, matcher, base),
                    o,
                )
            },
        },
{
}

/// Testing fails exactly as executing does.
pub proof fn lemma_test_failures(
    before: Agent,
    after: Agent,
    r: RegExp,
    s: JsString,
    last_index: JsResult<usize>,
    result: JsResult<bool>,
)
    requires
        is_test_result(before, after, r, s, last_index, result),
    ensures
        last_index matches Err(e) ==> result == Err::<bool, JsError>(e) && after == before,
        last_index is Ok ==> match before.heap.regexps@[r.index as int].reg_exp_matcher {
            Err(why) => {
                &&& result matches Err(
                    JsError::Exception { kind: ExceptionType::SyntaxError, message },
                )
                &&& message@ == why@
                &&& after == before
            },
            Ok(_) => result is Ok,
        },
{
}

/// A stored index is used as it is. Where none is stored, the "lastIndex"
/// property of the backing object is converted first, undefined if there is no
/// backing object, and nothing changes meanwhile.
pub proof fn lemma_start_of_exec_and_test(
    before: Agent,
    after_exec: Agent,
    after_test: Agent,
    r: RegExp,
    s: JsString,
    executed: ExecStep<Option<Object>>,
    tested: ExecStep<bool>,
    position: int,
)
    requires
        is_exec_start(before, after_exec, r, s, executed),
        is_test_start(before, after_test, r, s, tested),
    ensures
        ({
            let data = before.heap.regexps@[r.index as int];
            let stored = data.last_index.raw;
            &&& stored != 0xFFFF_FFFF ==> {
                &&& executed matches ExecStep::Done(result) && is_exec_result(
                    before,
                    after_exec,
                    r,
                    s,
                    Ok(stored as usize),
                    result,
                )
                &&& tested matches ExecStep::Done(result) && is_test_result(
                    before,
                    after_test,
                    r,
                    s,
                    Ok(stored as usize),
                    result,
                )
            }
            &&& stored == 0xFFFF_FFFF ==> {
                &&& after_exec == before
                &&& after_test == before
                &&& executed matches ExecStep::ToLength { r: r1, s: s1, value: v1 }
                &&& tested matches ExecStep::ToLength { r: r2, s: s2, value: v2 }
                &&& r1 == r && r2 == r && s1 == s && s2 == s && v1 == v2
                &&& data.object_index is None ==> v1 == Value::Undefined
                &&& data.object_index matches Some(o) ==> {
                    let properties = before.heap.objects@[o.index as int].properties@;
                    0 <= position < properties.len() && properties[position].key@ == "lastIndex"@
                        && (forall|j: int|
                        0 <= j < position ==> (#[trigger] properties[j]).key@ != "lastIndex"@)
                        ==> v1 == properties[position].value
                }
            }
        }),
{
    if let Some(o) = r.data(before.heap).object_index {
        let properties = before.heap.objects@[o.index as int].properties@;
        if 0 <= position < properties.len() && properties[position].key@ == "lastIndex"@ && (
        forall|j: int| 0 <= j < position ==> (#[trigger] properties[j]).key@ != "lastIndex"@) {
            lemma_property_of(properties, "lastIndex"@, position);
        }
    }
}

/// An array as an object is that array, and no array is no object. What was
/// thrown stays.
pub proof fn lemma_array_objects(a: Array, e: JsError)
    ensures
        array_object(Some(a)) == Some(Object::Array(a)),
        array_object(None) is None,
        array_objects(Ok(Some(a))) == Ok::<Option<Object>, JsError>(Some(Object::Array(a))),
        array_objects(Ok(None)) == Ok::<Option<Object>, JsError>(None),
        array_objects(Err(e)) == Err::<Option<Object>, JsError>(e),
{
}

} // verus!
