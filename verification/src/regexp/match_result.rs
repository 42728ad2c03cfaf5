//! What a successful match results in.

use vstd::prelude::*;

use crate::heap::{
    create_data_property, data_property, has_key, lemma_grows_transitive, properties_view, Agent,
    Heap, Property, PropertyModel, MAX_STRING_LENGTH,
};
use crate::regexp::matcher::{capture_in_range, match_in_range, MatchModel, MatchRecord};
use crate::strings::buffer_from_units;
use crate::values::{Array, JsString, Object, OrdinaryObject, Value};
use crate::wtf8_buf::code_units;

verus! {

/// Whether `value` is the number `n`.
pub open spec fn is_number(value: Value, n: usize) -> bool {
    value == Value::Integer(n as i64)
}

/// Whether `value` is what a capture matched: a string with those code units,
/// or undefined for a group that did not take part.
pub open spec fn is_substring(
    heap: Heap,
    value: Value,
    units: Seq<u16>,
    capture: Option<(usize, usize)>,
) -> bool {
    match capture {
        Some(range) => {
            &&& value matches Value::String(s)
            &&& s.valid(heap)
            &&& s.units(heap) == units.subrange(range.0 as int, range.1 as int)
        },
        None => value == Value::Undefined,
    }
}

/// Whether `value` says where a capture matched: an array of its start and
/// end, or undefined for a group that did not take part.
pub open spec fn is_index_pair(heap: Heap, value: Value, capture: Option<(usize, usize)>) -> bool {
    match capture {
        Some(range) => {
            &&& value matches Value::Object(Object::Array(pair))
            &&& pair.valid(heap)
            &&& pair.data(heap).elements@.len() == 2
            &&& is_number(pair.data(heap).elements@[0], range.0)
            &&& is_number(pair.data(heap).elements@[1], range.1)
            &&& pair.data(heap).properties@.len() == 0
        },
        None => value == Value::Undefined,
    }
}

/// Whether `value` says what (with `units`) or where (without) a capture matched.
pub open spec fn is_capture(
    heap: Heap,
    value: Value,
    units: Option<Seq<u16>>,
    capture: Option<(usize, usize)>,
) -> bool {
    match units {
        Some(units) => is_substring(heap, value, units, capture),
        None => is_index_pair(heap, value, capture),
    }
}

/// The captures of a match with the whole match in front.
pub open spec fn all_captures(m: MatchModel) -> Seq<Option<(usize, usize)>> {
    seq![Some((m.start, m.end))] + m.captures
}

/// Whether the values are those of the captures, one each.
pub open spec fn are_captures(
    heap: Heap,
    values: Seq<Value>,
    units: Option<Seq<u16>>,
    captures: Seq<Option<(usize, usize)>>,
) -> bool {
    &&& values.len() == captures.len()
    &&& forall|i: int|
        0 <= i < values.len() ==> is_capture(heap, #[trigger] values[i], units, captures[i])
}

/// Whether the properties are those of the named groups, one each and in order.
pub open spec fn are_named_captures(
    heap: Heap,
    properties: Seq<PropertyModel>,
    units: Option<Seq<u16>>,
    groups: Seq<(Seq<char>, Option<(usize, usize)>)>,
) -> bool {
    &&& properties.len() == groups.len()
    &&& forall|i: int|
        0 <= i < properties.len() ==> {
            &&& #[trigger] properties[i] == data_property(groups[i].0, properties[i].value)
            &&& is_capture(heap, properties[i].value, units, groups[i].1)
        }
}

/// Whether `value` is the groups object of a match: an object without
/// prototype that has a property for each named group, or undefined if no
/// group is named.
pub open spec fn is_groups(
    heap: Heap,
    value: Value,
    units: Option<Seq<u16>>,
    groups: Seq<(Seq<char>, Option<(usize, usize)>)>,
) -> bool {
    if groups.len() == 0 {
        value == Value::Undefined
    } else {
        &&& value matches Value::Object(Object::Ordinary(o))
        &&& o.valid(heap)
        &&& o.data(heap).prototype is None
        &&& are_named_captures(heap, properties_view(o.data(heap).properties@), units, groups)
    }
}

/// Whether `value` is the indices array of a match.
pub open spec fn is_indices(heap: Heap, value: Value, m: MatchModel) -> bool {
    &&& value matches Value::Object(Object::Array(a))
    &&& a.valid(heap)
    &&& are_captures(heap, a.data(heap).elements@, None, all_captures(m))
    &&& properties_view(a.data(heap).properties@).len() == 1
    &&& properties_view(a.data(heap).properties@)[0] == data_property(
        "groups"@,
        properties_view(a.data(heap).properties@)[0].value,
    )
    &&& is_groups(heap, properties_view(a.data(heap).properties@)[0].value, None, m.named_groups)
}

/// Whether `a` is the result of matching the string `s`, whose code units are
/// `units`: the elements are the matched substring and the substrings of the
/// captures, and the properties say where the match began, what the input was
/// and what the named groups matched. With `has_indices` a last property says
/// where everything matched.
pub open spec fn is_match_result(
    heap: Heap,
    a: Array,
    s: JsString,
    units: Seq<u16>,
    m: MatchModel,
    has_indices: bool,
) -> bool {
    let properties = properties_view(a.data(heap).properties@);
    &&& a.valid(heap)
    &&& are_captures(heap, a.data(heap).elements@, Some(units), all_captures(m))
    &&& properties.len() == (if has_indices {
        4int
    } else {
        3
    })
    &&& properties[0] == data_property("index"@, Value::Integer(m.start as i64))
    &&& properties[1] == data_property("input"@, Value::String(s))
    &&& properties[2] == data_property("groups"@, properties[2].value)
    &&& is_groups(heap, properties[2].value, Some(units), m.named_groups)
    &&& has_indices ==> {
        &&& properties[3] == data_property("indices"@, properties[3].value)
        &&& is_indices(heap, properties[3].value, m)
    }
}

/// A `[start, end]` two-element index pair (code units) for the `indices`
/// array.
pub fn index_pair(agent: &mut Agent, start: usize, end: usize) -> (r: Array)
    requires
        old(agent).wf(),
        start <= MAX_STRING_LENGTH,
        end <= MAX_STRING_LENGTH,
    ensures
        final(agent).wf(),
        old(agent).grows_to(*final(agent)),
        r.index == old(agent).heap.arrays@.len(),
        is_index_pair(
            final(agent).heap,
            Value::Object(Object::Array(r)),
            Some((start, end)),
        ),
{
    let mut elements: Vec<Value> = Vec::new();
    elements.push(Value::Integer(start as i64));
    elements.push(Value::Integer(end as i64));
    Array::create_array(agent, elements, Vec::new())
}

/// Build a string from a code-unit range of `units`. Lone surrogates (e.g. from
/// slicing through a pair) are preserved.
pub fn code_units_substring(
    agent: &mut Agent,
    units: &[u16],
    range: (usize, usize),
) -> (r: JsString)
    requires
        old(agent).wf(),
        range.0 <= range.1 <= units@.len(),
        range.1 - range.0 <= MAX_STRING_LENGTH,
    ensures
        final(agent).wf(),
        old(agent).grows_to(*final(agent)),
        r.index == old(agent).heap.strings@.len(),
        r.valid(final(agent).heap),
        r.units(final(agent).heap) == units@.subrange(range.0 as int, range.1 as int),
{
    JsString::from_wtf8_buf(agent, buffer_from_units(units, range.0, range.1))
}

/// The code units of a slice, if there is one.
pub open spec fn units_view(units: Option<&[u16]>) -> Option<Seq<u16>> {
    match units {
        Some(units) => Some(units@),
        None => None,
    }
}

/// The value that says what (with `units`) or where (without) a capture matched.
fn capture_value(
    agent: &mut Agent,
    units: Option<&[u16]>,
    capture: Option<(usize, usize)>,
) -> (r: Value)
    requires
        old(agent).wf(),
        capture_in_range(capture, MAX_STRING_LENGTH as nat),
        units matches Some(text) ==> capture_in_range(capture, text@.len()),
    ensures
        final(agent).wf(),
        old(agent).grows_to(*final(agent)),
        is_capture(final(agent).heap, r, units_view(units), capture),
{
    match capture {
        Some(range) => match units {
            Some(text) => Value::String(code_units_substring(agent, text, range)),
            None => Value::Object(Object::Array(index_pair(agent, range.0, range.1))),
        },
        None => Value::Undefined,
    }
}

/// What was matched stays matched when the heap grows.
proof fn lemma_capture_stays(
    before: Agent,
    after: Agent,
    value: Value,
    units: Option<Seq<u16>>,
    capture: Option<(usize, usize)>,
)
    requires
        before.grows_to(after),
        is_capture(before.heap, value, units, capture),
    ensures
        is_capture(after.heap, value, units, capture),
{
}

proof fn lemma_captures_stay(
    before: Agent,
    after: Agent,
    values: Seq<Value>,
    units: Option<Seq<u16>>,
    captures: Seq<Option<(usize, usize)>>,
)
    requires
        before.grows_to(after),
        are_captures(before.heap, values, units, captures),
    ensures
        are_captures(after.heap, values, units, captures),
{
    assert forall|i: int| 0 <= i < values.len() implies is_capture(
        after.heap,
        #[trigger] values[i],
        units,
        captures[i],
    ) by {
        lemma_capture_stays(before, after, values[i], units, captures[i]);
    }
}

proof fn lemma_named_captures_stay(
    before: Agent,
    after: Agent,
    properties: Seq<PropertyModel>,
    units: Option<Seq<u16>>,
    groups: Seq<(Seq<char>, Option<(usize, usize)>)>,
)
    requires
        before.grows_to(after),
        are_named_captures(before.heap, properties, units, groups),
    ensures
        are_named_captures(after.heap, properties, units, groups),
{
    assert forall|i: int| 0 <= i < properties.len() implies {
        &&& #[trigger] properties[i] == data_property(groups[i].0, properties[i].value)
        &&& is_capture(after.heap, properties[i].value, units, groups[i].1)
    } by {
        assert(properties[i] == data_property(groups[i].0, properties[i].value));
        lemma_capture_stays(before, after, properties[i].value, units, groups[i].1);
    }
}

proof fn lemma_groups_stay(
    before: Agent,
    after: Agent,
    value: Value,
    units: Option<Seq<u16>>,
    groups: Seq<(Seq<char>, Option<(usize, usize)>)>,
)
    requires
        before.grows_to(after),
        is_groups(before.heap, value, units, groups),
    ensures
        is_groups(after.heap, value, units, groups),
{
    if groups.len() > 0 {
        match value {
            Value::Object(Object::Ordinary(o)) => {
                assert(o.data(after.heap) == o.data(before.heap));
                lemma_named_captures_stay(
                    before,
                    after,
                    properties_view(o.data(before.heap).properties@),
                    units,
                    groups,
                );
            },
            _ => {},
        }
    }
}

proof fn lemma_indices_stay(before: Agent, after: Agent, value: Value, m: MatchModel)
    requires
        before.grows_to(after),
        is_indices(before.heap, value, m),
    ensures
        is_indices(after.heap, value, m),
{
    match value {
        Value::Object(Object::Array(a)) => {
            assert(a.data(after.heap) == a.data(before.heap));
            lemma_captures_stay(
                before,
                after,
                a.data(before.heap).elements@,
                None,
                all_captures(m),
            );
            lemma_groups_stay(
                before,
                after,
                properties_view(a.data(before.heap).properties@)[0].value,
                None,
                m.named_groups,
            );
        },
        _ => {},
    }
}

/// The values of the whole match and of each capture.
fn capture_values(agent: &mut Agent, units: Option<&[u16]>, m: &MatchRecord) -> (r: Vec<Value>)
    requires
        old(agent).wf(),
        match_in_range(m@, MAX_STRING_LENGTH as nat),
        units matches Some(text) ==> match_in_range(m@, text@.len()),
    ensures
        final(agent).wf(),
        old(agent).grows_to(*final(agent)),
        are_captures(final(agent).heap, r@, units_view(units), all_captures(m@)),
{
    let ghost expected = all_captures(m@);
    let mut values: Vec<Value> = Vec::new();
    let whole: Value = capture_value(agent, units, Some((m.start, m.end)));
    values.push(whole);
    let mut i: usize = 0;
    while i < m.captures.len()
        invariant
            i <= m.captures@.len(),
            agent.wf(),
            old(agent).grows_to(*agent),
            match_in_range(m@, MAX_STRING_LENGTH as nat),
            units matches Some(text) ==> match_in_range(m@, text@.len()),
            expected == all_captures(m@),
            are_captures(agent.heap, values@, units_view(units), expected.take(i + 1)),
        decreases m.captures@.len() - i,
    {
        let capture: Option<(usize, usize)> = m.captures[i];
        let ghost before = *agent;
        assert(m@.captures[i as int] == capture);
        let value: Value = capture_value(agent, units, capture);
        proof {
            lemma_captures_stay(
                before,
                *agent,
                values@,
                units_view(units),
                expected.take(i + 1),
            );
        }
        values.push(value);
        i = i + 1;
    }
    assert(expected.take(expected.len() as int) =~= expected);
    values
}

/// The groups object of a match, or undefined if no group is named.
fn groups_value(agent: &mut Agent, units: Option<&[u16]>, m: &MatchRecord) -> (r: Value)
    requires
        old(agent).wf(),
        match_in_range(m@, MAX_STRING_LENGTH as nat),
        units matches Some(text) ==> match_in_range(m@, text@.len()),
    ensures
        final(agent).wf(),
        old(agent).grows_to(*final(agent)),
        is_groups(final(agent).heap, r, units_view(units), m@.named_groups),
{
    if m.named_groups.len() == 0 {
        return Value::Undefined;
    }
    let ghost groups = m@.named_groups;
    let mut properties: Vec<Property> = Vec::new();
    let mut i: usize = 0;
    while i < m.named_groups.len()
        invariant
            i <= m.named_groups@.len(),
            agent.wf(),
            old(agent).grows_to(*agent),
            match_in_range(m@, MAX_STRING_LENGTH as nat),
            units matches Some(text) ==> match_in_range(m@, text@.len()),
            groups == m@.named_groups,
            are_named_captures(
                agent.heap,
                properties_view(properties@),
                units_view(units),
                groups.take(i as int),
            ),
        decreases m.named_groups@.len() - i,
    {
        let ghost before = *agent;
        let ghost done = properties_view(properties@);
        let capture: Option<(usize, usize)> = m.named_groups[i].1;
        assert(groups[i as int].1 == capture);
        let value: Value = capture_value(agent, units, capture);
        let key: String = m.named_groups[i].0.clone();
        proof {
            assert(groups[i as int].0 == key@);
            lemma_named_captures_stay(
                before,
                *agent,
                done,
                units_view(units),
                groups.take(i as int),
            );
            assert(!has_key(done, key@)) by {
                assert forall|j: int| 0 <= j < done.len() implies (#[trigger] done[j]).key
                    != key@ by {
                    assert(done[j] == data_property(groups.take(i as int)[j].0, done[j].value));
                    assert(groups[j].0 != groups[i as int].0);
                }
            }
        }
        create_data_property(&mut properties, key, value);
        i = i + 1;
        proof {
            let now = properties_view(properties@);
            assert forall|j: int| 0 <= j < now.len() implies {
                &&& #[trigger] now[j] == data_property(groups.take(i as int)[j].0, now[j].value)
                &&& is_capture(
                    agent.heap,
                    now[j].value,
                    units_view(units),
                    groups.take(i as int)[j].1,
                )
            } by {
                if j < done.len() {
                    assert(now[j] == done[j]);
                    assert(groups.take(i as int)[j] == groups.take(i - 1)[j]);
                }
            }
        }
    }
    assert(groups.take(m.named_groups@.len() as int) =~= groups);
    let ghost before = *agent;
    let ghost all = properties_view(properties@);
    let object: OrdinaryObject = OrdinaryObject::create_object(agent, None, properties);
    proof {
        lemma_named_captures_stay(before, *agent, all, units_view(units), groups);
    }
    Value::Object(Object::Ordinary(object))
}

/// The array that says where everything matched.
///
/// ### 22.2.7.8 MakeMatchIndicesIndexPairArray
fn indices_value(agent: &mut Agent, m: &MatchRecord) -> (r: Value)
    requires
        old(agent).wf(),
        match_in_range(m@, MAX_STRING_LENGTH as nat),
    ensures
        final(agent).wf(),
        old(agent).grows_to(*final(agent)),
        is_indices(final(agent).heap, r, m@),
{
    let elements: Vec<Value> = capture_values(agent, None, m);
    let ghost with_elements = *agent;
    let groups: Value = groups_value(agent, None, m);
    let ghost with_groups = *agent;
    let mut properties: Vec<Property> = Vec::new();
    create_data_property(&mut properties, "groups".to_owned(), groups);
    let a: Array = Array::create_array(agent, elements, properties);
    proof {
        lemma_grows_transitive(with_elements, with_groups, *agent);
        lemma_captures_stay(with_elements, *agent, elements@, None, all_captures(m@));
        lemma_groups_stay(with_groups, *agent, groups, None, m@.named_groups);
    }
    Value::Object(Object::Array(a))
}

/// The keys of a match result are distinct.
proof fn lemma_result_keys()
    ensures
        "index"@ != "input"@,
        "index"@ != "groups"@,
        "input"@ != "groups"@,
        "index"@ != "indices"@,
        "input"@ != "indices"@,
        "groups"@ != "indices"@,
{
    reveal_strlit("index");
    reveal_strlit("input");
    reveal_strlit("groups");
    reveal_strlit("indices");
    assert("index"@.len() == 5 && "input"@.len() == 5);
    assert("groups"@.len() == 6 && "indices"@.len() == 7);
    assert("index"@[2] != "input"@[2]);
}

/// The array that a match results in.
pub fn make_match_result(
    agent: &mut Agent,
    s: JsString,
    units: &[u16],
    m: &MatchRecord,
    has_indices: bool,
) -> (r: Array)
    requires
        old(agent).wf(),
        s.valid(old(agent).heap),
        s.units(old(agent).heap) == units@,
        match_in_range(m@, units@.len()),
    ensures
        final(agent).wf(),
        old(agent).grows_to(*final(agent)),
        is_match_result(final(agent).heap, r, s, units@, m@, has_indices),
        r.index >= old(agent).heap.arrays@.len(),
{
    proof {
        lemma_result_keys();
        assert(agent.heap.strings@[s.index as int] == old(agent).heap.strings@[s.index as int]);
        assert(match_in_range(m@, MAX_STRING_LENGTH as nat));
    }
    let mut properties: Vec<Property> = Vec::new();
    create_data_property(&mut properties, "index".to_owned(), Value::Integer(m.start as i64));
    create_data_property(&mut properties, "input".to_owned(), Value::String(s));
    let elements: Vec<Value> = capture_values(agent, Some(units), m);
    let ghost with_elements = *agent;
    let groups: Value = groups_value(agent, Some(units), m);
    let ghost with_groups = *agent;
    create_data_property(&mut properties, "groups".to_owned(), groups);
    let ghost mut indices: Value = Value::Undefined;
    if has_indices {
        let value: Value = indices_value(agent, m);
        proof {
            indices = value;
        }
        create_data_property(&mut properties, "indices".to_owned(), value);
    }
    let ghost with_indices = *agent;
    let a: Array = Array::create_array(agent, elements, properties);
    proof {
        lemma_captures_stay(with_elements, *agent, elements@, Some(units@), all_captures(m@));
        lemma_groups_stay(with_groups, *agent, groups, Some(units@), m@.named_groups);
        if has_indices {
            lemma_indices_stay(with_indices, *agent, indices, m@);
        }
    }
    a
}

/// The whole match comes first, and then each group as the matcher reported it,
/// an empty one too.
pub proof fn lemma_all_captures(m: MatchModel)
    ensures
        all_captures(m).len() == m.captures.len() + 1,
        all_captures(m)[0] == Some((m.start, m.end)),
        forall|i: int|
            0 <= i < m.captures.len() ==> #[trigger] all_captures(m)[i + 1] == m.captures[i],
{
}

/// The first element of a match result is a string with the code units of the
/// whole match. The element after that of each group is a string with the code
/// units from the start to the end of the group, the empty string where these
/// are the same, and undefined exactly where the group did not take part.
pub proof fn lemma_match_result_elements(
    heap: Heap,
    a: Array,
    s: JsString,
    units: Seq<u16>,
    m: MatchModel,
    has_indices: bool,
)
    requires
        is_match_result(heap, a, s, units, m, has_indices),
    ensures
        ({
            let elements = heap.arrays@[a.index as int].elements@;
            &&& a.index < heap.arrays@.len()
            &&& elements.len() == m.captures.len() + 1
            &&& elements[0] matches Value::String(whole)
            &&& whole.index < heap.strings@.len()
            &&& code_units(heap.strings@[whole.index as int]) == units.subrange(
                m.start as int,
                m.end as int,
            )
            &&& forall|i: int|
                #![trigger m.captures[i]]
                0 <= i < m.captures.len() ==> match m.captures[i] {
                    Some((start, end)) => {
                        &&& elements[i + 1] matches Value::String(part)
                        &&& part.index < heap.strings@.len()
                        &&& code_units(heap.strings@[part.index as int]) == units.subrange(
                            start as int,
                            end as int,
                        )
                    },
                    None => elements[i + 1] == Value::Undefined,
                }
        }),
{
    let elements = a.data(heap).elements@;
    assert(is_capture(heap, elements[0], Some(units), all_captures(m)[0]));
    assert forall|i: int|
        #![trigger m.captures[i]]
        0 <= i < m.captures.len() implies is_substring(
        heap,
        elements[i + 1],
        units,
        m.captures[i],
    ) by {
        assert(is_capture(heap, elements[i + 1], Some(units), all_captures(m)[i + 1]));
    }
}

/// The properties of a match result, in order: "index" is where the match
/// began, "input" is the string that was searched, then comes "groups", and
/// "indices" is there exactly if it was asked for. All are writable, enumerable
/// and configurable.
pub proof fn lemma_match_result_properties(
    heap: Heap,
    a: Array,
    s: JsString,
    units: Seq<u16>,
    m: MatchModel,
    has_indices: bool,
)
    requires
        is_match_result(heap, a, s, units, m, has_indices),
    ensures
        ({
            let properties = heap.arrays@[a.index as int].properties@;
            &&& properties.len() == if has_indices {
                4int
            } else {
                3int
            }
            &&& properties[0].key@ == "index"@
            &&& properties[0].value == Value::Integer(m.start as i64)
            &&& properties[1].key@ == "input"@
            &&& properties[1].value == Value::String(s)
            &&& properties[2].key@ == "groups"@
            &&& has_indices ==> properties[3].key@ == "indices"@
            &&& forall|i: int|
                0 <= i < properties.len() ==> (#[trigger] properties[i]).writable
                    && properties[i].enumerable && properties[i].configurable
        }),
{
    let properties = a.data(heap).properties@;
    let view = properties_view(properties);
    assert(view[0] == properties[0]@);
    assert(view[1] == properties[1]@);
    assert(view[2] == properties[2]@);
    if has_indices {
        assert(view[3] == properties[3]@);
    }
}

/// The "groups" of a match result are undefined if no group is named. Otherwise
/// they are an object without prototype that has one property for each named
/// group, in order: its key is the name, and its value is a string with the code
/// units of the group, the empty string where it matched nothing, and undefined
/// exactly where it did not take part.
pub proof fn lemma_match_result_groups(
    heap: Heap,
    a: Array,
    s: JsString,
    units: Seq<u16>,
    m: MatchModel,
    has_indices: bool,
)
    requires
        is_match_result(heap, a, s, units, m, has_indices),
    ensures
        ({
            let groups = heap.arrays@[a.index as int].properties@[2].value;
            &&& m.named_groups.len() == 0 ==> groups == Value::Undefined
            &&& m.named_groups.len() > 0 ==> {
                &&& groups matches Value::Object(Object::Ordinary(o))
                &&& o.index < heap.objects@.len()
                &&& heap.objects@[o.index as int].prototype is None
                &&& heap.objects@[o.index as int].properties@.len() == m.named_groups.len()
                &&& forall|i: int|
                    #![trigger m.named_groups[i]]
                    0 <= i < m.named_groups.len() ==> {
                        let property = heap.objects@[o.index as int].properties@[i];
                        &&& property.key@ == m.named_groups[i].0
                        &&& property.writable && property.enumerable && property.configurable
                        &&& match m.named_groups[i].1 {
                            Some((start, end)) => {
                                &&& property.value matches Value::String(part)
                                &&& part.index < heap.strings@.len()
                                &&& code_units(heap.strings@[part.index as int])
                                    == units.subrange(start as int, end as int)
                            },
                            None => property.value == Value::Undefined,
                        }
                    }
            }
        }),
{
    let properties = a.data(heap).properties@;
    assert(properties_view(properties)[2] == properties[2]@);
    if let Value::Object(Object::Ordinary(o)) = properties[2].value {
        let view = properties_view(o.data(heap).properties@);
        assert forall|i: int|
            #![trigger m.named_groups[i]]
            0 <= i < m.named_groups.len() && m.named_groups.len() > 0 implies {
            &&& o.data(heap).properties@[i]@ == data_property(
                m.named_groups[i].0,
                o.data(heap).properties@[i].value,
            )
            &&& is_substring(
                heap,
                o.data(heap).properties@[i].value,
                units,
                m.named_groups[i].1,
            )
        } by {
            assert(view[i] == o.data(heap).properties@[i]@);
            assert(is_capture(heap, view[i].value, Some(units), m.named_groups[i].1));
        }
    }
}

/// The elements of the "indices" of a match result are arrays of a start and an
/// end: first of the whole match, then of each group, an empty one too. Such an
/// element is undefined exactly where the group did not take part.
pub proof fn lemma_match_result_indices(
    heap: Heap,
    a: Array,
    s: JsString,
    units: Seq<u16>,
    m: MatchModel,
)
    requires
        is_match_result(heap, a, s, units, m, true),
    ensures
        ({
            &&& heap.arrays@[a.index as int].properties@[3].value matches Value::Object(
                Object::Array(indices),
            )
            &&& indices.index < heap.arrays@.len()
            &&& ({
                let elements = heap.arrays@[indices.index as int].elements@;
                &&& elements.len() == m.captures.len() + 1
                &&& elements[0] matches Value::Object(Object::Array(whole))
                &&& whole.index < heap.arrays@.len()
                &&& heap.arrays@[whole.index as int].elements@ == seq![
                    Value::Integer(m.start as i64),
                    Value::Integer(m.end as i64),
                ]
                &&& heap.arrays@[whole.index as int].properties@.len() == 0
                &&& forall|i: int|
                    #![trigger m.captures[i]]
                    0 <= i < m.captures.len() ==> match m.captures[i] {
                        Some((start, end)) => {
                            &&& elements[i + 1] matches Value::Object(Object::Array(pair))
                            &&& pair.index < heap.arrays@.len()
                            &&& heap.arrays@[pair.index as int].elements@ == seq![
                                Value::Integer(start as i64),
                                Value::Integer(end as i64),
                            ]
                            &&& heap.arrays@[pair.index as int].properties@.len() == 0
                        },
                        None => elements[i + 1] == Value::Undefined,
                    }
            })
        }),
{
    let properties = a.data(heap).properties@;
    assert(properties_view(properties)[3] == properties[3]@);
    if let Value::Object(Object::Array(indices)) = properties[3].value {
        let elements = indices.data(heap).elements@;
        assert(is_capture(heap, elements[0], None, all_captures(m)[0]));
        if let Value::Object(Object::Array(whole)) = elements[0] {
            assert(whole.data(heap).elements@ =~= seq![
                Value::Integer(m.start as i64),
                Value::Integer(m.end as i64),
            ]);
        }
        assert forall|i: int|
            #![trigger m.captures[i]]
            0 <= i < m.captures.len() implies match m.captures[i] {
            Some((start, end)) => {
                &&& elements[i + 1] matches Value::Object(Object::Array(pair))
                &&& pair.index < heap.arrays@.len()
                &&& heap.arrays@[pair.index as int].elements@ == seq![
                    Value::Integer(start as i64),
                    Value::Integer(end as i64),
                ]
                &&& heap.arrays@[pair.index as int].properties@.len() == 0
            },
            None => elements[i + 1] == Value::Undefined,
        } by {
            assert(is_capture(heap, elements[i + 1], None, all_captures(m)[i + 1]));
            if let (Some((start, end)), Value::Object(Object::Array(pair))) = (
                m.captures[i],
                elements[i + 1],
            ) {
                assert(pair.data(heap).elements@ =~= seq![
                    Value::Integer(start as i64),
                    Value::Integer(end as i64),
                ]);
            }
        }
    }
}

/// The "indices" of a match result have one property, "groups". It is undefined
/// if no group is named. Otherwise it is an object without prototype that has
/// one property for each named group, in order: its key is the name, and its
/// value is an array of the start and the end of the group, and undefined
/// exactly where it did not take part.
pub proof fn lemma_match_result_indices_groups(
    heap: Heap,
    a: Array,
    s: JsString,
    units: Seq<u16>,
    m: MatchModel,
)
    requires
        is_match_result(heap, a, s, units, m, true),
    ensures
        ({
            &&& heap.arrays@[a.index as int].properties@[3].value matches Value::Object(
                Object::Array(indices),
            )
            &&& heap.arrays@[indices.index as int].properties@.len() == 1
            &&& ({
                let property = heap.arrays@[indices.index as int].properties@[0];
                &&& property.key@ == "groups"@
                &&& property.writable && property.enumerable && property.configurable
                &&& m.named_groups.len() == 0 ==> property.value == Value::Undefined
                &&& m.named_groups.len() > 0 ==> {
                    &&& property.value matches Value::Object(Object::Ordinary(o))
                    &&& o.index < heap.objects@.len()
                    &&& heap.objects@[o.index as int].prototype is None
                    &&& heap.objects@[o.index as int].properties@.len() == m.named_groups.len()
                    &&& forall|i: int|
                        #![trigger m.named_groups[i]]
                        0 <= i < m.named_groups.len() ==> {
                            let group = heap.objects@[o.index as int].properties@[i];
                            &&& group.key@ == m.named_groups[i].0
                            &&& group.writable && group.enumerable && group.configurable
                            &&& match m.named_groups[i].1 {
                                Some((start, end)) => {
                                    &&& group.value matches Value::Object(Object::Array(pair))
                                    &&& pair.index < heap.arrays@.len()
                                    &&& heap.arrays@[pair.index as int].elements@.len() == 2
                                    &&& heap.arrays@[pair.index as int].elements@[0]
                                        == Value::Integer(start as i64)
                                    &&& heap.arrays@[pair.index as int].elements@[1]
                                        == Value::Integer(end as i64)
                                },
                                None => group.value == Value::Undefined,
                            }
                        }
                }
            })
        }),
{
    let properties = a.data(heap).properties@;
    assert(properties_view(properties)[3] == properties[3]@);
    if let Value::Object(Object::Array(indices)) = properties[3].value {
        let of_indices = indices.data(heap).properties@;
        assert(properties_view(of_indices)[0] == of_indices[0]@);
        if let Value::Object(Object::Ordinary(o)) = of_indices[0].value {
            let view = properties_view(o.data(heap).properties@);
            assert forall|i: int|
                #![trigger m.named_groups[i]]
                0 <= i < m.named_groups.len() && m.named_groups.len() > 0 implies {
                &&& o.data(heap).properties@[i]@ == data_property(
                    m.named_groups[i].0,
                    o.data(heap).properties@[i].value,
                )
                &&& is_index_pair(
                    heap,
                    o.data(heap).properties@[i].value,
                    m.named_groups[i].1,
                )
            } by {
                assert(view[i] == o.data(heap).properties@[i]@);
                assert(is_capture(heap, view[i].value, None, m.named_groups[i].1));
            }
        }
    }
}

} // verus!
