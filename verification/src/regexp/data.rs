//! The heap data of regular expressions.

use regress::Regex;
use vstd::prelude::*;
use wtf8::Wtf8Buf;

use crate::heap::{
    extends, find_property, has_key, lemma_property_of, lemma_with_value, properties_view,
    property_of, with_value, Agent, Heap, Property, PropertyModel,
};
use crate::regexp::flags::{
    compile_flags_text, flag_names, lemma_compile_flags_letters, lemma_flag_names, names,
    RegExpFlags,
};
use crate::regexp::last_index::RegExpLastIndex;
use crate::regexp::matcher::{
    is_compilation, lemma_pattern_code_points, lemma_pattern_is_read_by_mode, pattern_code_points,
    regress_compile, Matcher,
};
use crate::utf16::{
    char_code_points, decode_lossy, encode, encode_code_point, encode_utf16, lemma_encode_concat,
    lemma_encode_narrow, unit_code_points,
};
use crate::values::{JsString, Object, OrdinaryObject, PropertyDescriptor, RegExp, Value};
use crate::wtf8_buf::{code_units, push_wtf8};

verus! {

/// The data of a regular expression object.
#[derive(Debug)]
pub struct RegExpHeapData {
    pub object_index: Option<OrdinaryObject>,
    /// ### \[\[RegExpMatcher]]
    ///
    /// The compiled pattern, or the message that says why there is none.
    pub reg_exp_matcher: Result<Matcher, String>,
    /// ### \[\[OriginalSource]]
    pub original_source: JsString,
    /// ### \[\[OriginalFlags]]
    pub original_flags: RegExpFlags,
    pub last_index: RegExpLastIndex,
}

/// The text of a regular expression literal: the source between slashes, and
/// the names of the flags.
pub open spec fn regexp_string(source: Seq<u16>, flags: RegExpFlags) -> Seq<u16> {
    seq![0x2Fu16] + source + seq![0x2Fu16] + encode(flag_names(flags.bits))
}

impl RegExpHeapData {
    /// Whether the data is consistent: its handles point into the heap, the
    /// backing object has the "lastIndex" property, and the matcher, if there
    /// is one, was compiled from the source and flags.
    pub open spec fn wf(self, heap: Heap) -> bool {
        &&& heap.has_backing(self.object_index)
        &&& (self.object_index matches Some(o) ==> has_key(
            properties_view(o.data(heap).properties@),
            "lastIndex"@,
        ))
        &&& self.original_source.valid(heap)
        &&& (self.reg_exp_matcher matches Ok(matcher) ==> {
            &&& matcher.pattern() == pattern_code_points(
                decode_lossy(self.original_source.units(heap)),
                self.original_flags,
            )
            &&& matcher.flags() == compile_flags_text(self.original_flags.bits)
        })
    }

    /// Whether `matcher` is what compiling a source with flags gives.
    pub open spec fn is_matcher(
        matcher: Result<Matcher, String>,
        source: Seq<char>,
        flags: RegExpFlags,
    ) -> bool {
        is_compilation(
            matcher,
            pattern_code_points(source, flags),
            compile_flags_text(flags.bits),
        )
    }

    /// Compiles a pattern.
    ///
    /// In Unicode mode the pattern is interpreted as code points; otherwise as
    /// UTF-16 code units, so a non-BMP literal in the pattern matches the
    /// surrogate-pair code units of the haystack.
    pub fn compile_pattern(pattern: &str, flags: RegExpFlags) -> (r: Result<Matcher, String>)
        ensures
            Self::is_matcher(r, pattern@, flags),
    {
        let regress_flags: String = flags.compile_flags();
        let code_points: Vec<u32> = if flags.full_unicode() {
            char_code_points(pattern)
        } else {
            let units: Vec<u16> = encode_utf16(pattern);
            unit_code_points(units.as_slice())
        };
        proof {
            lemma_pattern_code_points(pattern@, flags);
        }
        Matcher::compile(code_points, regress_flags)
    }

    /// The data of a regular expression literal.
    pub fn new(agent: &Agent, source: JsString, flags: RegExpFlags) -> (r: Self)
        requires
            source.valid(agent.heap),
        ensures
            r.wf(agent.heap),
            r.object_index is None,
            Self::is_matcher(
                r.reg_exp_matcher,
                decode_lossy(source.units(agent.heap)),
                flags,
            ),
            r.original_source == source,
            r.original_flags == flags,
            r.last_index.raw == 0,
    {
        let text: String = source.to_string_lossy(agent);
        let reg_exp_matcher: Result<Matcher, String> = Self::compile_pattern(text.as_str(), flags);
        RegExpHeapData {
            object_index: None,
            reg_exp_matcher,
            original_source: source,
            original_flags: flags,
            last_index: RegExpLastIndex::zero(),
        }
    }

    /// The literal that stands for the regular expression.
    pub fn create_regexp_string(&self, agent: &Agent) -> (r: Wtf8Buf)
        requires
            self.wf(agent.heap),
        ensures
            code_units(r) == regexp_string(
                self.original_source.units(agent.heap),
                self.original_flags,
            ),
    {
        let mut regexp_string: Wtf8Buf = Wtf8Buf::new();
        regexp_string.push_char('/');
        push_wtf8(&mut regexp_string, &agent.heap.strings[self.original_source.index]);
        regexp_string.push_char('/');
        let ghost start = code_units(regexp_string);
        let ghost bits = self.original_flags.bits;
        assert(start =~= seq![0x2Fu16] + self.original_source.units(agent.heap) + seq![0x2Fu16])
            by {
            assert(encode_code_point('/' as u32) =~= seq![0x2Fu16]);
        }
        let flags: Vec<String> = names(self.original_flags.bits);
        let mut i: usize = 0;
        assert(flag_names(bits).take(0) =~= Seq::<char>::empty());
        while i < flags.len()
            invariant
                i <= flags@.len(),
                flags@.len() == flag_names(bits).len(),
                forall|j: int|
                    0 <= j < flags@.len() ==> (#[trigger] flags@[j])@ == seq![flag_names(bits)[j]],
                code_units(regexp_string) == start + encode(flag_names(bits).take(i as int)),
            decreases flags@.len() - i,
        {
            regexp_string.push_str(flags[i].as_str());
            proof {
                let done = flag_names(bits).take(i as int);
                assert(flag_names(bits).take(i + 1) =~= done + seq![flag_names(bits)[i as int]]);
                lemma_encode_concat(done, seq![flag_names(bits)[i as int]]);
                assert(start + (encode(done) + encode(seq![flag_names(bits)[i as int]])) =~= start
                    + encode(done) + encode(seq![flag_names(bits)[i as int]]));
            }
            i = i + 1;
        }
        assert(flag_names(bits).take(flags@.len() as int) =~= flag_names(bits));
        regexp_string
    }
}

impl Default for RegExpHeapData {
    /// A regular expression that was not initialized: it never matches.
    fn default() -> (r: Self)
        ensures
            r.object_index is None,
            r.reg_exp_matcher matches Err(message) && message@ == Seq::<char>::empty(),
            r.original_source.index == 0,
            r.original_flags.bits == 0,
            r.last_index.raw == u32::MAX,
    {
        RegExpHeapData {
            object_index: None,
            reg_exp_matcher: Err(String::new()),
            original_source: JsString::empty(),
            original_flags: RegExpFlags::empty(),
            last_index: RegExpLastIndex::default(),
        }
    }
}

impl RegExp {
    pub open spec fn valid(self, heap: Heap) -> bool {
        self.index < heap.regexps@.len()
    }

    pub open spec fn data(self, heap: Heap) -> RegExpHeapData {
        heap.regexps@[self.index as int]
    }

    /// The "lastIndex" property of the backing object.
    pub open spec fn backing_last_index(self, heap: Heap) -> Option<PropertyModel> {
        match self.data(heap).object_index {
            Some(o) => Some(
                property_of(properties_view(o.data(heap).properties@), "lastIndex"@),
            ),
            None => None,
        }
    }

    /// Whether the "lastIndex" property can be written. Without a backing
    /// object it can.
    pub open spec fn last_index_writable(self, heap: Heap) -> bool {
        match self.backing_last_index(heap) {
            Some(property) => property.writable,
            None => true,
        }
    }

    /// Whether `after` is `before` but for the data of this regular expression,
    /// which is `data`, and the ordinary objects, which are not spoken of.
    pub open spec fn data_replaced(self, before: Agent, after: Agent, data: RegExpHeapData) -> bool {
        &&& after.heap.regexps@ == before.heap.regexps@.update(self.index as int, data)
        &&& after.heap.strings == before.heap.strings
        &&& after.heap.arrays == before.heap.arrays
        &&& after.heap.embedder_objects == before.heap.embedder_objects
        &&& after.heap.weak_refs == before.heap.weak_refs
        &&& before.same_state(after)
    }

    /// Whether `after` is `before` with another stored index.
    pub open spec fn last_index_stored(
        self,
        before: Agent,
        after: Agent,
        last_index: RegExpLastIndex,
    ) -> bool {
        &&& self.data_replaced(
            before,
            after,
            RegExpHeapData { last_index, ..self.data(before.heap) },
        )
        &&& after.heap.objects == before.heap.objects
    }

    /// Whether `after` is `before` with `value` in the "lastIndex" property of
    /// the backing object, if there is one. Only the ordinary objects are
    /// spoken of.
    pub open spec fn backing_last_index_set(self, before: Heap, after: Heap, value: Value) -> bool {
        match self.data(before).object_index {
            Some(o) => {
                &&& after.objects@.len() == before.objects@.len()
                &&& forall|i: int|
                    0 <= i < before.objects@.len() && i != o.index ==> #[trigger] after.objects@[i]
                        == before.objects@[i]
                &&& o.data(after).prototype == o.data(before).prototype
                &&& properties_view(o.data(after).properties@) == with_value(
                    properties_view(o.data(before).properties@),
                    "lastIndex"@,
                    value,
                )
            },
            None => after.objects == before.objects,
        }
    }

    /// The flags.
    pub fn original_flags(self, agent: &Agent) -> (r: RegExpFlags)
        requires
            self.valid(agent.heap),
        ensures
            r == self.data(agent.heap).original_flags,
    {
        agent.heap.regexps[self.index].original_flags
    }

    /// The index that is stored, if one is.
    pub fn try_get_last_index(self, agent: &Agent) -> (r: Option<u32>)
        requires
            self.valid(agent.heap),
        ensures
            r == self.data(agent.heap).last_index.spec_get_value(),
    {
        agent.heap.regexps[self.index].last_index.get_value()
    }

    /// Stores an index in place, whatever the backing object says.
    pub(crate) fn store_last_index(self, agent: &mut Agent, last_index: RegExpLastIndex)
        requires
            old(agent).wf(),
            self.valid(old(agent).heap),
        ensures
            final(agent).wf(),
            self.last_index_stored(*old(agent), *final(agent), last_index),
    {
        agent.heap.regexps[self.index].last_index = last_index;
        proof {
            let before = old(agent).heap;
            assert forall|i: int| 0 <= i < agent.heap.regexps@.len() implies (
            #[trigger] agent.heap.regexps@[i]).wf(agent.heap) by {
                assert(before.regexps@[i].wf(before));
            }
        }
    }

    /// Sets the "lastIndex" property and says whether that was possible.
    ///
    /// The property is an unconfigurable data property: setting it never runs
    /// any code.
    pub fn set_last_index(self, agent: &mut Agent, last_index: RegExpLastIndex) -> (r: bool)
        requires
            old(agent).wf(),
            self.valid(old(agent).heap),
        ensures
            final(agent).wf(),
            r == self.last_index_writable(old(agent).heap),
            !r ==> *final(agent) == *old(agent),
            r ==> self.data_replaced(
                *old(agent),
                *final(agent),
                (RegExpHeapData { last_index, ..self.data(old(agent).heap) }),
            ),
            r ==> self.backing_last_index_set(
                old(agent).heap,
                final(agent).heap,
                last_index.property_value(),
            ),
    {
        match agent.heap.regexps[self.index].object_index {
            Some(backing_object) => {
                assert(self.data(old(agent).heap).wf(old(agent).heap));
                if !set_backing_last_index(
                    agent,
                    self,
                    backing_object,
                    last_index.into_property_value(),
                ) {
                    return false;
                }
            },
            None => {},
        }
        self.store_last_index(agent, last_index);
        true
    }

    /// The prototype that the regular expression has.
    pub open spec fn spec_internal_prototype(self, agent: Agent) -> Option<Object> {
        match self.data(agent.heap).object_index {
            Some(backing_object) => backing_object.data(agent.heap).prototype,
            None => Some(agent.spec_realm().reg_exp_prototype),
        }
    }

    /// The prototype: that of the backing object, or else `%RegExp.prototype%`
    /// of the current realm.
    pub fn internal_prototype(self, agent: &Agent) -> (r: Option<Object>)
        requires
            agent.wf(),
            self.valid(agent.heap),
        ensures
            r == self.spec_internal_prototype(*agent),
    {
        match agent.heap.regexps[self.index].object_index {
            Some(backing_object) => {
                assert(self.data(agent.heap).wf(agent.heap));
                backing_object.internal_prototype(agent)
            },
            None => Some(agent.current_realm_record().reg_exp_prototype),
        }
    }

    /// Creates the object that stores the properties.
    pub fn create_backing_object(self, agent: &mut Agent) -> (r: OrdinaryObject)
        requires
            old(agent).wf(),
            self.valid(old(agent).heap),
            self.data(old(agent).heap).object_index is None,
        ensures
            final(agent).wf(),
            r.index == old(agent).heap.objects@.len(),
            self.data_replaced(
                *old(agent),
                *final(agent),
                (RegExpHeapData { object_index: Some(r), ..self.data(old(agent).heap) }),
            ),
            final(agent).heap.objects@.len() == old(agent).heap.objects@.len() + 1,
            extends(old(agent).heap.objects@, final(agent).heap.objects@),
            r.data(final(agent).heap).prototype == Some(
                old(agent).spec_realm().reg_exp_prototype,
            ),
            properties_view(r.data(final(agent).heap).properties@) == seq![
                self.data(old(agent).heap).last_index.initial_property(),
            ],
    {
        let prototype: Option<Object> = self.internal_prototype(agent);
        let descriptor: PropertyDescriptor =
            agent.heap.regexps[self.index].last_index.into_property_descriptor();
        let mut properties: Vec<Property> = Vec::new();
        properties.push(descriptor.into_data_property("lastIndex".to_owned()));
        assert(properties_view(properties@) =~= seq![
            self.data(old(agent).heap).last_index.initial_property(),
        ]);
        let backing_object: OrdinaryObject = OrdinaryObject::create_object(
            agent,
            prototype,
            properties,
        );
        let ghost middle = agent.heap;
        agent.heap.regexps[self.index].object_index = Some(backing_object);
        proof {
            assert(properties_view(
                backing_object.data(agent.heap).properties@,
            )[0].key == "lastIndex"@);
            assert forall|i: int| 0 <= i < agent.heap.regexps@.len() implies (
            #[trigger] agent.heap.regexps@[i]).wf(agent.heap) by {
                assert(middle.regexps@[i].wf(middle));
            }
        }
        backing_object
    }
}

impl RegExpLastIndex {
    /// The "lastIndex" property that a new backing object has.
    pub open spec fn initial_property(self) -> PropertyModel {
        PropertyModel {
            key: "lastIndex"@,
            value: self.property_value(),
            writable: true,
            enumerable: false,
            configurable: false,
        }
    }
}

/// Sets the "lastIndex" property of the backing object of `r`, unless it is
/// read-only.
fn set_backing_last_index(
    agent: &mut Agent,
    r: RegExp,
    backing_object: OrdinaryObject,
    value: Value,
) -> (done: bool)
    requires
        old(agent).wf(),
        r.valid(old(agent).heap),
        r.data(old(agent).heap).object_index == Some(backing_object),
    ensures
        final(agent).wf(),
        done == r.last_index_writable(old(agent).heap),
        !done ==> *final(agent) == *old(agent),
        done ==> r.backing_last_index_set(old(agent).heap, final(agent).heap, value),
        final(agent).heap.regexps == old(agent).heap.regexps,
        final(agent).heap.strings == old(agent).heap.strings,
        final(agent).heap.arrays == old(agent).heap.arrays,
        final(agent).heap.embedder_objects == old(agent).heap.embedder_objects,
        final(agent).heap.weak_refs == old(agent).heap.weak_refs,
        old(agent).same_state(*final(agent)),
{
    let ghost before = agent.heap;
    let ghost view = properties_view(backing_object.data(before).properties@);
    assert(r.data(before).wf(before));
    let key: String = "lastIndex".to_owned();
    let position: Option<usize> = find_property(
        &agent.heap.objects[backing_object.index].properties,
        &key,
    );
    match position {
        Some(i) => {
            if !agent.heap.objects[backing_object.index].properties[i].writable {
                return false;
            }
            agent.heap.objects[backing_object.index].properties[i].value = value;
            proof {
                let after = agent.heap;
                let new_view = properties_view(backing_object.data(after).properties@);
                assert(new_view =~= with_value(view, "lastIndex"@, value));
                assert(new_view[i as int].key == "lastIndex"@);
                assert forall|j: int| 0 <= j < after.regexps@.len() implies (
                #[trigger] after.regexps@[j]).wf(after) by {
                    assert(before.regexps@[j].wf(before));
                }
            }
            true
        },
        None => {
            assert(false);
            false
        },
    }
}

/// The literal of a regular expression is a slash, the source, a slash, and the
/// names of the flags.
pub proof fn lemma_regexp_string(source: Seq<u16>, flags: RegExpFlags)
    ensures
        ({
            let literal = regexp_string(source, flags);
            let names = flag_names(flags.bits);
            &&& literal.len() == source.len() + names.len() + 2
            &&& literal[0] == '/' as int
            &&& literal.subrange(1, 1 + source.len() as int) == source
            &&& literal[1 + source.len() as int] == '/' as int
            &&& forall|i: int|
                #![trigger names[i]]
                0 <= i < names.len() ==> literal[source.len() + 2 + i] == names[i] as int
        }),
{
    let names = flag_names(flags.bits);
    assert forall|i: int| 0 <= i < names.len() implies (#[trigger] names[i]) as int <= 0xFFFF by {
        lemma_flag_name_is_narrow(flags.bits, i);
    }
    lemma_encode_narrow(names);
    let literal = regexp_string(source, flags);
    assert(literal.subrange(1, 1 + source.len() as int) =~= source);
    assert forall|i: int|
        #![trigger names[i]]
        0 <= i < names.len() implies literal[source.len() + 2 + i] == names[i] as int by {
        assert(literal[source.len() + 2 + i] == encode(names)[i]);
    }
}

/// The name of a flag lies below U+10000.
proof fn lemma_flag_name_is_narrow(bits: u8, i: int)
    requires
        0 <= i < flag_names(bits).len(),
    ensures
        flag_names(bits)[i] as int <= 0xFFFF,
{
    assert(flag_names(bits).contains(flag_names(bits)[i]));
    lemma_flag_names(
        bits,
        |c: char|
            if c == 'G' {
                0x01int
            } else if c == 'I' {
                0x02
            } else if c == 'M' {
                0x04
            } else if c == 'S' {
                0x08
            } else if c == 'U' {
                0x10
            } else if c == 'Y' {
                0x20
            } else if c == 'D' {
                0x40
            } else {
                0x80
            },
    );
}

/// A pattern is compiled from its scalar values with the flag `u` or `v`, and
/// from its code units without both, and with those of the flags i, m, s, u and v
/// that are set, in alphabetical order. The matcher is what the engine makes of
/// these.
pub proof fn lemma_matcher_of_source(
    matcher: Result<Matcher, String>,
    source: Seq<char>,
    flags: RegExpFlags,
    pattern: Seq<u32>,
    text: Seq<char>,
)
    requires
        RegExpHeapData::is_matcher(matcher, source, flags),
        flags.bits & 0x10 != 0 || flags.bits & 0x80 != 0 ==> pattern.len() == source.len()
            && forall|i: int| 0 <= i < source.len() ==> #[trigger] pattern[i] == source[i] as int,
        flags.bits & 0x10 == 0 && flags.bits & 0x80 == 0 ==> pattern.len() == encode(source).len()
            && forall|i: int|
            0 <= i < pattern.len() ==> #[trigger] pattern[i] == encode(source)[i],
        text.contains('i') <==> flags.bits & 0x02 != 0,
        text.contains('m') <==> flags.bits & 0x04 != 0,
        text.contains('s') <==> flags.bits & 0x08 != 0,
        text.contains('u') <==> flags.bits & 0x10 != 0,
        text.contains('v') <==> flags.bits & 0x80 != 0,
        forall|c: char| #[trigger]
            text.contains(c) ==> c == 'i' || c == 'm' || c == 's' || c == 'u' || c == 'v',
        forall|i: int, j: int|
            0 <= i < j < text.len() ==> (#[trigger] text[i]) < (#[trigger] text[j]),
    ensures
        match matcher {
            Ok(compiled) => regress_compile(pattern, text) == Ok::<Regex, Seq<char>>(
                compiled.regex(),
            ),
            Err(message) => regress_compile(pattern, text) == Err::<Regex, Seq<char>>(message@),
        },
{
    lemma_pattern_is_read_by_mode(source, flags);
    assert(pattern =~= pattern_code_points(source, flags));
    lemma_compile_flags_letters(flags.bits);
    let letters = compile_flags_text(flags.bits);
    assert forall|c: char| text.contains(c) == #[trigger] letters.contains(c) by {
        assert(text.contains(c) ==> c == 'i' || c == 'm' || c == 's' || c == 'u' || c == 'v');
    }
    lemma_ascending_texts_are_equal(text, letters);
}

/// Texts in strictly ascending order that hold the same characters are the same.
proof fn lemma_ascending_texts_are_equal(a: Seq<char>, b: Seq<char>)
    requires
        forall|i: int, j: int| 0 <= i < j < a.len() ==> (#[trigger] a[i]) < (#[trigger] a[j]),
        forall|i: int, j: int| 0 <= i < j < b.len() ==> (#[trigger] b[i]) < (#[trigger] b[j]),
        forall|c: char| a.contains(c) == #[trigger] b.contains(c),
    ensures
        a == b,
    decreases a.len() + b.len(),
{
    if a.len() == 0 || b.len() == 0 {
        if a.len() > 0 {
            assert(a.contains(a[0]));
            assert(b.contains(a[0]));
        }
        if b.len() > 0 {
            assert(b.contains(b[0]));
        }
        assert(a =~= b);
    } else {
        let (c, d) = (a.last(), b.last());
        assert(a.contains(c) && b.contains(d));
        assert(b.contains(c));
        let i = choose|i: int| 0 <= i < b.len() && b[i] == c;
        let j = choose|j: int| 0 <= j < a.len() && a[j] == d;
        assert(c == d) by {
            assert(i < b.len() - 1 ==> b[i] < b[b.len() - 1]);
            assert(j < a.len() - 1 ==> a[j] < a[a.len() - 1]);
        }
        let (shorter_a, shorter_b) = (a.drop_last(), b.drop_last());
        assert forall|x: char| shorter_a.contains(x) == #[trigger] shorter_b.contains(x) by {
            assert(a.contains(x) == b.contains(x));
            if shorter_a.contains(x) {
                let k = choose|k: int| 0 <= k < shorter_a.len() && shorter_a[k] == x;
                assert(a[k] == x && a[k] < a[a.len() - 1]);
                assert(a.contains(x));
                let l = choose|l: int| 0 <= l < b.len() && b[l] == x;
                assert(shorter_b[l] == x);
            }
            if shorter_b.contains(x) {
                let k = choose|k: int| 0 <= k < shorter_b.len() && shorter_b[k] == x;
                assert(b[k] == x && b[k] < b[b.len() - 1]);
                assert(b.contains(x));
                let l = choose|l: int| 0 <= l < a.len() && a[l] == x;
                assert(shorter_a[l] == x);
            }
        }
        lemma_ascending_texts_are_equal(shorter_a, shorter_b);
        assert(a =~= shorter_a.push(c));
        assert(b =~= shorter_b.push(d));
    }
}

/// The prototype of a regular expression with a backing object is that of the
/// backing object, whatever that is and whichever realm is current. Without a
/// backing object it is that of regular expressions in the current realm.
pub proof fn lemma_regexp_prototype(r: RegExp, agent: Agent, elsewhere: Agent)
    requires
        elsewhere.heap == agent.heap,
    ensures
        agent.heap.regexps@[r.index as int].object_index matches Some(o) ==> {
            &&& r.spec_internal_prototype(agent) == agent.heap.objects@[o.index as int].prototype
            &&& r.spec_internal_prototype(elsewhere) == r.spec_internal_prototype(agent)
        },
        agent.heap.regexps@[r.index as int].object_index is None
            ==> r.spec_internal_prototype(agent) == Some(
            agent.realms@[agent.current_realm as int].reg_exp_prototype,
        ),
{
}

/// A regular expression without a backing object has a writable "lastIndex".
/// With one, its first property of that name says whether it is writable.
pub proof fn lemma_last_index_writable(r: RegExp, heap: Heap, i: int)
    ensures
        heap.regexps@[r.index as int].object_index is None ==> r.last_index_writable(heap),
        heap.regexps@[r.index as int].object_index matches Some(o) ==> {
            let properties = heap.objects@[o.index as int].properties@;
            0 <= i < properties.len() && properties[i].key@ == "lastIndex"@ && (forall|j: int|
                0 <= j < i ==> (#[trigger] properties[j]).key@ != "lastIndex"@)
                ==> r.last_index_writable(heap) == properties[i].writable
        },
{
    if let Some(o) = heap.regexps@[r.index as int].object_index {
        let properties = heap.objects@[o.index as int].properties@;
        if 0 <= i < properties.len() && properties[i].key@ == "lastIndex"@ && (forall|j: int|
            0 <= j < i ==> (#[trigger] properties[j]).key@ != "lastIndex"@) {
            lemma_property_of(properties, "lastIndex"@, i);
        }
    }
}

/// Setting the "lastIndex" of the backing object changes the value of its first
/// property of that name and nothing else of any object. Without a backing
/// object nothing changes.
pub proof fn lemma_backing_last_index_set(
    r: RegExp,
    before: Heap,
    after: Heap,
    value: Value,
    i: int,
)
    requires
        r.backing_last_index_set(before, after, value),
    ensures
        before.regexps@[r.index as int].object_index is None ==> after.objects == before.objects,
        before.regexps@[r.index as int].object_index matches Some(o) ==> {
            let old_properties = before.objects@[o.index as int].properties@;
            let new_properties = after.objects@[o.index as int].properties@;
            &&& after.objects@.len() == before.objects@.len()
            &&& forall|j: int|
                0 <= j < before.objects@.len() && j != o.index ==> #[trigger] after.objects@[j]
                    == before.objects@[j]
            &&& after.objects@[o.index as int].prototype
                == before.objects@[o.index as int].prototype
            &&& 0 <= i < old_properties.len() && old_properties[i].key@ == "lastIndex"@ && (
            forall|j: int| 0 <= j < i ==> (#[trigger] old_properties[j]).key@ != "lastIndex"@) ==> {
                &&& new_properties.len() == old_properties.len()
                &&& new_properties[i].value == value
                &&& forall|j: int|
                    #![trigger new_properties[j]]
                    0 <= j < old_properties.len() ==> {
                        &&& new_properties[j].key@ == old_properties[j].key@
                        &&& j != i ==> new_properties[j].value == old_properties[j].value
                        &&& new_properties[j].writable == old_properties[j].writable
                        &&& new_properties[j].enumerable == old_properties[j].enumerable
                        &&& new_properties[j].configurable == old_properties[j].configurable
                    }
            }
        },
{
    if let Some(o) = before.regexps@[r.index as int].object_index {
        let old_properties = before.objects@[o.index as int].properties@;
        let new_properties = after.objects@[o.index as int].properties@;
        if 0 <= i < old_properties.len() && old_properties[i].key@ == "lastIndex"@ && (forall|
            j: int,
        | 0 <= j < i ==> (#[trigger] old_properties[j]).key@ != "lastIndex"@) {
            lemma_with_value(old_properties, new_properties, "lastIndex"@, value, i);
        }
    }
}

/// Replacing the data of a regular expression changes no other, and nothing else
/// but possibly the ordinary objects. Storing another index changes nothing else
/// at all.
pub proof fn lemma_data_replaced(
    r: RegExp,
    before: Agent,
    after: Agent,
    data: RegExpHeapData,
    stored: Agent,
    last_index: RegExpLastIndex,
)
    requires
        r.index < before.heap.regexps@.len(),
        r.data_replaced(before, after, data),
        r.last_index_stored(before, stored, last_index),
    ensures
        after.heap.regexps@.len() == before.heap.regexps@.len(),
        after.heap.regexps@[r.index as int] == data,
        forall|i: int|
            0 <= i < before.heap.regexps@.len() && i != r.index
                ==> #[trigger] after.heap.regexps@[i] == before.heap.regexps@[i],
        after.heap.strings == before.heap.strings,
        after.heap.arrays == before.heap.arrays,
        after.heap.embedder_objects == before.heap.embedder_objects,
        after.heap.weak_refs == before.heap.weak_refs,
        after.realms == before.realms,
        after.current_realm == before.current_realm,
        after.kept_alive == before.kept_alive,
        ({
            let old_data = before.heap.regexps@[r.index as int];
            let new_data = stored.heap.regexps@[r.index as int];
            &&& new_data.last_index == last_index
            &&& new_data.original_source == old_data.original_source
            &&& new_data.original_flags == old_data.original_flags
            &&& new_data.reg_exp_matcher == old_data.reg_exp_matcher
            &&& new_data.object_index == old_data.object_index
            &&& forall|i: int|
                0 <= i < before.heap.regexps@.len() && i != r.index
                    ==> #[trigger] stored.heap.regexps@[i] == before.heap.regexps@[i]
            &&& stored.heap.objects == before.heap.objects
            &&& stored.heap.strings == before.heap.strings
            &&& stored.heap.arrays == before.heap.arrays
        }),
{
}

/// A new backing object has its "lastIndex" writable, neither enumerable nor
/// configurable, and with the stored index as its value, or undefined if none is
/// stored.
pub proof fn lemma_initial_property(stored: RegExpLastIndex)
    ensures
        stored.initial_property().key == "lastIndex"@,
        stored.raw != 0xFFFF_FFFF ==> stored.initial_property().value == Value::Integer(
            stored.raw as i64,
        ),
        stored.raw == 0xFFFF_FFFF ==> stored.initial_property().value == Value::Undefined,
        stored.initial_property().writable,
        !stored.initial_property().enumerable,
        !stored.initial_property().configurable,
{
}

} // verus!
