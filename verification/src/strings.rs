//! Strings in the heap.

use vstd::prelude::*;
use wtf8::Wtf8Buf;

use crate::heap::{Agent, Heap, MAX_STRING_LENGTH};
use crate::utf16::{
    code_point_at, combine_surrogates, decode_lossy, encode, encode_code_point, has_pair_at,
    lemma_encode_pair, spec_code_point_at,
};
use crate::values::JsString;
use crate::wtf8_buf::{code_units, push_code_point, to_ill_formed_utf16, to_string_lossy};

verus! {

/// Builds a buffer from a range of code units. Unpaired surrogates, such as
/// those that come from slicing through a pair, are preserved.
pub(crate) fn buffer_from_units(units: &[u16], start: usize, end: usize) -> (r: Wtf8Buf)
    requires
        start <= end <= units@.len(),
    ensures
        code_units(r) == units@.subrange(start as int, end as int),
{
    let mut buf: Wtf8Buf = Wtf8Buf::new();
    let mut i: usize = start;
    assert(units@.subrange(start as int, start as int) =~= Seq::<u16>::empty());
    while i < end
        invariant
            start <= i <= end <= units@.len(),
            code_units(buf) == units@.subrange(start as int, i as int),
        decreases end - i,
    {
        let ghost done = units@.subrange(start as int, i as int);
        if end - i >= 2 && has_pair_at(units, i) {
            let cp: u32 = combine_surrogates(units[i], units[i + 1]);
            push_code_point(&mut buf, cp);
            proof {
                lemma_encode_pair(units@[i as int], units@[i + 1]);
                assert(units@.subrange(start as int, i + 2) =~= done + seq![
                    units@[i as int],
                    units@[i + 1],
                ]);
            }
            i = i + 2;
        } else {
            push_code_point(&mut buf, units[i] as u32);
            proof {
                assert(encode_code_point(units@[i as int] as u32) =~= seq![units@[i as int]]);
                assert(units@.subrange(start as int, i + 1) =~= done + seq![units@[i as int]]);
            }
            i = i + 1;
        }
    }
    buf
}

impl JsString {
    pub open spec fn valid(self, heap: Heap) -> bool {
        self.index < heap.strings@.len()
    }

    /// The code units of the string.
    pub open spec fn units(self, heap: Heap) -> Seq<u16> {
        code_units(heap.strings@[self.index as int])
    }

    /// The empty string.
    pub fn empty() -> (r: Self)
        ensures
            r.index == 0,
            forall|heap: Heap| heap.wf() ==> #[trigger] r.valid(heap) && r.units(heap) == Seq::<
                u16,
            >::empty(),
    {
        JsString { index: 0 }
    }

    /// Moves a buffer into the heap.
    pub fn from_wtf8_buf(agent: &mut Agent, buf: Wtf8Buf) -> (r: Self)
        requires
            old(agent).wf(),
            code_units(buf).len() <= MAX_STRING_LENGTH,
        ensures
            final(agent).wf(),
            old(agent).grows_to(*final(agent)),
            final(agent).heap.objects == old(agent).heap.objects,
            final(agent).heap.arrays == old(agent).heap.arrays,
            final(agent).heap.strings@ == old(agent).heap.strings@.push(buf),
            r.index == old(agent).heap.strings@.len(),
    {
        let index: usize = agent.heap.strings.len();
        agent.heap.strings.push(buf);
        proof {
            lemma_regexps_keep(old(agent).heap, agent.heap);
        }
        JsString { index }
    }

    /// Creates a string from text.
    pub fn from_str(agent: &mut Agent, text: &str) -> (r: Self)
        requires
            old(agent).wf(),
            encode(text@).len() <= MAX_STRING_LENGTH,
        ensures
            final(agent).wf(),
            old(agent).grows_to(*final(agent)),
            r.valid(final(agent).heap),
            r.units(final(agent).heap) == encode(text@),
    {
        let mut buf: Wtf8Buf = Wtf8Buf::new();
        buf.push_str(text);
        assert(code_units(buf) =~= encode(text@));
        Self::from_wtf8_buf(agent, buf)
    }

    /// Creates a string from code units.
    pub fn from_units(agent: &mut Agent, units: &[u16]) -> (r: Self)
        requires
            old(agent).wf(),
            units@.len() <= MAX_STRING_LENGTH,
        ensures
            final(agent).wf(),
            old(agent).grows_to(*final(agent)),
            r.valid(final(agent).heap),
            r.units(final(agent).heap) == units@,
    {
        let buf: Wtf8Buf = buffer_from_units(units, 0, units.len());
        assert(units@.subrange(0, units@.len() as int) =~= units@);
        Self::from_wtf8_buf(agent, buf)
    }

    /// The code units of the string.
    pub fn to_units(self, agent: &Agent) -> (r: Vec<u16>)
        requires
            self.valid(agent.heap),
        ensures
            r@ == self.units(agent.heap),
    {
        to_ill_formed_utf16(&agent.heap.strings[self.index])
    }

    /// The length of the string in code units.
    pub fn utf16_len(self, agent: &Agent) -> (r: usize)
        requires
            self.valid(agent.heap),
        ensures
            r == self.units(agent.heap).len(),
    {
        self.to_units(agent).len()
    }

    /// ### 11.1.4 CodePointAt ( string, position )
    pub fn code_point_at(self, agent: &Agent, index: usize) -> (r: u32)
        requires
            self.valid(agent.heap),
            index < self.units(agent.heap).len(),
        ensures
            r == spec_code_point_at(self.units(agent.heap), index as int),
    {
        let units: Vec<u16> = self.to_units(agent);
        code_point_at(units.as_slice(), index)
    }

    /// The text of the string, with U+FFFD for unpaired surrogates.
    pub fn to_string_lossy(self, agent: &Agent) -> (r: String)
        requires
            self.valid(agent.heap),
        ensures
            r@ == decode_lossy(self.units(agent.heap)),
    {
        to_string_lossy(&agent.heap.strings[self.index])
    }
}

/// Regular expressions stay consistent when the heap grows.
pub proof fn lemma_regexps_keep(before: Heap, after: Heap)
    requires
        before.wf(),
        before.grows_to(after),
    ensures
        forall|i: int| 0 <= i < after.regexps@.len() ==> (#[trigger] after.regexps@[i]).wf(after),
{
    assert forall|i: int| 0 <= i < after.regexps@.len() implies (#[trigger] after.regexps@[i]).wf(
        after,
    ) by {
        assert(before.regexps@[i].wf(before));
    }
}

} // verus!
