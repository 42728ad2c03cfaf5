//! UTF-16 code units, as ECMAScript strings see them.
//!
//! A string is a sequence of 16-bit code units. A lead surrogate directly
//! followed by a trail surrogate stands for one supplementary code point; any
//! other code unit stands for itself.

use vstd::prelude::*;

verus! {

/// U+FFFD, which stands in for a surrogate where only scalar values are allowed.
pub const REPLACEMENT_CHARACTER: char = '\u{FFFD}';

pub open spec fn is_lead(unit: u16) -> bool {
    0xD800 <= unit <= 0xDBFF
}

pub open spec fn is_trail(unit: u16) -> bool {
    0xDC00 <= unit <= 0xDFFF
}

pub open spec fn is_surrogate(unit: u16) -> bool {
    0xD800 <= unit <= 0xDFFF
}

/// Whether a surrogate pair begins at `i`.
pub open spec fn pair_at(units: Seq<u16>, i: int) -> bool {
    0 <= i && i + 1 < units.len() && is_lead(units[i]) && is_trail(units[i + 1])
}

/// The supplementary code point that a surrogate pair stands for.
pub open spec fn pair_value(lead: u16, trail: u16) -> u32 {
    (0x10000 + (lead - 0xD800) * 0x400 + (trail - 0xDC00)) as u32
}

/// The code point at `i`: that of the pair which begins there, or the code unit itself.
pub open spec fn spec_code_point_at(units: Seq<u16>, i: int) -> u32 {
    if pair_at(units, i) {
        pair_value(units[i], units[i + 1])
    } else {
        units[i] as u32
    }
}

/// The code units of one code point.
pub open spec fn encode_code_point(cp: u32) -> Seq<u16> {
    if cp < 0x10000 {
        seq![cp as u16]
    } else {
        seq![
            (0xD800 + (cp - 0x10000) / 0x400) as u16,
            (0xDC00 + (cp - 0x10000) % 0x400) as u16,
        ]
    }
}

/// The code units of a sequence of scalar values.
pub open spec fn encode(chars: Seq<char>) -> Seq<u16>
    decreases chars.len(),
{
    if chars.len() == 0 {
        seq![]
    } else {
        encode(chars.drop_last()) + encode_code_point(chars.last() as u32)
    }
}

/// The scalar values of a string, in which U+FFFD stands in for every
/// surrogate that is not part of a pair.
pub open spec fn decode_lossy(units: Seq<u16>) -> Seq<char>
    decreases units.len(),
{
    if units.len() == 0 {
        seq![]
    } else if pair_at(units, 0) {
        seq![pair_value(units[0], units[1]) as char] + decode_lossy(units.skip(2))
    } else if is_surrogate(units[0]) {
        seq![REPLACEMENT_CHARACTER] + decode_lossy(units.skip(1))
    } else {
        seq![units[0] as char] + decode_lossy(units.skip(1))
    }
}

/// Whether position `i` splits a surrogate pair.
pub open spec fn splits_pair(units: Seq<u16>, i: int) -> bool {
    pair_at(units, i - 1)
}

/// Whether the code unit at `i` is a surrogate outside of any pair.
pub open spec fn lone_surrogate_at(units: Seq<u16>, i: int) -> bool {
    &&& 0 <= i < units.len()
    &&& is_surrogate(units[i])
    &&& !pair_at(units, i)
    &&& !pair_at(units, i - 1)
}

/// Whether every surrogate belongs to a pair.
pub open spec fn is_well_formed(units: Seq<u16>) -> bool {
    forall|i: int| !#[trigger] lone_surrogate_at(units, i)
}

/// Whether there is no surrogate pair.
pub open spec fn has_no_pair(units: Seq<u16>) -> bool {
    forall|i: int| !#[trigger] pair_at(units, i)
}

/// The numeric values of scalar values.
pub open spec fn char_values(chars: Seq<char>) -> Seq<u32> {
    Seq::new(chars.len(), |i: int| chars[i] as u32)
}

/// The numeric values of code units.
pub open spec fn unit_values(units: Seq<u16>) -> Seq<u32> {
    Seq::new(units.len(), |i: int| units[i] as u32)
}

/// Encoding the code point of a surrogate pair gives the pair back.
pub proof fn lemma_encode_pair(lead: u16, trail: u16)
    requires
        is_lead(lead),
        is_trail(trail),
    ensures
        0x10000 <= pair_value(lead, trail) <= 0x10FFFF,
        encode_code_point(pair_value(lead, trail)) == seq![lead, trail],
{
    let value: int = 0x10000 + (lead - 0xD800) * 0x400 + (trail - 0xDC00);
    assert(0x10000 <= value <= 0x10FFFF);
    assert((value - 0x10000) / 0x400 == lead - 0xD800);
    assert((value - 0x10000) % 0x400 == trail - 0xDC00);
    assert(encode_code_point(value as u32) =~= seq![lead, trail]);
}

/// The code units of a supplementary code point are a pair that stands for it.
pub proof fn lemma_pair_of_code_point(cp: u32)
    requires
        0x10000 <= cp <= 0x10FFFF,
    ensures
        encode_code_point(cp).len() == 2,
        is_lead(encode_code_point(cp)[0]),
        is_trail(encode_code_point(cp)[1]),
        pair_value(encode_code_point(cp)[0], encode_code_point(cp)[1]) == cp,
{
    let offset: int = cp - 0x10000;
    assert(0 <= offset / 0x400 < 0x400 && 0 <= offset % 0x400 < 0x400);
    assert(offset == (offset / 0x400) * 0x400 + offset % 0x400);
}

/// A scalar value is a code point outside of the surrogate range.
pub proof fn lemma_char_range(c: char)
    ensures
        (c as u32) == c as int,
        0 <= c as u32 <= 0x10FFFF,
        !(0xD800 <= c as u32 <= 0xDFFF),
{
}

/// Encoding a concatenation concatenates the encodings.
pub proof fn lemma_encode_concat(a: Seq<char>, b: Seq<char>)
    ensures
        encode(a + b) == encode(a) + encode(b),
    decreases b.len(),
{
    if b.len() == 0 {
        assert(a + b =~= a);
    } else {
        assert((a + b).drop_last() =~= a + b.drop_last());
        lemma_encode_concat(a, b.drop_last());
    }
}

/// Decoding what was encoded from scalar values loses nothing.
pub proof fn lemma_decode_encode(chars: Seq<char>)
    ensures
        decode_lossy(encode(chars)) == chars,
    decreases chars.len(),
{
    if chars.len() > 0 {
        let head = chars.first();
        let rest = chars.drop_first();
        lemma_char_range(head);
        assert(chars =~= seq![head] + rest);
        lemma_encode_concat(seq![head], rest);
        lemma_decode_encode(rest);
        reveal_with_fuel(encode, 2);
        assert(seq![head].drop_last() =~= Seq::<char>::empty());
        assert(encode(seq![head]) =~= encode_code_point(head as u32));
        let units = encode(chars);
        if head as u32 >= 0x10000 {
            lemma_pair_of_code_point(head as u32);
            assert(units.skip(2) =~= encode(rest));
        } else {
            assert(units.skip(1) =~= encode(rest));
        }
        assert(decode_lossy(units) =~= chars);
    }
}

/// What was encoded from scalar values has no surrogate outside of a pair.
pub proof fn lemma_encode_well_formed(chars: Seq<char>)
    ensures
        is_well_formed(encode(chars)),
        encode(chars).len() > 0 ==> !is_lead(encode(chars).last()),
    decreases chars.len(),
{
    if chars.len() > 0 {
        lemma_encode_well_formed(chars.drop_last());
        let before = encode(chars.drop_last());
        let cp = chars.last() as u32;
        lemma_char_range(chars.last());
        let units = encode(chars);
        if cp >= 0x10000 {
            lemma_pair_of_code_point(cp);
        }
        assert forall|i: int| !#[trigger] lone_surrogate_at(units, i) by {
            assert(!lone_surrogate_at(before, i));
            if 0 <= i < before.len() {
                assert(units[i] == before[i]);
                assert(0 < i ==> units[i - 1] == before[i - 1]);
                assert(i + 1 < before.len() ==> units[i + 1] == before[i + 1]);
                assert(pair_at(before, i) ==> pair_at(units, i));
                assert(pair_at(before, i - 1) ==> pair_at(units, i - 1));
            } else if i >= before.len() && cp >= 0x10000 {
                assert(pair_at(units, before.len() as int));
            }
        }
    }
}

/// A string without surrogates decodes unit by unit.
pub proof fn lemma_decode_plain(units: Seq<u16>)
    requires
        forall|i: int| 0 <= i < units.len() ==> !is_surrogate(#[trigger] units[i]),
    ensures
        decode_lossy(units) == Seq::new(units.len(), |i: int| units[i] as char),
    decreases units.len(),
{
    if units.len() > 0 {
        assert(!is_surrogate(units[0]));
        let rest = units.skip(1);
        assert forall|i: int| 0 <= i < rest.len() implies !is_surrogate(#[trigger] rest[i]) by {
            assert(!is_surrogate(units[i + 1]));
        }
        lemma_decode_plain(rest);
    }
    assert(decode_lossy(units) =~= Seq::new(units.len(), |i: int| units[i] as char));
}

/// What a string decodes to has as many code units as the string.
pub proof fn lemma_decode_length(units: Seq<u16>)
    ensures
        encode(decode_lossy(units)).len() == units.len(),
    decreases units.len(),
{
    if units.len() > 0 {
        let text = decode_lossy(units);
        let width: int = if pair_at(units, 0) {
            2
        } else {
            1
        };
        let rest = units.skip(width);
        lemma_decode_length(rest);
        if pair_at(units, 0) {
            lemma_encode_pair(units[0], units[1]);
        }
        let head = text[0];
        assert(text =~= seq![head] + decode_lossy(rest));
        lemma_encode_concat(seq![head], decode_lossy(rest));
        reveal_with_fuel(encode, 2);
        assert(seq![head].drop_last() =~= Seq::<char>::empty());
        assert(encode(seq![head]) =~= encode_code_point(head as u32));
    }
}

/// A scalar value takes at most two code units.
pub proof fn lemma_encode_length(chars: Seq<char>)
    ensures
        encode(chars).len() <= 2 * chars.len(),
    decreases chars.len(),
{
    if chars.len() > 0 {
        lemma_encode_length(chars.drop_last());
    }
}

/// A code point below U+10000 is one code unit, itself. Any other is a lead and
/// a trail surrogate, which hold the upper and the lower ten bits of what it
/// exceeds U+10000 by.
pub proof fn lemma_code_units_of_code_point(cp: u32)
    requires
        cp <= 0x10FFFF,
    ensures
        cp < 0x10000 ==> encode_code_point(cp).len() == 1 && encode_code_point(cp)[0] == cp,
        cp >= 0x10000 ==> {
            let (lead, trail) = (encode_code_point(cp)[0], encode_code_point(cp)[1]);
            &&& encode_code_point(cp).len() == 2
            &&& 0xD800 <= lead <= 0xDBFF
            &&& 0xDC00 <= trail <= 0xDFFF
            &&& 0x10000 + (lead - 0xD800) * 0x400 + (trail - 0xDC00) == cp
        },
{
    if cp >= 0x10000 {
        lemma_pair_of_code_point(cp);
    }
}

/// The code point at a position is that of a surrogate pair where a lead
/// surrogate is directly followed by a trail surrogate. Anywhere else it is the
/// code unit.
pub proof fn lemma_code_point_at(units: Seq<u16>, i: int)
    requires
        0 <= i < units.len(),
    ensures
        ({
            let pair = i + 1 < units.len() && 0xD800 <= units[i] <= 0xDBFF && 0xDC00 <= units[i + 1]
                <= 0xDFFF;
            &&& pair ==> spec_code_point_at(units, i) == 0x10000 + (units[i] - 0xD800) * 0x400 + (
            units[i + 1] - 0xDC00)
            &&& !pair ==> spec_code_point_at(units, i) == units[i]
        }),
{
}

/// Encoding nothing gives nothing, and encoding one scalar value gives its code
/// units. With the law for concatenations this says what encoding any text
/// gives.
pub proof fn lemma_encode_one(c: char)
    ensures
        encode(Seq::empty()) == Seq::<u16>::empty(),
        c as u32 <= 0xFFFF ==> encode(seq![c]) == seq![c as u16],
        c as u32 > 0xFFFF ==> {
            let (lead, trail) = (encode(seq![c])[0], encode(seq![c])[1]);
            &&& encode(seq![c]).len() == 2
            &&& 0xD800 <= lead <= 0xDBFF
            &&& 0xDC00 <= trail <= 0xDFFF
            &&& 0x10000 + (lead - 0xD800) * 0x400 + (trail - 0xDC00) == c as u32
        },
{
    lemma_char_range(c);
    reveal_with_fuel(encode, 2);
    assert(seq![c].drop_last() =~= Seq::<char>::empty());
    assert(encode(seq![c]) =~= encode_code_point(c as u32));
    lemma_code_units_of_code_point(c as u32);
}

/// Scalar values below U+10000 take one code unit each, with the same number.
pub proof fn lemma_encode_narrow(chars: Seq<char>)
    requires
        forall|i: int| 0 <= i < chars.len() ==> (#[trigger] chars[i]) as int <= 0xFFFF,
    ensures
        encode(chars).len() == chars.len(),
        forall|i: int| 0 <= i < chars.len() ==> #[trigger] encode(chars)[i] == chars[i] as int,
    decreases chars.len(),
{
    if chars.len() > 0 {
        let shorter = chars.drop_last();
        lemma_encode_narrow(shorter);
        lemma_char_range(chars.last());
        assert(encode(chars) =~= encode(shorter).push(chars.last() as u16));
        assert forall|i: int| 0 <= i < chars.len() implies #[trigger] encode(chars)[i]
            == chars[i] as int by {
            if i < shorter.len() {
                assert(encode(shorter)[i] == shorter[i] as int);
            }
        }
    }
}

/// Decoding nothing gives nothing. One code unit decodes to the scalar value
/// with its number, or to U+FFFD if it is a surrogate. A lead and a trail
/// surrogate decode to the one scalar value that they stand for.
pub proof fn lemma_decode_one(unit: u16, trail: u16)
    ensures
        decode_lossy(Seq::empty()) == Seq::<char>::empty(),
        !(0xD800 <= unit <= 0xDFFF) ==> decode_lossy(seq![unit]) == seq![unit as char],
        0xD800 <= unit <= 0xDFFF ==> decode_lossy(seq![unit]) == seq!['\u{FFFD}'],
        0xD800 <= unit <= 0xDBFF && 0xDC00 <= trail <= 0xDFFF ==> decode_lossy(seq![unit, trail])
            == seq![(0x10000 + (unit - 0xD800) * 0x400 + (trail - 0xDC00)) as char],
{
    reveal_with_fuel(decode_lossy, 2);
    assert(seq![unit].skip(1) =~= Seq::<u16>::empty());
    assert(seq![unit, trail].skip(2) =~= Seq::<u16>::empty());
    if is_lead(unit) && is_trail(trail) {
        lemma_encode_pair(unit, trail);
        let value = pair_value(unit, trail);
        assert(decode_lossy(seq![unit, trail]) =~= seq![value as char]);
    }
    assert(is_surrogate(unit) ==> decode_lossy(seq![unit]) =~= seq![REPLACEMENT_CHARACTER]);
    assert(!is_surrogate(unit) ==> decode_lossy(seq![unit]) =~= seq![unit as char]);
}

/// Decoding a concatenation concatenates what is decoded, unless a lead and a
/// trail surrogate meet where the two parts do.
pub proof fn lemma_decode_concat(a: Seq<u16>, b: Seq<u16>)
    requires
        !(a.len() > 0 && b.len() > 0 && 0xD800 <= a.last() <= 0xDBFF && 0xDC00 <= b[0] <= 0xDFFF),
    ensures
        decode_lossy(a + b) == decode_lossy(a) + decode_lossy(b),
    decreases a.len(),
{
    let units = a + b;
    if a.len() == 0 {
        assert(units =~= b);
        assert(decode_lossy(a) + decode_lossy(b) =~= decode_lossy(b));
    } else {
        assert(pair_at(units, 0) == pair_at(a, 0)) by {
            if a.len() == 1 && units.len() > 1 {
                assert(units[1] == b[0]);
            }
        }
        let width: int = if pair_at(a, 0) {
            2
        } else {
            1
        };
        let rest = a.skip(width);
        assert(units.skip(width) =~= rest + b);
        if rest.len() > 0 {
            assert(rest.last() == a.last());
        }
        lemma_decode_concat(rest, b);
        assert(decode_lossy(units) =~= decode_lossy(a) + decode_lossy(b));
    }
}

/// A string is well formed if and only if every lead surrogate is directly
/// followed by a trail surrogate, and every trail surrogate directly follows a
/// lead surrogate. It has no pair if and only if no lead surrogate is directly
/// followed by a trail surrogate.
pub proof fn lemma_well_formed(units: Seq<u16>)
    ensures
        is_well_formed(units) <==> forall|i: int|
            #![trigger units[i]]
            0 <= i < units.len() ==> {
                &&& 0xD800 <= units[i] <= 0xDBFF ==> i + 1 < units.len() && 0xDC00 <= units[i + 1]
                    <= 0xDFFF
                &&& 0xDC00 <= units[i] <= 0xDFFF ==> i > 0 && 0xD800 <= units[i - 1] <= 0xDBFF
            },
        has_no_pair(units) <==> forall|i: int|
            #![trigger units[i]]
            0 <= i && i + 1 < units.len() ==> !(0xD800 <= units[i] <= 0xDBFF && 0xDC00 <= units[i
                + 1] <= 0xDFFF),
{
    if is_well_formed(units) {
        assert forall|i: int|
            #![trigger units[i]]
            0 <= i < units.len() implies {
            &&& 0xD800 <= units[i] <= 0xDBFF ==> i + 1 < units.len() && 0xDC00 <= units[i + 1]
                <= 0xDFFF
            &&& 0xDC00 <= units[i] <= 0xDFFF ==> i > 0 && 0xD800 <= units[i - 1] <= 0xDBFF
        } by {
            assert(!lone_surrogate_at(units, i));
        }
    }
    if has_no_pair(units) {
        assert forall|i: int|
            #![trigger units[i]]
            0 <= i && i + 1 < units.len() implies !(0xD800 <= units[i] <= 0xDBFF && 0xDC00
            <= units[i + 1] <= 0xDFFF) by {
            assert(!pair_at(units, i));
        }
    }
}

/// A position splits a pair if a lead surrogate comes directly before it and a
/// trail surrogate directly after.
pub proof fn lemma_splits_pair(units: Seq<u16>, i: int)
    ensures
        splits_pair(units, i) <==> 0 < i < units.len() && 0xD800 <= units[i - 1] <= 0xDBFF && 0xDC00
            <= units[i] <= 0xDFFF,
{
}

/// Widening keeps the number of values and each value.
pub proof fn lemma_values_widen(chars: Seq<char>, units: Seq<u16>)
    ensures
        char_values(chars).len() == chars.len(),
        forall|i: int|
            0 <= i < chars.len() ==> #[trigger] char_values(chars)[i] == chars[i] as int,
        unit_values(units).len() == units.len(),
        forall|i: int| 0 <= i < units.len() ==> #[trigger] unit_values(units)[i] == units[i],
{
    assert forall|i: int| 0 <= i < chars.len() implies #[trigger] char_values(chars)[i]
        == chars[i] as int by {
        lemma_char_range(chars[i]);
    }
}

/// Whether a surrogate pair begins at `i`.
pub fn has_pair_at(units: &[u16], i: usize) -> (r: bool)
    ensures
        r == pair_at(units@, i as int),
{
    if i >= units.len() {
        return false;
    }
    let next: usize = i + 1;
    next < units.len() && 0xD800 <= units[i] && units[i] <= 0xDBFF && 0xDC00 <= units[next]
        && units[next] <= 0xDFFF
}

/// The code point of the surrogate pair `lead`, `trail`.
pub fn combine_surrogates(lead: u16, trail: u16) -> (r: u32)
    requires
        is_lead(lead),
        is_trail(trail),
    ensures
        r == pair_value(lead, trail),
        0x10000 <= r <= 0x10FFFF,
{
    proof {
        lemma_encode_pair(lead, trail);
    }
    0x10000u32 + (lead as u32 - 0xD800u32) * 0x400u32 + (trail as u32 - 0xDC00u32)
}

/// The code point at `index`.
pub fn code_point_at(units: &[u16], index: usize) -> (r: u32)
    requires
        index < units@.len(),
    ensures
        r == spec_code_point_at(units@, index as int),
{
    if has_pair_at(units, index) {
        combine_surrogates(units[index], units[index + 1])
    } else {
        units[index] as u32
    }
}

/// Whether `i` splits a surrogate pair.
pub fn is_inside_pair(units: &[u16], i: usize) -> (r: bool)
    ensures
        r == splits_pair(units@, i as int),
{
    i > 0 && has_pair_at(units, i - 1)
}

/// Whether every surrogate belongs to a pair.
pub fn check_well_formed(units: &[u16]) -> (r: bool)
    ensures
        r == is_well_formed(units@),
{
    let mut i: usize = 0;
    while i < units.len()
        invariant
            i <= units@.len(),
            forall|j: int| j < i ==> !#[trigger] lone_surrogate_at(units@, j),
        decreases units@.len() - i,
    {
        if 0xD800 <= units[i] && units[i] <= 0xDFFF && !has_pair_at(units, i) && !is_inside_pair(
            units,
            i,
        ) {
            assert(lone_surrogate_at(units@, i as int));
            return false;
        }
        i = i + 1;
    }
    true
}

/// Whether there is no surrogate pair.
pub fn check_no_pair(units: &[u16]) -> (r: bool)
    ensures
        r == has_no_pair(units@),
{
    let mut i: usize = 0;
    while i < units.len()
        invariant
            i <= units@.len(),
            forall|j: int| j < i ==> !#[trigger] pair_at(units@, j),
        decreases units@.len() - i,
    {
        if has_pair_at(units, i) {
            return false;
        }
        i = i + 1;
    }
    true
}

/// Appends the code units of `c` to `out`.
fn push_units(out: &mut Vec<u16>, c: char)
    ensures
        final(out)@ == old(out)@ + encode_code_point(c as u32),
{
    let cp: u32 = c as u32;
    if cp < 0x10000 {
        out.push(cp as u16);
    } else {
        proof {
            lemma_pair_of_code_point(cp);
        }
        let offset: u32 = cp - 0x10000;
        out.push((0xD800 + offset / 0x400) as u16);
        out.push((0xDC00 + offset % 0x400) as u16);
    }
    assert(out@ =~= old(out)@ + encode_code_point(c as u32));
}

/// The code units of `text`.
pub fn encode_utf16(text: &str) -> (r: Vec<u16>)
    ensures
        r@ == encode(text@),
{
    let mut out: Vec<u16> = Vec::new();
    for c in it: text.chars()
        invariant
            it.seq() == text@,
            out@ == encode(it.seq().take(it.index() as int)),
    {
        proof {
            let taken = it.seq().take(it.index() + 1);
            assert(taken.drop_last() =~= it.seq().take(it.index() as int));
            assert(taken.last() == c);
        }
        push_units(&mut out, c);
    }
    assert(text@.take(text@.len() as int) =~= text@);
    out
}

/// The code points of `text`, as numbers.
pub fn char_code_points(text: &str) -> (r: Vec<u32>)
    ensures
        r@ == char_values(text@),
{
    let mut out: Vec<u32> = Vec::new();
    for c in it: text.chars()
        invariant
            it.seq() == text@,
            out@ == char_values(it.seq().take(it.index() as int)),
    {
        out.push(c as u32);
        assert(out@ =~= char_values(it.seq().take(it.index() + 1)));
    }
    assert(text@.take(text@.len() as int) =~= text@);
    out
}

/// The code units of `units`, each widened to a code point.
pub fn unit_code_points(units: &[u16]) -> (r: Vec<u32>)
    ensures
        r@ == unit_values(units@),
{
    let mut out: Vec<u32> = Vec::new();
    let mut i: usize = 0;
    while i < units.len()
        invariant
            i <= units@.len(),
            out@ == unit_values(units@.take(i as int)),
        decreases units@.len() - i,
    {
        out.push(units[i] as u32);
        i = i + 1;
        assert(out@ =~= unit_values(units@.take(i as int)));
    }
    assert(units@.take(units@.len() as int) =~= units@);
    out
}

} // verus!
