//! Regular expression flags.

use vstd::prelude::*;
use vstd::string::StringExecFns;

verus! {

pub const FLAG_G: u8 = 0x01;

pub const FLAG_I: u8 = 0x02;

pub const FLAG_M: u8 = 0x04;

pub const FLAG_S: u8 = 0x08;

pub const FLAG_U: u8 = 0x10;

pub const FLAG_Y: u8 = 0x20;

pub const FLAG_D: u8 = 0x40;

pub const FLAG_V: u8 = 0x80;

/// A set of regular expression flags, one bit each.
#[derive(Debug, Clone, Copy, PartialEq, Eq, Structural)]
pub struct RegExpFlags {
    pub bits: u8,
}

/// The bit of a flag letter.
pub open spec fn flag_bit(c: char) -> Option<u8> {
    if c == 'd' {
        Some(FLAG_D)
    } else if c == 'g' {
        Some(FLAG_G)
    } else if c == 'i' {
        Some(FLAG_I)
    } else if c == 'm' {
        Some(FLAG_M)
    } else if c == 's' {
        Some(FLAG_S)
    } else if c == 'u' {
        Some(FLAG_U)
    } else if c == 'v' {
        Some(FLAG_V)
    } else if c == 'y' {
        Some(FLAG_Y)
    } else {
        None
    }
}

pub open spec fn is_flag_letter(c: char) -> bool {
    flag_bit(c) is Some
}

/// Whether every character is a flag letter.
pub open spec fn all_flag_letters(text: Seq<char>) -> bool {
    forall|i: int| 0 <= i < text.len() ==> is_flag_letter(#[trigger] text[i])
}

/// Whether `text` is accepted as the flags of a regular expression: flag
/// letters only, none twice, and not both `u` and `v`.
pub open spec fn valid_flags_text(text: Seq<char>) -> bool {
    &&& all_flag_letters(text)
    &&& text.no_duplicates()
    &&& !(text.contains('u') && text.contains('v'))
}

/// Whether the flags in `bits` are exactly those whose letters are in `text`.
pub open spec fn flags_match_text(bits: u8, text: Seq<char>) -> bool {
    &&& (bits & FLAG_D != 0 <==> text.contains('d'))
    &&& (bits & FLAG_G != 0 <==> text.contains('g'))
    &&& (bits & FLAG_I != 0 <==> text.contains('i'))
    &&& (bits & FLAG_M != 0 <==> text.contains('m'))
    &&& (bits & FLAG_S != 0 <==> text.contains('s'))
    &&& (bits & FLAG_U != 0 <==> text.contains('u'))
    &&& (bits & FLAG_V != 0 <==> text.contains('v'))
    &&& (bits & FLAG_Y != 0 <==> text.contains('y'))
}

/// `letter` if `flag` is set, else nothing.
pub open spec fn letter_if(bits: u8, flag: u8, letter: char) -> Seq<char> {
    if bits & flag != 0 {
        seq![letter]
    } else {
        seq![]
    }
}

/// The flag letters in alphabetical order.
pub open spec fn flags_text(bits: u8) -> Seq<char> {
    letter_if(bits, FLAG_D, 'd') + letter_if(bits, FLAG_G, 'g') + letter_if(bits, FLAG_I, 'i')
        + letter_if(bits, FLAG_M, 'm') + letter_if(bits, FLAG_S, 's') + letter_if(
        bits,
        FLAG_U,
        'u',
    ) + letter_if(bits, FLAG_V, 'v') + letter_if(bits, FLAG_Y, 'y')
}

/// The flag names in order of their bits.
pub open spec fn flag_names(bits: u8) -> Seq<char> {
    letter_if(bits, FLAG_G, 'G') + letter_if(bits, FLAG_I, 'I') + letter_if(bits, FLAG_M, 'M')
        + letter_if(bits, FLAG_S, 'S') + letter_if(bits, FLAG_U, 'U') + letter_if(
        bits,
        FLAG_Y,
        'Y',
    ) + letter_if(bits, FLAG_D, 'D') + letter_if(bits, FLAG_V, 'V')
}

/// The flags that matter when a pattern is compiled: `g`, `y` and `d` only
/// matter when it is executed.
pub open spec fn compile_flags_text(bits: u8) -> Seq<char> {
    letter_if(bits, FLAG_I, 'i') + letter_if(bits, FLAG_M, 'm') + letter_if(bits, FLAG_S, 's')
        + letter_if(bits, FLAG_U, 'u') + letter_if(bits, FLAG_V, 'v')
}

/// `RegExpFlags::to_inline_string` of `oxc_ast` gives the letters of the flags
/// that are set, in alphabetical order.
#[verifier::external_body]
fn inline_string(bits: u8) -> (r: String)
    ensures
        r@ == flags_text(bits),
{
    oxc_ast::ast::RegExpFlags::from_bits_retain(bits).to_inline_string().as_str().to_string()
}

/// `RegExpFlags::iter_names` of `oxc_ast` gives the names of the flags that are
/// set, in order of declaration. Each name is one capital letter.
#[verifier::external_body]
pub(crate) fn names(bits: u8) -> (r: Vec<String>)
    ensures
        r@.len() == flag_names(bits).len(),
        forall|i: int| 0 <= i < r@.len() ==> (#[trigger] r@[i])@ == seq![flag_names(bits)[i]],
{
    oxc_ast::ast::RegExpFlags::from_bits_retain(bits).iter_names().map(
        |(name, _)| name.to_string(),
    ).collect()
}

impl RegExpFlags {
    /// No flags.
    pub fn empty() -> (r: Self)
        ensures
            r.bits == 0,
    {
        RegExpFlags { bits: 0 }
    }

    /// Whether any flag in `flag` is set.
    pub fn has(self, flag: u8) -> (r: bool)
        ensures
            r == (self.bits & flag != 0),
    {
        self.bits & flag > 0
    }

    /// Whether patterns and haystacks are read as code points, that is whether
    /// `u` or `v` is set.
    pub open spec fn spec_full_unicode(self) -> bool {
        self.bits & (FLAG_U | FLAG_V) != 0
    }

    /// Whether `u` or `v` is set.
    pub fn full_unicode(self) -> (r: bool)
        ensures
            r == self.spec_full_unicode(),
    {
        self.has(FLAG_U | FLAG_V)
    }

    /// The letters of the flags, in alphabetical order.
    pub fn to_text(self) -> (r: String)
        ensures
            r@ == flags_text(self.bits),
    {
        inline_string(self.bits)
    }

    /// The flags to compile a pattern with.
    pub fn compile_flags(self) -> (r: String)
        ensures
            r@ == compile_flags_text(self.bits),
    {
        let mut out: String = String::new();
        proof {
            reveal_strlit("i");
            reveal_strlit("m");
            reveal_strlit("s");
            reveal_strlit("u");
            reveal_strlit("v");
        }
        if self.has(FLAG_I) {
            out.append("i");
        }
        if self.has(FLAG_M) {
            out.append("m");
        }
        if self.has(FLAG_S) {
            out.append("s");
        }
        if self.has(FLAG_U) {
            out.append("u");
        }
        if self.has(FLAG_V) {
            out.append("v");
        }
        assert(out@ =~= compile_flags_text(self.bits));
        out
    }
}

/// The flags whose letters are in `f`, or `None` if `f` holds anything else or
/// a letter more than once.
pub fn parse_flags(f: &str) -> (r: Option<RegExpFlags>)
    ensures
        r is Some <==> all_flag_letters(f@) && f@.no_duplicates(),
        r matches Some(flags) ==> flags_match_text(flags.bits, f@),
{
    let mut flags: u8 = 0;
    proof {
        lemma_no_flags();
    }
    for c in it: f.chars()
        invariant
            it.seq() == f@,
            all_flag_letters(it.seq().take(it.index() as int)),
            it.seq().take(it.index() as int).no_duplicates(),
            flags_match_text(flags, it.seq().take(it.index() as int)),
    {
        let bit: u8 = match c {
            'd' => FLAG_D,
            'g' => FLAG_G,
            'i' => FLAG_I,
            'm' => FLAG_M,
            's' => FLAG_S,
            'u' => FLAG_U,
            'v' => FLAG_V,
            'y' => FLAG_Y,
            _ => {
                assert(!is_flag_letter(f@[it.index() as int]));
                return None;
            },
        };
        proof {
            let before = it.seq().take(it.index() as int);
            let after = it.seq().take(it.index() + 1);
            assert(after =~= before.push(c));
            lemma_add_flag(flags, before, c, bit);
            lemma_flag_bit_matches(flags, before, c, bit);
        }
        if flags & bit > 0 {
            proof {
                let i = choose|i: int|
                    0 <= i < it.index() && it.seq().take(it.index() as int)[i] == c;
                assert(f@[i] == f@[it.index() as int]);
            }
            return None;
        }
        flags = flags | bit;
    }
    assert(f@.take(f@.len() as int) =~= f@);
    Some(RegExpFlags { bits: flags })
}

proof fn lemma_no_flags()
    ensures
        flags_match_text(0, Seq::<char>::empty()),
{
    assert(forall|flag: u8| #[trigger] (0u8 & flag) == 0) by (bit_vector);
}

/// A flag is set if its letter is there.
proof fn lemma_flag_bit_matches(flags: u8, text: Seq<char>, c: char, bit: u8)
    requires
        flag_bit(c) == Some(bit),
        flags_match_text(flags, text),
    ensures
        flags & bit != 0 <==> text.contains(c),
{
}

proof fn lemma_add_flag(flags: u8, before: Seq<char>, c: char, bit: u8)
    requires
        flag_bit(c) == Some(bit),
        flags_match_text(flags, before),
    ensures
        flags_match_text(flags | bit, before.push(c)),
{
    assert forall|x: char| #[trigger] before.push(c).contains(x) == (before.contains(x) || x == c) by {
        if before.contains(x) {
            let i = choose|i: int| 0 <= i < before.len() && before[i] == x;
            assert(before.push(c)[i] == x);
        }
        if x == c {
            assert(before.push(c)[before.len() as int] == x);
        }
    }
    assert(forall|flag: u8|
        #![trigger (flags | bit) & flag]
        ((flags | bit) & flag != 0) == (flags & flag != 0 || bit & flag != 0)) by (bit_vector);
    assert(forall|a: u8, b: u8|
        #![trigger a & b]
        (a == 1 || a == 2 || a == 4 || a == 8 || a == 16 || a == 32 || a == 64 || a == 128) && (b
            == 1 || b == 2 || b == 4 || b == 8 || b == 16 || b == 32 || b == 64 || b == 128) ==> ((a
            & b != 0) == (a == b))) by (bit_vector);
}

/// Flags are determined by the letters that they match.
pub proof fn lemma_flags_determined(a: u8, b: u8, text: Seq<char>)
    requires
        flags_match_text(a, text),
        flags_match_text(b, text),
    ensures
        a == b,
{
    assert(a == b) by (bit_vector)
        requires
            (a & 0x01 != 0) == (b & 0x01 != 0),
            (a & 0x02 != 0) == (b & 0x02 != 0),
            (a & 0x04 != 0) == (b & 0x04 != 0),
            (a & 0x08 != 0) == (b & 0x08 != 0),
            (a & 0x10 != 0) == (b & 0x10 != 0),
            (a & 0x20 != 0) == (b & 0x20 != 0),
            (a & 0x40 != 0) == (b & 0x40 != 0),
            (a & 0x80 != 0) == (b & 0x80 != 0),
    ;
}

/// The letters of a set of flags are flag letters without repetition, and they
/// parse back to the same set.
pub proof fn lemma_flags_text_round_trip(bits: u8)
    ensures
        all_flag_letters(flags_text(bits)),
        flags_text(bits).no_duplicates(),
        flags_match_text(bits, flags_text(bits)),
        valid_flags_text(flags_text(bits)) <==> !(bits & FLAG_U != 0 && bits & FLAG_V != 0),
{
    let d = letter_if(bits, FLAG_D, 'd');
    let g = d + letter_if(bits, FLAG_G, 'g');
    let i = g + letter_if(bits, FLAG_I, 'i');
    let m = i + letter_if(bits, FLAG_M, 'm');
    let s = m + letter_if(bits, FLAG_S, 's');
    let u = s + letter_if(bits, FLAG_U, 'u');
    let v = u + letter_if(bits, FLAG_V, 'v');
    lemma_append_letter(Seq::empty(), bits, FLAG_D, 'd');
    assert(Seq::<char>::empty() + d =~= d);
    lemma_append_letter(d, bits, FLAG_G, 'g');
    lemma_append_letter(g, bits, FLAG_I, 'i');
    lemma_append_letter(i, bits, FLAG_M, 'm');
    lemma_append_letter(m, bits, FLAG_S, 's');
    lemma_append_letter(s, bits, FLAG_U, 'u');
    lemma_append_letter(u, bits, FLAG_V, 'v');
    lemma_append_letter(v, bits, FLAG_Y, 'y');
}

proof fn lemma_append_letter(before: Seq<char>, bits: u8, flag: u8, letter: char)
    requires
        is_flag_letter(letter),
    ensures
        ({
            let after = before + letter_if(bits, flag, letter);
            &&& forall|x: char| #[trigger]
                after.contains(x) <==> before.contains(x) || (x == letter && bits & flag != 0)
            &&& all_flag_letters(before) ==> all_flag_letters(after)
            &&& before.no_duplicates() && !before.contains(letter) ==> after.no_duplicates()
        }),
{
    let after = before + letter_if(bits, flag, letter);
    assert forall|x: char| #[trigger]
        after.contains(x) <==> before.contains(x) || (x == letter && bits & flag != 0) by {
        if before.contains(x) {
            let i = choose|i: int| 0 <= i < before.len() && before[i] == x;
            assert(after[i] == x);
        }
        if x == letter && bits & flag != 0 {
            assert(after[before.len() as int] == x);
        }
    }
}

/// The flag letters are d, g, i, m, s, u, v and y. Each stands for a bit of its
/// own.
pub proof fn lemma_flag_letters(c: char)
    ensures
        is_flag_letter(c) <==> c == 'd' || c == 'g' || c == 'i' || c == 'm' || c == 's' || c == 'u'
            || c == 'v' || c == 'y',
        flag_bit('g') == Some(0x01u8),
        flag_bit('i') == Some(0x02u8),
        flag_bit('m') == Some(0x04u8),
        flag_bit('s') == Some(0x08u8),
        flag_bit('u') == Some(0x10u8),
        flag_bit('y') == Some(0x20u8),
        flag_bit('d') == Some(0x40u8),
        flag_bit('v') == Some(0x80u8),
{
}

/// A text of flags is valid if and only if each of its characters is one of the
/// eight letters, no two are the same, and `u` and `v` do not both occur.
pub proof fn lemma_valid_flags_text(text: Seq<char>)
    ensures
        valid_flags_text(text) <==> {
            &&& forall|i: int|
                0 <= i < text.len() ==> {
                    let c = #[trigger] text[i];
                    c == 'd' || c == 'g' || c == 'i' || c == 'm' || c == 's' || c == 'u' || c == 'v'
                        || c == 'y'
                }
            &&& forall|i: int, j: int|
                0 <= i < j < text.len() ==> #[trigger] text[i] != #[trigger] text[j]
            &&& !(text.contains('u') && text.contains('v'))
        },
{
    if forall|i: int, j: int|
        0 <= i < j < text.len() ==> #[trigger] text[i] != #[trigger] text[j] {
        assert forall|i: int, j: int|
            0 <= i < text.len() && 0 <= j < text.len() && i != j implies text[i] != text[j] by {
            if i < j {
                assert(text[i] != text[j]);
            } else {
                assert(text[j] != text[i]);
            }
        }
    }
}

/// Flags that match a text have the bit of each letter if and only if the text
/// has the letter.
pub proof fn lemma_bits_of_letters(bits: u8, text: Seq<char>)
    requires
        flags_match_text(bits, text),
    ensures
        bits & 0x01 != 0 <==> text.contains('g'),
        bits & 0x02 != 0 <==> text.contains('i'),
        bits & 0x04 != 0 <==> text.contains('m'),
        bits & 0x08 != 0 <==> text.contains('s'),
        bits & 0x10 != 0 <==> text.contains('u'),
        bits & 0x20 != 0 <==> text.contains('y'),
        bits & 0x40 != 0 <==> text.contains('d'),
        bits & 0x80 != 0 <==> text.contains('v'),
{
}

/// Code points are read where `u` is set or `v` is set, whatever else is.
pub proof fn lemma_full_unicode(flags: RegExpFlags)
    ensures
        flags.spec_full_unicode() <==> flags.bits & 0x10 != 0 || flags.bits & 0x80 != 0,
{
    let bits = flags.bits;
    assert((bits & (0x10u8 | 0x80u8) != 0) == (bits & 0x10u8 != 0 || bits & 0x80u8 != 0))
        by (bit_vector);
}

/// What appending a letter does to a text in strictly ascending order.
proof fn lemma_append_in_order(
    before: Seq<char>,
    bits: u8,
    flag: u8,
    letter: char,
    rank: spec_fn(char) -> int,
)
    requires
        forall|i: int| 0 <= i < before.len() ==> rank(#[trigger] before[i]) < rank(letter),
        forall|i: int, j: int|
            0 <= i < j < before.len() ==> rank(#[trigger] before[i]) < rank(#[trigger] before[j]),
    ensures
        ({
            let after = before + letter_if(bits, flag, letter);
            &&& forall|x: char| #[trigger]
                after.contains(x) <==> before.contains(x) || (x == letter && bits & flag != 0)
            &&& forall|i: int| 0 <= i < after.len() ==> rank(#[trigger] after[i]) <= rank(letter)
            &&& forall|i: int, j: int|
                0 <= i < j < after.len() ==> rank(#[trigger] after[i]) < rank(#[trigger] after[j])
        }),
{
    let after = before + letter_if(bits, flag, letter);
    assert forall|x: char| #[trigger]
        after.contains(x) <==> before.contains(x) || (x == letter && bits & flag != 0) by {
        if before.contains(x) {
            let i = choose|i: int| 0 <= i < before.len() && before[i] == x;
            assert(after[i] == x);
        }
        if x == letter && bits & flag != 0 {
            assert(after[before.len() as int] == x);
        }
    }
}

/// The flags that a pattern is compiled with hold each of the letters i, m, s, u
/// and v if and only if its bit is set, whatever other bits are. They hold
/// nothing else, and nothing twice: they are in alphabetical order.
pub proof fn lemma_compile_flags_letters(bits: u8)
    ensures
        compile_flags_text(bits).contains('i') <==> bits & 0x02 != 0,
        compile_flags_text(bits).contains('m') <==> bits & 0x04 != 0,
        compile_flags_text(bits).contains('s') <==> bits & 0x08 != 0,
        compile_flags_text(bits).contains('u') <==> bits & 0x10 != 0,
        compile_flags_text(bits).contains('v') <==> bits & 0x80 != 0,
        forall|c: char| #[trigger]
            compile_flags_text(bits).contains(c) ==> c == 'i' || c == 'm' || c == 's' || c == 'u'
                || c == 'v',
        forall|i: int, j: int|
            0 <= i < j < compile_flags_text(bits).len() ==> (#[trigger] compile_flags_text(bits)[i])
                < (#[trigger] compile_flags_text(bits)[j]),
        compile_flags_text(bits).no_duplicates(),
{
    let rank = |c: char| c as int;
    let i = letter_if(bits, FLAG_I, 'i');
    let m = i + letter_if(bits, FLAG_M, 'm');
    let s = m + letter_if(bits, FLAG_S, 's');
    let u = s + letter_if(bits, FLAG_U, 'u');
    lemma_append_in_order(Seq::empty(), bits, FLAG_I, 'i', rank);
    assert(Seq::<char>::empty() + i =~= i);
    lemma_append_in_order(i, bits, FLAG_M, 'm', rank);
    lemma_append_in_order(m, bits, FLAG_S, 's', rank);
    lemma_append_in_order(s, bits, FLAG_U, 'u', rank);
    lemma_append_in_order(u, bits, FLAG_V, 'v', rank);
    let text = compile_flags_text(bits);
    assert forall|i: int, j: int| 0 <= i < j < text.len() implies (#[trigger] text[i]) < (
    #[trigger] text[j]) by {
        assert(rank(text[i]) < rank(text[j]));
    }
}

/// The text of a set of flags holds each of the eight letters if and only if its
/// bit is set, and nothing else, in alphabetical order.
pub proof fn lemma_flags_text_letters(bits: u8)
    ensures
        flags_text(bits).contains('g') <==> bits & 0x01 != 0,
        flags_text(bits).contains('i') <==> bits & 0x02 != 0,
        flags_text(bits).contains('m') <==> bits & 0x04 != 0,
        flags_text(bits).contains('s') <==> bits & 0x08 != 0,
        flags_text(bits).contains('u') <==> bits & 0x10 != 0,
        flags_text(bits).contains('y') <==> bits & 0x20 != 0,
        flags_text(bits).contains('d') <==> bits & 0x40 != 0,
        flags_text(bits).contains('v') <==> bits & 0x80 != 0,
        forall|c: char| #[trigger]
            flags_text(bits).contains(c) ==> c == 'd' || c == 'g' || c == 'i' || c == 'm'
                || c == 's' || c == 'u' || c == 'v' || c == 'y',
        forall|i: int, j: int|
            0 <= i < j < flags_text(bits).len() ==> (#[trigger] flags_text(bits)[i]) < (
            #[trigger] flags_text(bits)[j]),
{
    let rank = |c: char| c as int;
    let d = letter_if(bits, FLAG_D, 'd');
    let g = d + letter_if(bits, FLAG_G, 'g');
    let i = g + letter_if(bits, FLAG_I, 'i');
    let m = i + letter_if(bits, FLAG_M, 'm');
    let s = m + letter_if(bits, FLAG_S, 's');
    let u = s + letter_if(bits, FLAG_U, 'u');
    let v = u + letter_if(bits, FLAG_V, 'v');
    lemma_flags_text_round_trip(bits);
    let text = flags_text(bits);
    assert(ascends_to(Seq::empty(), rank, 0)) by {
        reveal(ascends_to);
    }
    assert(Seq::<char>::empty() + d =~= d);
    lemma_ascends(Seq::empty(), bits, FLAG_D, 'd', rank, 0);
    lemma_ascends(d, bits, FLAG_G, 'g', rank, 'd' as int);
    lemma_ascends(g, bits, FLAG_I, 'i', rank, 'g' as int);
    lemma_ascends(i, bits, FLAG_M, 'm', rank, 'i' as int);
    lemma_ascends(m, bits, FLAG_S, 's', rank, 'm' as int);
    lemma_ascends(s, bits, FLAG_U, 'u', rank, 's' as int);
    lemma_ascends(u, bits, FLAG_V, 'v', rank, 'u' as int);
    lemma_ascends(v, bits, FLAG_Y, 'y', rank, 'v' as int);
    assert forall|c: char| #[trigger] text.contains(c) implies is_flag_letter(c) by {
        let i = choose|i: int| 0 <= i < text.len() && text[i] == c;
        assert(is_flag_letter(text[i]));
    }
    assert forall|i: int, j: int| 0 <= i < j < text.len() implies (#[trigger] text[i]) < (
    #[trigger] text[j]) by {
        reveal(ascends_to);
        assert(rank(text[i]) < rank(text[j]));
    }
}

/// Whether a text is in strictly ascending order, up to the rank `limit`.
#[verifier::opaque]
spec fn ascends_to(text: Seq<char>, rank: spec_fn(char) -> int, limit: int) -> bool {
    &&& forall|i: int| 0 <= i < text.len() ==> rank(#[trigger] text[i]) <= limit
    &&& forall|i: int, j: int|
        0 <= i < j < text.len() ==> rank(#[trigger] text[i]) < rank(#[trigger] text[j])
}

proof fn lemma_ascends(
    before: Seq<char>,
    bits: u8,
    flag: u8,
    letter: char,
    rank: spec_fn(char) -> int,
    limit: int,
)
    requires
        ascends_to(before, rank, limit),
        limit < rank(letter),
    ensures
        ascends_to(before + letter_if(bits, flag, letter), rank, rank(letter)),
{
    reveal(ascends_to);
}

/// The names of a set of flags are the capital letters of those that are set,
/// and nothing else, in ascending order of the bits.
pub proof fn lemma_flag_names(bits: u8, bit: spec_fn(char) -> int)
    requires
        bit('G') == 0x01,
        bit('I') == 0x02,
        bit('M') == 0x04,
        bit('S') == 0x08,
        bit('U') == 0x10,
        bit('Y') == 0x20,
        bit('D') == 0x40,
        bit('V') == 0x80,
    ensures
        flag_names(bits).contains('G') <==> bits & 0x01 != 0,
        flag_names(bits).contains('I') <==> bits & 0x02 != 0,
        flag_names(bits).contains('M') <==> bits & 0x04 != 0,
        flag_names(bits).contains('S') <==> bits & 0x08 != 0,
        flag_names(bits).contains('U') <==> bits & 0x10 != 0,
        flag_names(bits).contains('Y') <==> bits & 0x20 != 0,
        flag_names(bits).contains('D') <==> bits & 0x40 != 0,
        flag_names(bits).contains('V') <==> bits & 0x80 != 0,
        forall|c: char| #[trigger]
            flag_names(bits).contains(c) ==> c == 'G' || c == 'I' || c == 'M' || c == 'S'
                || c == 'U' || c == 'Y' || c == 'D' || c == 'V',
        forall|i: int, j: int|
            0 <= i < j < flag_names(bits).len() ==> bit(#[trigger] flag_names(bits)[i]) < bit(
                #[trigger] flag_names(bits)[j],
            ),
{
    let g = letter_if(bits, FLAG_G, 'G');
    let i = g + letter_if(bits, FLAG_I, 'I');
    let m = i + letter_if(bits, FLAG_M, 'M');
    let s = m + letter_if(bits, FLAG_S, 'S');
    let u = s + letter_if(bits, FLAG_U, 'U');
    let y = u + letter_if(bits, FLAG_Y, 'Y');
    let d = y + letter_if(bits, FLAG_D, 'D');
    assert(are_names_to(Seq::empty(), bits, bit, 0)) by {
        reveal(are_names_to);
    }
    assert(Seq::<char>::empty() + g =~= g);
    lemma_next_name(Seq::empty(), bits, bit, FLAG_G, 'G', 0);
    lemma_next_name(g, bits, bit, FLAG_I, 'I', 0x01);
    lemma_next_name(i, bits, bit, FLAG_M, 'M', 0x02);
    lemma_next_name(m, bits, bit, FLAG_S, 'S', 0x04);
    lemma_next_name(s, bits, bit, FLAG_U, 'U', 0x08);
    lemma_next_name(u, bits, bit, FLAG_Y, 'Y', 0x10);
    lemma_next_name(y, bits, bit, FLAG_D, 'D', 0x20);
    lemma_next_name(d, bits, bit, FLAG_V, 'V', 0x40);
    reveal(are_names_to);
}

/// One more name keeps the names in order.
proof fn lemma_next_name(
    names: Seq<char>,
    bits: u8,
    bit: spec_fn(char) -> int,
    flag: u8,
    letter: char,
    limit: int,
)
    requires
        are_names_to(names, bits, bit, limit),
        bit(letter) == flag,
        (flag, letter, limit) == (FLAG_G, 'G', 0int) || (flag, letter, limit) == (FLAG_I, 'I', 1int)
            || (flag, letter, limit) == (FLAG_M, 'M', 2int) || (flag, letter, limit) == (
            FLAG_S,
            'S',
            4int,
        ) || (flag, letter, limit) == (FLAG_U, 'U', 8int) || (flag, letter, limit) == (
            FLAG_Y,
            'Y',
            0x10int,
        ) || (flag, letter, limit) == (FLAG_D, 'D', 0x20int) || (flag, letter, limit) == (
            FLAG_V,
            'V',
            0x40int,
        ),
    ensures
        are_names_to(names + letter_if(bits, flag, letter), bits, bit, flag as int),
{
    reveal(are_names_to);
    lemma_append_in_order(names, bits, flag, letter, bit);
}

/// Whether `names` are those of the flags that are set, up to the bit `limit`.
#[verifier::opaque]
spec fn are_names_to(
    names: Seq<char>,
    bits: u8,
    bit: spec_fn(char) -> int,
    limit: int,
) -> bool {
    &&& forall|x: char| #[trigger]
        names.contains(x) <==> {
            ||| x == 'G' && bits & FLAG_G != 0 && limit >= 0x01
            ||| x == 'I' && bits & FLAG_I != 0 && limit >= 0x02
            ||| x == 'M' && bits & FLAG_M != 0 && limit >= 0x04
            ||| x == 'S' && bits & FLAG_S != 0 && limit >= 0x08
            ||| x == 'U' && bits & FLAG_U != 0 && limit >= 0x10
            ||| x == 'Y' && bits & FLAG_Y != 0 && limit >= 0x20
            ||| x == 'D' && bits & FLAG_D != 0 && limit >= 0x40
            ||| x == 'V' && bits & FLAG_V != 0 && limit >= 0x80
        }
    &&& forall|i: int| 0 <= i < names.len() ==> bit(#[trigger] names[i]) <= limit
    &&& forall|i: int, j: int|
        0 <= i < j < names.len() ==> bit(#[trigger] names[i]) < bit(#[trigger] names[j])
}

} // verus!
