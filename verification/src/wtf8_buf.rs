//! WTF-8 buffers, in which the heap keeps string data.
//!
//! A WTF-8 buffer holds exactly one sequence of UTF-16 code units, whether or
//! not its surrogates are paired. That sequence, [`code_units`], is what this
//! crate says about a buffer.

use vstd::prelude::*;
use wtf8::{CodePoint, Wtf8Buf};

use crate::utf16::{decode_lossy, encode, encode_code_point};

verus! {

/// `wtf8::Wtf8Buf`, an owned string of well-formed WTF-8 data.
#[verifier::external_type_specification]
#[verifier::external_body]
pub struct ExWtf8Buf(Wtf8Buf);

/// The UTF-16 code units that a buffer holds.
pub uninterp spec fn code_units(buf: Wtf8Buf) -> Seq<u16>;

/// `Wtf8Buf::new` gives an empty buffer.
pub assume_specification[ Wtf8Buf::new ]() -> (r: Wtf8Buf)
    ensures
        code_units(r) == Seq::<u16>::empty(),
;

/// `Wtf8Buf::push_char` appends the code units of one scalar value.
pub assume_specification[ Wtf8Buf::push_char ](buf: &mut Wtf8Buf, c: char)
    ensures
        code_units(*final(buf)) == code_units(*old(buf)) + encode_code_point(c as u32),
;

/// `Wtf8Buf::push_str` appends the code units of a `str`.
pub assume_specification[ Wtf8Buf::push_str ](buf: &mut Wtf8Buf, other: &str)
    ensures
        code_units(*final(buf)) == code_units(*old(buf)) + encode(other@),
;

/// `Wtf8Buf::push` appends one code point. A trail surrogate that follows a
/// lead surrogate becomes part of a pair, so that in terms of code units this
/// is plain concatenation.
#[verifier::external_body]
pub(crate) fn push_code_point(buf: &mut Wtf8Buf, cp: u32)
    requires
        cp <= 0x10FFFF,
    ensures
        code_units(*final(buf)) == code_units(*old(buf)) + encode_code_point(cp),
{
    buf.push(CodePoint::from_u32(cp).unwrap());
}

/// `Wtf8Buf::push_wtf8` appends another string. Surrogates that meet at the
/// boundary become a pair, so that in terms of code units this is plain
/// concatenation.
#[verifier::external_body]
pub(crate) fn push_wtf8(buf: &mut Wtf8Buf, other: &Wtf8Buf)
    ensures
        code_units(*final(buf)) == code_units(*old(buf)) + code_units(*other),
{
    buf.push_wtf8(other);
}

/// `Wtf8::to_ill_formed_utf16` yields the code units in order.
#[verifier::external_body]
pub(crate) fn to_ill_formed_utf16(buf: &Wtf8Buf) -> (r: Vec<u16>)
    ensures
        r@ == code_units(*buf),
{
    buf.to_ill_formed_utf16().collect()
}

/// `Wtf8::to_string_lossy` replaces every surrogate outside of a pair with
/// U+FFFD and keeps everything else.
#[verifier::external_body]
pub(crate) fn to_string_lossy(buf: &Wtf8Buf) -> (r: String)
    ensures
        r@ == decode_lossy(code_units(*buf)),
{
    buf.to_string_lossy().into_owned()
}

} // verus!
