//! Small character and string helpers shared by the decoder, the
//! formatter and the parser.

use vstd::prelude::*;

verus! {

/// Whether `v` is a Unicode scalar value, that is a code point outside
/// the surrogate range.
pub open spec fn is_scalar_value(v: u32) -> bool {
    v < 0xD800 || (0xE000 <= v && v <= 0x10FFFF)
}

/// Relies on char::from_u32 from std: it returns `Some` exactly on
/// Unicode scalar values, and the returned character has the given code.
#[verifier::external_body]
pub fn char_from_u32(v: u32) -> (r: Option<char>)
    ensures
        r is Some <==> is_scalar_value(v),
        r matches Some(c) ==> c as u32 == v,
{
    char::from_u32(v)
}

/// Relies on String::push from std: it appends exactly one character.
#[verifier::external_body]
pub fn push_char(s: &mut String, c: char)
    ensures
        final(s)@ == old(s)@.push(c),
{
    s.push(c);
}

} // verus!
