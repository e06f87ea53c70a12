//! Small character and string helpers shared by the other modules.
use vstd::prelude::*;

verus! {

/// ASCII code of `A`.
pub const UPPER_A: u8 = 65;

/// ASCII code of `Z`.
pub const UPPER_Z: u8 = 90;

/// Distance between an upper-case ASCII letter and its lower-case form.
pub const CASE_OFFSET: u8 = 32;

/// The character that an ASCII byte stands for, with upper-case letters
/// folded to lower case.
pub open spec fn ascii_lower(b: u8) -> char {
    if UPPER_A <= b && b <= UPPER_Z {
        ((b + CASE_OFFSET) as u8) as char
    } else {
        b as char
    }
}

/// Executable form of `ascii_lower`.
pub fn lower_byte(b: u8) -> (c: char)
    ensures
        c == ascii_lower(b),
{
    if UPPER_A <= b && b <= UPPER_Z {
        (b + CASE_OFFSET) as char
    } else {
        b as char
    }
}

/// Relies on std's `String::push`: it appends one character at the end.
#[verifier::external_body]
pub(crate) fn push_char(s: &mut String, c: char)
    ensures
        final(s)@ == old(s)@.push(c),
{
    s.push(c);
}

} // verus!
