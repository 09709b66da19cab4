//! Byte classes the engine decides by: ASCII whitespace, punctuation and
//! letter cases. Offsets are byte offsets, so all decisions are per byte;
//! bytes outside the ASCII range count as ordinary content.
use vstd::prelude::*;

verus! {

/// ASCII whitespace: tab, line feed, form feed, carriage return, space.
pub open spec fn is_ws(b: u8) -> bool {
    b == 9 || b == 10 || b == 12 || b == 13 || b == 32
}

/// ASCII punctuation.
pub open spec fn is_punct(b: u8) -> bool {
    (33 <= b && b <= 47) || (58 <= b && b <= 64) || (91 <= b && b <= 96) || (123 <= b && b <= 126)
}

pub open spec fn is_upper(b: u8) -> bool {
    65 <= b && b <= 90
}

pub open spec fn is_lower(b: u8) -> bool {
    97 <= b && b <= 122
}

pub fn ws_byte(b: u8) -> (r: bool)
    ensures
        r == is_ws(b),
{
    b == 9 || b == 10 || b == 12 || b == 13 || b == 32
}

pub fn punct_byte(b: u8) -> (r: bool)
    ensures
        r == is_punct(b),
{
    (33 <= b && b <= 47) || (58 <= b && b <= 64) || (91 <= b && b <= 96) || (123 <= b && b <= 126)
}

} // verus!
