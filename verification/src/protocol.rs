//! Adapter protocol envelope rules shared by every adapter.
use vstd::prelude::*;

verus! {

/// A lowercase hexadecimal digit, as the protocol spells request identifiers.
pub open spec fn is_lower_hex(b: u8) -> bool {
    (0x30 <= b && b <= 0x39) || (0x61 <= b && b <= 0x66)
}

/// A request identifier is exactly 32 lowercase hexadecimal characters.
pub open spec fn spec_valid_request_id(s: Seq<char>) -> bool {
    s.len() == 32 && forall|i: int| 0 <= i < 32 ==> is_lower_hex_char(#[trigger] s[i])
}

pub open spec fn is_lower_hex_char(c: char) -> bool {
    ('0' <= c && c <= '9') || ('a' <= c && c <= 'f')
}

/// Whether `value` is a canonical protocol request identifier.
pub fn valid_request_id(value: &str) -> (ok: bool)
    ensures
        ok == spec_valid_request_id(value@),
{
    let n = value.unicode_len();
    if n != 32 {
        return false;
    }
    let mut i: usize = 0;
    while i < n
        invariant
            n == value@.len(),
            i <= n,
            forall|j: int| 0 <= j < i ==> is_lower_hex_char(#[trigger] value@[j]),
        decreases n - i,
    {
        let c = value.get_char(i);
        if !(('0' <= c && c <= '9') || ('a' <= c && c <= 'f')) {
            return false;
        }
        i = i + 1;
    }
    true
}

} // verus!
