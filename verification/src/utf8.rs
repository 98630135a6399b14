//! UTF-8 validation.
use vstd::prelude::*;
use vstd::utf8::{pop_first_scalar, valid_first_scalar, valid_utf8};

verus! {

/// A byte that continues a character.
fn is_continuation(b: u8) -> (r: bool)
    ensures
        r == vstd::utf8::is_continuation_byte(b),
{
    0x80 <= b && b <= 0xbf
}

/// The length of the character that bytes begin with; `None` where they begin with none.
fn first_scalar_len(s: &[u8]) -> (r: Option<usize>)
    requires
        s@.len() > 0,
    ensures
        r is Some <==> valid_first_scalar(s@),
        r matches Some(n) ==> n == vstd::utf8::length_of_first_scalar(s@) && 0 < n <= s@.len(),
{
    let b0: u8 = s[0];
    if b0 <= 0x7f {
        assert((b0 & 0x7f) as u32 <= 0x7f) by (bit_vector);
        Some(1)
    } else if 0xc0 <= b0 && b0 <= 0xdf {
        if s.len() < 2 || !is_continuation(s[1]) {
            return None;
        }
        let b1: u8 = s[1];
        let code: u32 = (((b0 & 0x1f) as u32) << 6) | ((b1 & 0x3f) as u32);
        assert((((b0 & 0x1f) as u32) << 6) | ((b1 & 0x3f) as u32) < 0x800) by (bit_vector);
        if code < 0x80 {
            None
        } else {
            Some(2)
        }
    } else if 0xe0 <= b0 && b0 <= 0xef {
        if s.len() < 3 || !is_continuation(s[1]) || !is_continuation(s[2]) {
            return None;
        }
        let b1: u8 = s[1];
        let b2: u8 = s[2];
        let code: u32 = (((b0 & 0x0f) as u32) << 12) | (((b1 & 0x3f) as u32) << 6) | ((b2
            & 0x3f) as u32);
        if code < 0x800 || (0xd800 <= code && code <= 0xdfff) {
            None
        } else {
            Some(3)
        }
    } else if 0xf0 <= b0 && b0 <= 0xf7 {
        if s.len() < 4 || !is_continuation(s[1]) || !is_continuation(s[2]) || !is_continuation(
            s[3],
        ) {
            return None;
        }
        let b1: u8 = s[1];
        let b2: u8 = s[2];
        let b3: u8 = s[3];
        let code: u32 = (((b0 & 0x07) as u32) << 18) | (((b1 & 0x3f) as u32) << 12) | (((b2
            & 0x3f) as u32) << 6) | ((b3 & 0x3f) as u32);
        if code < 0x10000 || 0x10ffff < code {
            None
        } else {
            Some(4)
        }
    } else {
        None
    }
}

/// Whether bytes are valid UTF-8.
pub fn is_utf8(s: &[u8]) -> (r: bool)
    ensures
        r == valid_utf8(s@),
{
    let mut i: usize = 0;
    assert(s@.skip(0) =~= s@);
    while i < s.len()
        invariant
            i <= s@.len(),
            valid_utf8(s@.skip(i as int)) == valid_utf8(s@),
        decreases s@.len() - i,
    {
        let rest = &s[i..s.len()];
        assert(rest@ =~= s@.skip(i as int));
        match first_scalar_len(rest) {
            Some(n) => {
                assert(pop_first_scalar(rest@) =~= s@.skip(i + n));
                i += n;
            },
            None => {
                return false;
            },
        }
    }
    true
}

} // verus!
