//! NUL terminated strings.
use vstd::prelude::*;
use crate::bytes::{ascii, ascii_bytes, bytes_eq, lemma_until, position, to_vec};

verus! {

/// The text of a C string: bytes without a NUL among them.
#[derive(Debug)]
pub struct CStr {
    bytes: Vec<u8>,
}

/// No byte is NUL.
pub open spec fn no_nul(s: Seq<u8>) -> bool {
    forall|i: int| 0 <= i < s.len() ==> #[trigger] s[i] != 0
}

impl View for CStr {
    type V = Seq<u8>;

    closed spec fn view(&self) -> Seq<u8> {
        self.bytes@
    }
}

impl CStr {
    #[verifier::type_invariant]
    spec fn inv(self) -> bool {
        no_nul(self.bytes@)
    }

    /// Makes a C string of bytes that hold no NUL.
    pub fn from_bytes(bytes: &[u8]) -> (r: Option<CStr>)
        ensures
            r is Some <==> no_nul(bytes@),
            r matches Some(s) ==> s@ == bytes@,
    {
        proof {
            lemma_until(bytes@, 0);
        }
        match position(bytes, 0) {
            Some(i) => {
                assert(bytes@[i as int] == 0);
                None
            },
            None => Some(CStr { bytes: to_vec(bytes) }),
        }
    }

    /// Makes a C string of ASCII text that holds no NUL.
    pub fn from_ascii(text: &str) -> (r: CStr)
        requires
            vstd::utf8::is_ascii_chars(text@),
            no_nul(ascii(text@)),
        ensures
            r@ == ascii(text@),
    {
        CStr { bytes: to_vec(ascii_bytes(text)) }
    }

    /// The bytes, without the terminating NUL.
    pub fn to_bytes(&self) -> (r: &[u8])
        ensures
            r@ == self@,
            no_nul(r@),
    {
        proof {
            use_type_invariant(self);
        }
        self.bytes.as_slice()
    }

    /// The bytes, with the terminating NUL.
    pub fn to_bytes_with_nul(&self) -> (r: Vec<u8>)
        ensures
            r@ == self@.push(0u8),
            no_nul(self@),
    {
        proof {
            use_type_invariant(self);
        }
        let mut v: Vec<u8> = to_vec(self.bytes.as_slice());
        v.push(0);
        v
    }

    /// Another string with the same bytes.
    pub fn duplicate(&self) -> (r: CStr)
        ensures
            r@ == self@,
    {
        proof {
            use_type_invariant(self);
        }
        CStr { bytes: to_vec(self.bytes.as_slice()) }
    }

    /// Whether two strings have the same bytes.
    pub fn same_as(&self, other: &CStr) -> (r: bool)
        ensures
            r == (self@ == other@),
    {
        bytes_eq(self.bytes.as_slice(), other.bytes.as_slice())
    }
}

/// A text can be a C string exactly where none of its bytes is zero.
pub proof fn law_no_nul_is_bytewise(s: Seq<u8>)
    ensures
        no_nul(s) <==> !s.contains(0u8),
{
    if !s.contains(0u8) {
        assert forall|i: int| 0 <= i < s.len() implies #[trigger] s[i] != 0 by {
            assert(s.contains(s[i]));
        }
    }
}

} // verus!
