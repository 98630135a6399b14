//! MAC addresses, with formatting and parsing.
use vstd::prelude::*;
use vstd::string::StringExecFns;
use crate::bytes::{law_trim_ignores_newline, overlay, trim_newline, trimmed};
use crate::error::{Error, EINVAL};

verus! {

/// A MAC address.
#[derive(Clone, Copy, Debug, PartialEq, Eq, Hash)]
pub struct MacAddr(pub [u8; 6]);

impl View for MacAddr {
    type V = Seq<u8>;

    open spec fn view(&self) -> Seq<u8> {
        self.0@
    }
}

/// The value of a hexadecimal digit.
pub open spec fn hex_value(c: u8) -> Option<u8> {
    if '0' as u8 <= c <= '9' as u8 {
        Some((c - '0' as u8) as u8)
    } else if 'a' as u8 <= c <= 'f' as u8 {
        Some((c - 'a' as u8 + 10) as u8)
    } else if 'A' as u8 <= c <= 'F' as u8 {
        Some((c - 'A' as u8 + 10) as u8)
    } else {
        None
    }
}

/// The lower case hexadecimal digit of a value below sixteen.
pub open spec fn hex_char(d: u8) -> u8 {
    if d < 10 {
        ('0' as u8 + d) as u8
    } else {
        ('a' as u8 + d - 10) as u8
    }
}

/// The `k`-th byte that a MAC address text spells.
pub open spec fn octet_at(s: Seq<u8>, k: int) -> Option<u8> {
    match (hex_value(s[3 * k]), hex_value(s[3 * k + 1])) {
        (Some(hi), Some(lo)) => Some((hi * 16 + lo) as u8),
        _ => None,
    }
}

/// The character behind the `k`-th byte is a colon or a dash.
pub open spec fn separator_at(s: Seq<u8>, k: int) -> bool {
    s[3 * k + 2] == ':' as u8 || s[3 * k + 2] == '-' as u8
}

/// The address that a text spells: six pairs of hexadecimal digits with a colon or a dash
/// between them, seventeen characters in all.
pub open spec fn mac_of_text(s: Seq<u8>) -> Option<Seq<u8>> {
    if s.len() == 17 && (forall|k: int| 0 <= k < 6 ==> (#[trigger] octet_at(s, k)) is Some) && (
    forall|k: int| 0 <= k < 5 ==> #[trigger] separator_at(s, k)) {
        Some(Seq::new(6, |k: int| octet_at(s, k).unwrap()))
    } else {
        None
    }
}

/// The text of an address: lower case pairs of hexadecimal digits, colons between them.
pub open spec fn text_of_mac(m: Seq<u8>) -> Seq<u8> {
    Seq::new(
        17,
        |i: int|
            if i % 3 == 2 {
                ':' as u8
            } else if i % 3 == 0 {
                hex_char(m[i / 3] / 16)
            } else {
                hex_char(m[i / 3] % 16)
            },
    )
}

/// Hexadecimal digits read back.
proof fn lemma_hex(d: u8)
    requires
        d < 16,
    ensures
        hex_value(hex_char(d)) == Some(d),
{
}

/// An address that is formatted and parsed again is the same address.
pub proof fn law_mac_round_trip(m: Seq<u8>)
    requires
        m.len() == 6,
    ensures
        mac_of_text(text_of_mac(m)) == Some(m),
{
    let s = text_of_mac(m);
    assert forall|k: int| 0 <= k < 6 implies #[trigger] octet_at(s, k) == Some(m[k]) by {
        lemma_hex(m[k] / 16);
        lemma_hex(m[k] % 16);
        assert(s[3 * k] == hex_char(m[k] / 16));
        assert(s[3 * k + 1] == hex_char(m[k] % 16));
    }
    assert forall|k: int| 0 <= k < 5 implies #[trigger] separator_at(s, k) by {
        assert(s[3 * k + 2] == ':' as u8);
    }
    assert(Seq::new(6, |k: int| octet_at(s, k).unwrap()) =~= m);
}

/// A character as formatting writes it: hexadecimal digits in lower case, colons for dashes.
pub open spec fn canonical_char(c: u8) -> u8 {
    if 'A' as u8 <= c <= 'F' as u8 {
        (c - 'A' as u8 + 'a' as u8) as u8
    } else if c == '-' as u8 {
        ':' as u8
    } else {
        c
    }
}

/// A text that is parsed and formatted again is the same text, but for the case of its digits
/// and the choice of its separators.
pub proof fn law_mac_text_round_trip(s: Seq<u8>)
    requires
        mac_of_text(s) is Some,
    ensures
        text_of_mac(mac_of_text(s).unwrap()) == s.map_values(|c: u8| canonical_char(c)),
{
    let m = mac_of_text(s).unwrap();
    let t = text_of_mac(m);
    let n = s.map_values(|c: u8| canonical_char(c));
    assert forall|i: int| 0 <= i < 17 implies t[i] == n[i] by {
        let k = i / 3;
        assert(i == 3 * k || i == 3 * k + 1 || i == 3 * k + 2);
        assert(octet_at(s, k) is Some);
        assert(m[k] == octet_at(s, k).unwrap());
        if i == 3 * k + 2 {
            assert(separator_at(s, k));
        }
    }
    assert(t =~= n);
}

/// An address printed on a line of its own parses as that address.
pub proof fn law_mac_line_round_trip(m: Seq<u8>)
    requires
        m.len() == 6,
    ensures
        mac_of_text(trimmed(text_of_mac(m).push('\n' as u8))) == Some(m),
{
    let s = text_of_mac(m);
    law_mac_round_trip(m);
    law_trim_ignores_newline(s);
    assert(s.last() == hex_char(m[5] % 16));
    assert(trimmed(s) == s);
}

/// Converts a hexadecimal digit to its value.
pub fn hex_digit(c: u8) -> (r: Result<u8, Error>)
    ensures
        r == (match hex_value(c) {
            Some(d) => Ok(d),
            None => Err(Error(EINVAL)),
        }),
{
    if '0' as u8 <= c && c <= '9' as u8 {
        Ok(c - '0' as u8)
    } else if 'a' as u8 <= c && c <= 'f' as u8 {
        Ok(c - 'a' as u8 + 10)
    } else if 'A' as u8 <= c && c <= 'F' as u8 {
        Ok(c - 'A' as u8 + 10)
    } else {
        Err(Error(EINVAL))
    }
}

/// The lower case hexadecimal digit of a value below sixteen.
fn hex_digit_of(d: u8) -> (c: u8)
    requires
        d < 16,
    ensures
        c == hex_char(d),
{
    if d < 10 {
        '0' as u8 + d
    } else {
        'a' as u8 + (d - 10)
    }
}

/// The lower case hexadecimal digit of a value below sixteen, as a string.
fn hex_str_of(d: u8) -> (s: &'static str)
    requires
        d < 16,
    ensures
        s@ == seq![hex_char(d) as char],
{
    proof {
        reveal_strlit("0123456789abcdef");
    }
    let s: &'static str = "0123456789abcdef".substring_ascii(d as usize, d as usize + 1);
    assert(s@ =~= seq![hex_char(d) as char]);
    s
}

impl MacAddr {
    /// MAC address length in bytes.
    pub const ALEN: usize = 6;

    /// Creates a MAC address from its bytes.
    pub fn new(bytes: [u8; 6]) -> (m: MacAddr)
        ensures
            m.0 == bytes,
            m@ == bytes@,
    {
        MacAddr(bytes)
    }

    /// The broadcast address, all of whose bits are set.
    pub fn broadcast() -> (m: MacAddr)
        ensures
            m@ == Seq::new(6, |i: int| 0xffu8),
    {
        let m: MacAddr = MacAddr([0xff, 0xff, 0xff, 0xff, 0xff, 0xff]);
        assert(m@ =~= Seq::new(6, |i: int| 0xffu8));
        m
    }

    /// Parses a MAC address, which line ends may follow.
    pub fn parse_ascii(bytes: &[u8]) -> (r: Result<MacAddr, Error>)
        ensures
            match mac_of_text(trimmed(bytes@)) {
                Some(m) => r matches Ok(a) && a@ == m,
                None => r == Err::<MacAddr, Error>(Error(EINVAL)),
            },
    {
        let text = trim_newline(bytes);
        if text.len() != 17 {
            return Err(Error(EINVAL));
        }
        let ghost s = text@;
        let mut mac: [u8; 6] = [0, 0, 0, 0, 0, 0];
        let mut k: usize = 0;
        while k < 6
            invariant
                k <= 6,
                text@ == s,
                s.len() == 17,
                s == trimmed(bytes@),
                forall|j: int| 0 <= j < k ==> #[trigger] octet_at(s, j) == Some(mac@[j]),
                forall|j: int| 0 <= j < k && j < 5 ==> #[trigger] separator_at(s, j),
            decreases 6 - k,
        {
            let i: usize = 3 * k;
            let (hi, lo) = match (hex_digit(text[i]), hex_digit(text[i + 1])) {
                (Ok(hi), Ok(lo)) => (hi, lo),
                _ => {
                    assert(octet_at(s, k as int) is None);
                    return Err(Error(EINVAL));
                },
            };
            if k < 5 && text[i + 2] != ':' as u8 && text[i + 2] != '-' as u8 {
                assert(!separator_at(s, k as int));
                return Err(Error(EINVAL));
            }
            assert((hi << 4) | lo == hi * 16 + lo) by (bit_vector)
                requires
                    hi < 16,
                    lo < 16,
            ;
            mac[k] = (hi << 4) | lo;
            assert(octet_at(s, k as int) == Some(mac@[k as int]));
            k += 1;
        }
        assert(mac@ =~= Seq::new(6, |j: int| octet_at(s, j).unwrap()));
        Ok(MacAddr::new(mac))
    }

    /// Formats the address at the beginning of a buffer of at least seventeen bytes; returns the
    /// number of bytes written.
    pub fn format_into(&self, buf: &mut [u8]) -> (n: usize)
        requires
            old(buf)@.len() >= 17,
        ensures
            n == 17,
            final(buf)@ == overlay(old(buf)@, text_of_mac(self@)),
    {
        let ghost text = text_of_mac(self@);
        let mut pos: usize = 0;
        let mut k: usize = 0;
        while k < 6
            invariant
                k <= 6,
                pos == (if k == 6 {
                    17
                } else {
                    3 * k
                }),
                text == text_of_mac(self@),
                text.len() == 17,
                buf@.len() == old(buf)@.len() >= 17,
                buf@ == overlay(old(buf)@, text.take(pos as int)),
            decreases 6 - k,
        {
            let byte: u8 = self.0[k];
            assert(byte >> 4 == byte / 16 && byte & 0xf == byte % 16 && byte >> 4 < 16 && byte & 0xf
                < 16) by (bit_vector);
            buf[pos] = hex_digit_of(byte >> 4);
            buf[pos + 1] = hex_digit_of(byte & 0xf);
            pos += 2;
            assert(text[3 * k as int] == hex_char(byte / 16));
            assert(text[3 * k as int + 1] == hex_char(byte % 16));
            assert(buf@ =~= overlay(old(buf)@, text.take(pos as int)));
            if k < 5 {
                buf[pos] = ':' as u8;
                pos += 1;
                assert(text[3 * k as int + 2] == ':' as u8);
                assert(buf@ =~= overlay(old(buf)@, text.take(pos as int)));
            }
            k += 1;
        }
        assert(text.take(17) =~= text);
        pos
    }

    /// The text of the address.
    pub fn to_string(&self) -> (r: String)
        ensures
            r@ == text_of_mac(self@).map_values(|c: u8| c as char),
    {
        let ghost text = text_of_mac(self@).map_values(|c: u8| c as char);
        let mut r: String = String::new();
        let mut k: usize = 0;
        assert(text.take(0) =~= r@);
        while k < 6
            invariant
                k <= 6,
                text == text_of_mac(self@).map_values(|c: u8| c as char),
                r@ == text.take(
                    if k == 6 {
                        17
                    } else {
                        3 * k as int
                    },
                ),
            decreases 6 - k,
        {
            let byte: u8 = self.0[k];
            assert(byte >> 4 == byte / 16 && byte & 0xf == byte % 16 && byte >> 4 < 16 && byte & 0xf
                < 16) by (bit_vector);
            let ghost i = 3 * k as int;
            assert(text_of_mac(self@)[i] == hex_char(byte / 16));
            assert(text_of_mac(self@)[i + 1] == hex_char(byte % 16));
            r.append(hex_str_of(byte >> 4));
            r.append(hex_str_of(byte & 0xf));
            assert(r@ =~= text.take(i + 2));
            if k < 5 {
                proof {
                    reveal_strlit(":");
                }
                r.append(":");
                assert(text_of_mac(self@)[i + 2] == ':' as u8);
                assert(r@ =~= text.take(i + 3));
            }
            k += 1;
        }
        assert(text.take(17) =~= text);
        r
    }
}

impl Default for MacAddr {
    /// The address of all zeros.
    fn default() -> (m: MacAddr)
        ensures
            m@ == Seq::new(6, |i: int| 0u8),
    {
        let m: MacAddr = MacAddr([0, 0, 0, 0, 0, 0]);
        assert(m@ =~= Seq::new(6, |i: int| 0u8));
        m
    }
}

impl core::ops::Deref for MacAddr {
    type Target = [u8; 6];

    fn deref(&self) -> (r: &[u8; 6])
        ensures
            *r == self.0,
    {
        &self.0
    }
}

impl core::ops::DerefMut for MacAddr {
    fn deref_mut(&mut self) -> (r: &mut [u8; 6])
        ensures
            *r == old(self).0,
            final(self).0 == *final(r),
    {
        &mut self.0
    }
}

/// A hexadecimal digit in either case.
pub open spec fn is_hex(c: u8) -> bool {
    48 <= c <= 57 || 65 <= c <= 70 || 97 <= c <= 102
}

/// Which texts spell an address: seventeen characters, two hexadecimal digits for each byte, a
/// colon or a dash between two bytes.
pub proof fn law_mac_texts(s: Seq<u8>)
    ensures
        mac_of_text(s) is Some <==> {
            &&& s.len() == 17
            &&& forall|k: int| 0 <= k < 6 ==> is_hex(#[trigger] s[3 * k]) && is_hex(s[3 * k + 1])
            &&& forall|k: int|
                0 <= k < 5 ==> (#[trigger] s[3 * k + 2] == 58 || s[3 * k + 2] == 45)
        },
        mac_of_text(s) matches Some(m) ==> m.len() == 6,
        forall|c: u8| #[trigger] is_hex(c) <==> (48 <= c <= 57 || 65 <= c <= 70 || 97 <= c <= 102),
{
    if mac_of_text(s) is Some {
        assert forall|k: int| 0 <= k < 6 implies is_hex(#[trigger] s[3 * k]) && is_hex(
            s[3 * k + 1],
        ) by {
            assert(octet_at(s, k) is Some);
        }
        assert forall|k: int| 0 <= k < 5 implies (#[trigger] s[3 * k + 2] == 58 || s[3 * k + 2]
            == 45) by {
            assert(separator_at(s, k));
        }
    }
    if s.len() == 17 && (forall|k: int|
        0 <= k < 6 ==> is_hex(#[trigger] s[3 * k]) && is_hex(s[3 * k + 1])) && (forall|k: int|
        0 <= k < 5 ==> (#[trigger] s[3 * k + 2] == 58 || s[3 * k + 2] == 45)) {
        assert forall|k: int| 0 <= k < 6 implies (#[trigger] octet_at(s, k)) is Some by {
            assert(is_hex(s[3 * k]) && is_hex(s[3 * k + 1]));
        }
        assert forall|k: int| 0 <= k < 5 implies #[trigger] separator_at(s, k) by {
            assert(s[3 * k + 2] == 58 || s[3 * k + 2] == 45);
        }
    }
}

/// The digit that stands for a value below sixteen, in lower case.
pub open spec fn nibble_char(d: int) -> int {
    if d < 10 {
        48 + d
    } else {
        87 + d
    }
}

/// The text of an address has the two digits of each byte, in lower case, and colons between the
/// bytes.
pub proof fn law_mac_text_spells_bytes(m: Seq<u8>, k: int)
    requires
        m.len() == 6,
        0 <= k < 6,
    ensures
        text_of_mac(m).len() == 17,
        text_of_mac(m)[3 * k] == nibble_char(m[k] as int / 16),
        text_of_mac(m)[3 * k + 1] == nibble_char(m[k] as int % 16),
        k < 5 ==> text_of_mac(m)[3 * k + 2] == 58,
        nibble_char(m[k] as int / 16) == if m[k] < 160 {
            48 + m[k] as int / 16
        } else {
            87 + m[k] as int / 16
        },
        nibble_char(m[k] as int % 16) == if m[k] as int % 16 < 10 {
            48 + m[k] as int % 16
        } else {
            87 + m[k] as int % 16
        },
{
}

/// A text that spells an address is, but for case and dashes, the text of that address.
pub proof fn law_mac_text_is_spelled_back(s: Seq<u8>, i: int)
    requires
        mac_of_text(s) is Some,
        0 <= i < 17,
    ensures
        text_of_mac(mac_of_text(s).unwrap())[i] == (if 65 <= s[i] <= 70 {
            s[i] + 32
        } else if s[i] == 45 {
            58
        } else {
            s[i] as int
        }),
{
    law_mac_text_round_trip(s);
    law_mac_texts(s);
    let t = text_of_mac(mac_of_text(s).unwrap());
    assert(t[i] == canonical_char(s[i]));
}

} // verus!
