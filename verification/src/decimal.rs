//! Decimal numbers as text.
use vstd::prelude::*;
use crate::bytes::{law_trim_ignores_newline, trim_newline, trimmed};
use crate::error::{Error, EINVAL};

verus! {

/// The character of a decimal digit.
pub open spec fn digit(d: nat) -> u8 {
    ('0' as u8 + d) as u8
}

/// The decimal digits of `n`, none for zero.
pub open spec fn digits(n: nat) -> Seq<u8>
    decreases n,
{
    if n == 0 {
        Seq::<u8>::empty()
    } else {
        digits(n / 10).push(digit(n % 10))
    }
}

/// The decimal text of `n`, without leading zeros.
pub open spec fn decimal(n: nat) -> Seq<u8> {
    if n == 0 {
        seq!['0' as u8]
    } else {
        digits(n)
    }
}

pub open spec fn is_digit(c: u8) -> bool {
    '0' as u8 <= c <= '9' as u8
}

pub open spec fn all_digits(s: Seq<u8>) -> bool {
    forall|i: int| 0 <= i < s.len() ==> is_digit(#[trigger] s[i])
}

/// The number that a string of decimal digits denotes.
pub open spec fn digits_value(s: Seq<u8>) -> nat
    decreases s.len(),
{
    if s.len() == 0 {
        0
    } else {
        (digits_value(s.drop_last()) * 10 + (s.last() - '0' as u8)) as nat
    }
}

/// The digits of an unsigned number: what follows an optional plus sign.
pub open spec fn unsigned_part(s: Seq<u8>) -> Seq<u8> {
    if s.len() > 0 && s[0] == '+' as u8 {
        s.skip(1)
    } else {
        s
    }
}

/// The 16-bit number that a text denotes: an optional plus sign, then at least one digit and
/// nothing but digits, with a value that fits.
pub open spec fn u16_text(s: Seq<u8>) -> Option<u16> {
    let d = unsigned_part(s);
    if d.len() > 0 && all_digits(d) && digits_value(d) <= u16::MAX {
        Some(digits_value(d) as u16)
    } else {
        None
    }
}

/// The number of digits grows with the number.
pub proof fn lemma_digits_len_monotonic(m: nat, n: nat)
    requires
        m <= n,
    ensures
        digits(m).len() <= digits(n).len(),
    decreases n,
{
    if m > 0 {
        lemma_digits_len_monotonic(m / 10, n / 10);
    }
}

/// How many characters a number of each width takes at most.
pub proof fn lemma_decimal_len(n: nat)
    ensures
        0 < decimal(n).len(),
        n <= u16::MAX ==> decimal(n).len() <= 5,
        n <= u32::MAX ==> decimal(n).len() <= 10,
        n <= u64::MAX ==> decimal(n).len() <= 20,
{
    reveal_with_fuel(digits, 22);
    if n <= u16::MAX {
        lemma_digits_len_monotonic(n, u16::MAX as nat);
    }
    if n <= u32::MAX {
        lemma_digits_len_monotonic(n, u32::MAX as nat);
    }
    if n <= u64::MAX {
        lemma_digits_len_monotonic(n, u64::MAX as nat);
    }
}

/// Digits are digits, and they denote the number.
pub proof fn lemma_digits_value(n: nat)
    ensures
        all_digits(digits(n)),
        digits_value(digits(n)) == n,
    decreases n,
{
    if n > 0 {
        lemma_digits_value(n / 10);
        let front = digits(n / 10);
        assert(digits(n).drop_last() =~= front);
        assert forall|i: int| 0 <= i < digits(n).len() implies is_digit(#[trigger] digits(n)[i]) by {
            if i < front.len() {
                assert(digits(n)[i] == front[i]);
            }
        }
    }
}

/// The decimal text of a number is all digits, and reads back as the number.
pub proof fn lemma_decimal_value(n: nat)
    ensures
        all_digits(decimal(n)),
        digits_value(decimal(n)) == n,
        decimal(n).len() > 0,
{
    if n == 0 {
        reveal_with_fuel(digits_value, 2);
        assert(decimal(n).drop_last() =~= Seq::<u8>::empty());
    } else {
        lemma_digits_value(n);
    }
}

/// The decimal text of a 16-bit number reads back as that number.
pub proof fn law_u16_round_trip(n: u16)
    ensures
        u16_text(decimal(n as nat)) == Some(n),
{
    lemma_decimal_value(n as nat);
    assert(is_digit(decimal(n as nat)[0]));
}

/// Digits of a prefix: the value only grows as digits are added.
proof fn lemma_prefix_value(s: Seq<u8>, n: int)
    requires
        all_digits(s),
        0 <= n <= s.len(),
    ensures
        digits_value(s.take(n)) <= digits_value(s),
    decreases s.len(),
{
    if n == s.len() {
        assert(s.take(n) =~= s);
    } else {
        assert(s.drop_last().take(n) =~= s.take(n));
        assert forall|i: int| 0 <= i < s.drop_last().len() implies is_digit(
            #[trigger] s.drop_last()[i],
        ) by {
            assert(s.drop_last()[i] == s[i]);
        }
        lemma_prefix_value(s.drop_last(), n);
        assert(is_digit(s[s.len() - 1]));
    }
}

/// Reads a 16-bit number: an optional plus sign, then decimal digits only.
pub fn read_u16(s: &[u8]) -> (r: Option<u16>)
    ensures
        r == u16_text(s@),
{
    let start: usize = if s.len() > 0 && s[0] == '+' as u8 {
        1
    } else {
        0
    };
    let ghost d = unsigned_part(s@);
    assert(d =~= s@.skip(start as int));
    if start == s.len() {
        return None;
    }
    let mut value: u32 = 0;
    let mut i: usize = start;
    assert(d.take(0) =~= Seq::<u8>::empty());
    while i < s.len()
        invariant
            start <= i <= s@.len(),
            start <= 1,
            d == s@.skip(start as int),
            d == unsigned_part(s@),
            d.len() > 0,
            forall|j: int| 0 <= j < i - start ==> is_digit(#[trigger] d[j]),
            value == digits_value(d.take(i - start)),
            value <= u16::MAX,
        decreases s@.len() - i,
    {
        let c: u8 = s[i];
        let ghost k = i - start;
        assert(d[k] == c);
        if c < '0' as u8 || c > '9' as u8 {
            assert(!is_digit(d[k]));
            return None;
        }
        value = value * 10 + (c - '0' as u8) as u32;
        assert(d.take(k + 1).drop_last() =~= d.take(k));
        assert(value == digits_value(d.take(k + 1)));
        if value > 65535 {
            proof {
                if all_digits(d) {
                    lemma_prefix_value(d, k + 1);
                }
            }
            return None;
        }
        i += 1;
    }
    assert(d.take(i - start) =~= d);
    Some(value as u16)
}

/// Parses a 16-bit number that may be followed by line ends.
pub fn parse_u16(page: &[u8]) -> (r: Result<u16, Error>)
    ensures
        r == (match u16_text(trimmed(page@)) {
            Some(n) => Ok(n),
            None => Err(Error(EINVAL)),
        }),
{
    let text = trim_newline(page);
    if text.len() == 0 {
        return Err(Error(EINVAL));
    }
    match read_u16(text) {
        Some(n) => Ok(n),
        None => Err(Error(EINVAL)),
    }
}

/// A 16-bit number printed on a line of its own parses as that number.
pub proof fn law_u16_line_round_trip(n: u16)
    ensures
        u16_text(trimmed(decimal(n as nat).push('\n' as u8))) == Some(n),
{
    let text = decimal(n as nat);
    lemma_decimal_value(n as nat);
    law_u16_round_trip(n);
    law_trim_ignores_newline(text);
    assert(is_digit(text[text.len() - 1]));
    assert(trimmed(text) == text);
}

/// Writes the decimal text of `val` at the end of `buf`; returns where it starts.
pub fn write_decimal(buf: &mut [u8], val: u64) -> (start: usize)
    requires
        decimal(val as nat).len() <= old(buf)@.len(),
    ensures
        start == old(buf)@.len() - decimal(val as nat).len(),
        final(buf)@ == old(buf)@.take(start as int) + decimal(val as nat),
{
    let mut i: usize = buf.len();
    if val == 0 {
        i -= 1;
        buf[i] = '0' as u8;
        assert(buf@ =~= old(buf)@.take(i as int) + decimal(0));
        return i;
    }
    let mut n: u64 = val;
    assert(buf@.skip(i as int) =~= Seq::<u8>::empty());
    assert(digits(n as nat) + buf@.skip(i as int) =~= digits(val as nat));
    while n > 0
        invariant
            val > 0,
            i <= buf@.len(),
            buf@.len() == old(buf)@.len(),
            digits(val as nat) == digits(n as nat) + buf@.skip(i as int),
            digits(n as nat).len() <= i,
            forall|j: int| 0 <= j < i ==> buf@[j] == old(buf)@[j],
        decreases n,
    {
        let ghost before = buf@;
        let ghost m = n as nat;
        i -= 1;
        buf[i] = '0' as u8 + (n % 10) as u8;
        n = n / 10;
        proof {
            assert(buf@.skip(i as int) =~= seq![digit(m % 10)] + before.skip(i + 1));
            assert(digits(n as nat) + buf@.skip(i as int) =~= digits(m) + before.skip(i + 1));
        }
    }
    assert(digits(0) + buf@.skip(i as int) =~= buf@.skip(i as int));
    assert(buf@ =~= old(buf)@.take(i as int) + decimal(val as nat));
    i
}

/// Formats a 16-bit number at the end of a buffer; returns the text.
pub fn format_u16(buf: &mut [u8; 16], val: u16) -> (text: &[u8])
    ensures
        text@ == decimal(val as nat),
        final(buf)@ == old(buf)@.take(16 - text@.len()) + text@,
{
    proof {
        lemma_decimal_len(val as nat);
    }
    let start: usize = write_decimal(buf, val as u64);
    assert(buf@.subrange(start as int, 16) =~= decimal(val as nat));
    &buf[start..16]
}

/// Formats a 32-bit number at the end of a buffer; returns the text.
pub fn format_u32(buf: &mut [u8; 16], val: u32) -> (text: &[u8])
    ensures
        text@ == decimal(val as nat),
        final(buf)@ == old(buf)@.take(16 - text@.len()) + text@,
{
    proof {
        lemma_decimal_len(val as nat);
    }
    let start: usize = write_decimal(buf, val as u64);
    assert(buf@.subrange(start as int, 16) =~= decimal(val as nat));
    &buf[start..16]
}

/// Formats a 64-bit number at the end of a buffer; returns the text.
pub fn format_u64(buf: &mut [u8; 32], val: u64) -> (text: &[u8])
    ensures
        text@ == decimal(val as nat),
        final(buf)@ == old(buf)@.take(32 - text@.len()) + text@,
{
    proof {
        lemma_decimal_len(val as nat);
    }
    let start: usize = write_decimal(buf, val);
    assert(buf@.subrange(start as int, 32) =~= decimal(val as nat));
    &buf[start..32]
}

/// Decimal text is built digit by digit: a number below ten is one digit, and one more digit
/// behind a positive number makes ten times that number and the digit.
pub proof fn law_decimal_digit_by_digit(n: nat, d: nat)
    requires
        d < 10,
    ensures
        decimal(d) == seq![(48 + d) as u8],
        n > 0 ==> decimal(10 * n + d) == decimal(n).push((48 + d) as u8),
{
    if d > 0 {
        assert(digits(d) == digits(d / 10).push(digit(d % 10)));
        assert(digits(0) == Seq::<u8>::empty());
        assert(decimal(d) =~= seq![(48 + d) as u8]);
    }
    assert((10 * n + d) / 10 == n && (10 * n + d) % 10 == d);
}

/// Digits behind leading zeros are the decimal text of their value.
proof fn lemma_digits_are_padded_decimal(s: Seq<u8>) -> (zeros: nat)
    requires
        s.len() > 0,
        all_digits(s),
    ensures
        s == Seq::new(zeros, |i: int| 48u8) + decimal(digits_value(s)),
    decreases s.len(),
{
    let front = s.drop_last();
    let d = (s.last() - 48) as nat;
    assert(is_digit(s[s.len() - 1]));
    assert forall|i: int| 0 <= i < front.len() implies is_digit(#[trigger] front[i]) by {
        assert(front[i] == s[i]);
    }
    let v = digits_value(front);
    assert(digits_value(s) == v * 10 + d);
    law_decimal_digit_by_digit(v, d);
    if front.len() == 0 {
        assert(v == 0);
        assert(s =~= Seq::new(0, |i: int| 48u8) + decimal(d));
        0
    } else {
        let z = lemma_digits_are_padded_decimal(front);
        assert(s =~= front.push((48 + d) as u8));
        if v > 0 {
            assert(v * 10 + d == 10 * v + d);
            assert(s =~= Seq::new(z, |i: int| 48u8) + decimal(10 * v + d));
            z
        } else {
            law_decimal_digit_by_digit(0, 0);
            assert(decimal(0) == seq![48u8]);
            assert(front =~= Seq::new(z + 1, |i: int| 48u8));
            assert(s =~= Seq::new(z + 1, |i: int| 48u8) + decimal(d));
            z + 1
        }
    }
}

/// Leading zeros change nothing of the value.
proof fn lemma_padded_value(zeros: nat, n: nat)
    ensures
        all_digits(Seq::new(zeros, |i: int| 48u8) + decimal(n)),
        digits_value(Seq::new(zeros, |i: int| 48u8) + decimal(n)) == n,
{
    let pad = Seq::new(zeros, |i: int| 48u8);
    lemma_decimal_value(n);
    lemma_zeros_value(zeros);
    lemma_joined_value(pad, decimal(n));
    assert forall|i: int| 0 <= i < (pad + decimal(n)).len() implies is_digit(
        #[trigger] (pad + decimal(n))[i],
    ) by {
        if i >= zeros {
            assert(is_digit(decimal(n)[i - zeros]));
        }
    }
}

proof fn lemma_zeros_value(zeros: nat)
    ensures
        digits_value(Seq::new(zeros, |i: int| 48u8)) == 0,
    decreases zeros,
{
    let pad = Seq::new(zeros, |i: int| 48u8);
    if zeros > 0 {
        let less = (zeros - 1) as nat;
        assert(pad.drop_last() =~= Seq::new(less, |i: int| 48u8));
        lemma_zeros_value(less);
    }
}

/// Digits behind digits of value zero have their own value.
proof fn lemma_joined_value(a: Seq<u8>, b: Seq<u8>)
    requires
        digits_value(a) == 0,
    ensures
        digits_value(a + b) == digits_value(b),
    decreases b.len(),
{
    if b.len() == 0 {
        assert(a + b =~= a);
    } else {
        assert((a + b).drop_last() =~= a + b.drop_last());
        lemma_joined_value(a, b.drop_last());
    }
}

/// The decimal text of a number that fits, with any number of zeros in front of it and perhaps a
/// plus sign in front of these, denotes the number. That of a number that does not fit denotes
/// none.
pub proof fn law_padded_decimal_is_read(plus: bool, zeros: nat, n: nat)
    ensures
        u16_text(
            (if plus {
                seq![43u8]
            } else {
                Seq::<u8>::empty()
            }) + (Seq::new(zeros, |i: int| 48u8) + decimal(n)),
        ) == (if n <= 65535 {
            Some(n as u16)
        } else {
            None
        }),
{
    let padded = Seq::new(zeros, |i: int| 48u8) + decimal(n);
    let s = (if plus {
        seq![43u8]
    } else {
        Seq::<u8>::empty()
    }) + padded;
    lemma_padded_value(zeros, n);
    lemma_decimal_value(n);
    if plus {
        assert(s[0] == '+' as u8);
        assert(s.skip(1) =~= padded);
    } else {
        assert(s =~= padded);
        assert(is_digit(padded[0]));
    }
    assert(unsigned_part(s) =~= padded);
}

/// A text that denotes a number is the decimal text of the number, with zeros in front of it and
/// perhaps a plus sign in front of these. Nothing else denotes a number.
pub proof fn law_read_text_is_padded_decimal(s: Seq<u8>) -> (w: (bool, nat))
    requires
        u16_text(s) is Some,
    ensures
        s == (if w.0 {
            seq![43u8]
        } else {
            Seq::<u8>::empty()
        }) + (Seq::new(w.1, |i: int| 48u8) + decimal(u16_text(s).unwrap() as nat)),
{
    let d = unsigned_part(s);
    let z = lemma_digits_are_padded_decimal(d);
    if s.len() > 0 && s[0] == '+' as u8 {
        assert(s =~= seq![43u8] + d);
        (true, z)
    } else {
        assert(s =~= Seq::<u8>::empty() + d);
        (false, z)
    }
}

} // verus!
