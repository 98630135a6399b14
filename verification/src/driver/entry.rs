//! Entries that accompany a message: a key and a value on a line.
use vstd::prelude::*;
use crate::bytes::{append_bytes, copy_into, overlay};

verus! {

/// The line of an entry: a space, the key, an equals sign, the value, a line feed.
pub open spec fn entry_line(key: Seq<u8>, value: Seq<u8>) -> Seq<u8> {
    (seq![' ' as u8] + key + seq!['=' as u8] + value).push('\n' as u8)
}

/// Appends the line of an entry.
pub fn append_entry(buf: &mut Vec<u8>, key: &[u8], value: &[u8])
    ensures
        final(buf)@ == old(buf)@ + entry_line(key@, value@),
{
    buf.push(' ' as u8);
    append_bytes(buf, key);
    buf.push('=' as u8);
    append_bytes(buf, value);
    buf.push('\n' as u8);
    assert(buf@ =~= old(buf)@ + entry_line(key@, value@));
}

/// Writes the line of an entry over the beginning of a buffer, where it fits; returns the number
/// of bytes written, zero where it does not fit.
pub fn write_entry(buf: &mut [u8], key: &[u8], value: &[u8]) -> (n: usize)
    ensures
        ({
            let line = entry_line(key@, value@);
            if line.len() <= old(buf)@.len() {
                n == line.len() && final(buf)@ == overlay(old(buf)@, line)
            } else {
                n == 0 && final(buf)@ == old(buf)@
            }
        }),
{
    let klen: usize = key.len();
    let vlen: usize = value.len();
    assert(entry_line(key@, value@).len() == klen + vlen + 3);
    let room: usize = buf.len();
    if room < 3 || room - 3 < klen || room - 3 - klen < vlen {
        return 0;
    }
    let total: usize = 1 + klen + 1 + vlen + 1;
    let ghost before = buf@;
    buf[0] = ' ' as u8;
    {
        let (_, rest) = buf.split_at_mut(1);
        copy_into(rest, key);
    }
    buf[1 + klen] = '=' as u8;
    {
        let (_, rest) = buf.split_at_mut(klen + 2);
        copy_into(rest, value);
    }
    buf[klen + vlen + 2] = '\n' as u8;
    assert(buf@ =~= overlay(before, entry_line(key@, value@)));
    total
}

/// The line of an entry holds the key and the value whole: a space, the key, an equals sign, the
/// value, a line feed, and nothing else.
pub proof fn law_entry_line_is_whole(key: Seq<u8>, value: Seq<u8>)
    ensures
        entry_line(key, value) == seq![32u8] + key + seq![61u8] + value + seq![10u8],
        entry_line(key, value).len() == key.len() + value.len() + 3,
{
    assert(entry_line(key, value) =~= seq![32u8] + key + seq![61u8] + value + seq![10u8]);
}

} // verus!
