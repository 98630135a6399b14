//! Byte strings: ASCII text, trimming, searching and copying.
use vstd::prelude::*;

verus! {

/// The bytes of ASCII text.
pub open spec fn ascii(text: Seq<char>) -> Seq<u8> {
    text.map_values(|c: char| c as u8)
}

/// The bytes of ASCII text.
pub fn ascii_bytes(text: &str) -> (r: &[u8])
    requires
        vstd::utf8::is_ascii_chars(text@),
    ensures
        r@ == ascii(text@),
{
    proof {
        vstd::utf8::is_ascii_chars_encode_utf8(text@);
    }
    text.as_bytes()
}

/// A byte that ends a line: line feed or carriage return.
pub open spec fn is_eol(c: u8) -> bool {
    c == '\n' as u8 || c == '\r' as u8
}

/// The bytes without the line ends at their end.
pub open spec fn trimmed(s: Seq<u8>) -> Seq<u8>
    decreases s.len(),
{
    if s.len() > 0 && is_eol(s.last()) {
        trimmed(s.drop_last())
    } else {
        s
    }
}

/// What trimming takes away: the longest tail that is made of line ends.
pub proof fn lemma_trimmed(s: Seq<u8>)
    ensures
        trimmed(s).len() <= s.len(),
        trimmed(s) == s.take(trimmed(s).len() as int),
        forall|i: int| trimmed(s).len() <= i < s.len() ==> is_eol(#[trigger] s[i]),
        trimmed(s).len() > 0 ==> !is_eol(trimmed(s).last()),
    decreases s.len(),
{
    if s.len() > 0 && is_eol(s.last()) {
        lemma_trimmed(s.drop_last());
        let n = trimmed(s).len() as int;
        assert(s.drop_last().take(n) =~= s.take(n));
        assert forall|i: int| n <= i < s.len() implies is_eol(#[trigger] s[i]) by {
            if i < s.len() - 1 {
                assert(s[i] == s.drop_last()[i]);
            }
        }
    } else {
        assert(s.take(s.len() as int) =~= s);
    }
}

/// Trimming twice is trimming once.
pub proof fn law_trim_idempotent(s: Seq<u8>)
    ensures
        trimmed(trimmed(s)) == trimmed(s),
{
    lemma_trimmed(s);
}

/// A line feed at the end makes no difference to trimming.
pub proof fn law_trim_ignores_newline(s: Seq<u8>)
    ensures
        trimmed(s.push('\n' as u8)) == trimmed(s),
{
    assert(s.push('\n' as u8).drop_last() =~= s);
}

/// No run of line ends at the end makes a difference to trimming.
pub proof fn law_trim_ignores_line_ends(s: Seq<u8>, tail: Seq<u8>)
    requires
        forall|i: int| 0 <= i < tail.len() ==> is_eol(#[trigger] tail[i]),
    ensures
        trimmed(s + tail) == trimmed(s),
    decreases tail.len(),
{
    if tail.len() == 0 {
        assert(s + tail =~= s);
    } else {
        let front = tail.drop_last();
        assert((s + tail).drop_last() =~= s + front);
        assert((s + tail).last() == tail[tail.len() - 1]);
        assert forall|i: int| 0 <= i < front.len() implies is_eol(#[trigger] front[i]) by {
            assert(front[i] == tail[i]);
        }
        law_trim_ignores_line_ends(s, front);
    }
}

/// Trims the line ends off the end of a byte slice.
pub fn trim_newline(s: &[u8]) -> (r: &[u8])
    ensures
        r@ == trimmed(s@),
{
    let mut len: usize = s.len();
    assert(s@.take(len as int) =~= s@);
    while len > 0 && (s[len - 1] == '\n' as u8 || s[len - 1] == '\r' as u8)
        invariant
            len <= s@.len(),
            trimmed(s@.take(len as int)) == trimmed(s@),
        decreases len,
    {
        assert(s@.take(len as int).drop_last() =~= s@.take(len - 1));
        len -= 1;
    }
    assert(len > 0 ==> s@.take(len as int).last() == s@[len - 1]);
    assert(s@.subrange(0, len as int) =~= s@.take(len as int));
    &s[0..len]
}

/// The number of bytes in front of the first `c`; all of them where there is no `c`.
pub open spec fn until(s: Seq<u8>, c: u8) -> int
    decreases s.len(),
{
    if s.len() == 0 || s[0] == c {
        0
    } else {
        1 + until(s.skip(1), c)
    }
}

/// What `until` finds.
pub proof fn lemma_until(s: Seq<u8>, c: u8)
    ensures
        0 <= until(s, c) <= s.len(),
        forall|i: int| 0 <= i < until(s, c) ==> #[trigger] s[i] != c,
        until(s, c) < s.len() ==> s[until(s, c)] == c,
    decreases s.len(),
{
    if s.len() > 0 && s[0] != c {
        lemma_until(s.skip(1), c);
        assert forall|i: int| 0 <= i < until(s, c) implies #[trigger] s[i] != c by {
            if i > 0 {
                assert(s[i] == s.skip(1)[i - 1]);
            }
        }
    }
}

/// `until` is the only position with its properties.
pub proof fn lemma_until_unique(s: Seq<u8>, c: u8, n: int)
    requires
        0 <= n <= s.len(),
        forall|i: int| 0 <= i < n ==> #[trigger] s[i] != c,
        n < s.len() ==> s[n] == c,
    ensures
        until(s, c) == n,
{
    lemma_until(s, c);
    let m = until(s, c);
    if m < n {
        assert(s[m] != c);
    } else if n < m {
        assert(s[n] != c);
    }
}

/// The position of the first `c`.
pub fn position(s: &[u8], c: u8) -> (r: Option<usize>)
    ensures
        r matches Some(i) ==> i < s@.len() && i == until(s@, c),
        r is None <==> until(s@, c) == s@.len(),
{
    let mut i: usize = 0;
    while i < s.len()
        invariant
            i <= s@.len(),
            forall|j: int| 0 <= j < i ==> #[trigger] s@[j] != c,
        decreases s@.len() - i,
    {
        if s[i] == c {
            proof {
                lemma_until_unique(s@, c, i as int);
            }
            return Some(i);
        }
        i += 1;
    }
    proof {
        lemma_until_unique(s@, c, i as int);
    }
    None
}

/// The text of a NUL terminated string in a buffer: what stands in front of the first NUL.
pub open spec fn c_text(s: Seq<u8>) -> Seq<u8> {
    s.take(until(s, 0))
}

/// The length of a NUL terminated string in a buffer, or of the whole buffer where there is no NUL.
pub fn strlen(s: &[u8]) -> (n: usize)
    ensures
        n == until(s@, 0),
        n <= s@.len(),
        n == c_text(s@).len(),
{
    proof {
        lemma_until(s@, 0);
    }
    match position(s, 0) {
        Some(i) => i,
        None => s.len(),
    }
}

/// Compares two byte slices.
pub fn bytes_eq(a: &[u8], b: &[u8]) -> (r: bool)
    ensures
        r == (a@ == b@),
{
    if a.len() != b.len() {
        return false;
    }
    let mut i: usize = 0;
    while i < a.len()
        invariant
            i <= a@.len(),
            a@.len() == b@.len(),
            forall|j: int| 0 <= j < i ==> a@[j] == b@[j],
        decreases a@.len() - i,
    {
        if a[i] != b[i] {
            return false;
        }
        i += 1;
    }
    assert(a@ =~= b@);
    true
}

/// A buffer after `text` was written over its beginning.
pub open spec fn overlay(buf: Seq<u8>, text: Seq<u8>) -> Seq<u8> {
    text + buf.skip(text.len() as int)
}

/// Writes `src` over the beginning of `dst`.
pub fn copy_into(dst: &mut [u8], src: &[u8])
    requires
        src@.len() <= old(dst)@.len(),
    ensures
        final(dst)@ == overlay(old(dst)@, src@),
{
    let mut i: usize = 0;
    while i < src.len()
        invariant
            i <= src@.len() <= dst@.len(),
            dst@ == overlay(old(dst)@, src@.take(i as int)),
            dst@.len() == old(dst)@.len(),
        decreases src@.len() - i,
    {
        dst[i] = src[i];
        i += 1;
        assert(dst@ =~= overlay(old(dst)@, src@.take(i as int)));
    }
    assert(src@.take(i as int) =~= src@);
}

/// Writes `src` and a line feed over the beginning of `dst`; returns how many bytes were written.
pub fn copy_line(dst: &mut [u8], src: &[u8]) -> (n: usize)
    requires
        src@.len() < old(dst)@.len(),
    ensures
        n == src@.len() + 1,
        final(dst)@ == overlay(old(dst)@, src@.push('\n' as u8)),
{
    let len: usize = src.len();
    copy_into(dst, src);
    dst[len] = '\n' as u8;
    assert(dst@ =~= overlay(old(dst)@, src@.push('\n' as u8)));
    len + 1
}

/// Appends `src` to `dst`.
pub fn append_bytes(dst: &mut Vec<u8>, src: &[u8])
    ensures
        final(dst)@ == old(dst)@ + src@,
{
    let mut i: usize = 0;
    assert(dst@ =~= old(dst)@ + src@.take(0));
    while i < src.len()
        invariant
            i <= src@.len(),
            dst@ == old(dst)@ + src@.take(i as int),
        decreases src@.len() - i,
    {
        dst.push(src[i]);
        i += 1;
        assert(dst@ =~= old(dst)@ + src@.take(i as int));
    }
    assert(src@.take(i as int) =~= src@);
}

/// A vector with the bytes of a slice.
pub fn to_vec(src: &[u8]) -> (v: Vec<u8>)
    ensures
        v@ == src@,
{
    let mut v: Vec<u8> = Vec::new();
    append_bytes(&mut v, src);
    assert(v@ =~= src@);
    v
}

/// The contents of lines or packets.
pub open spec fn lines_view(lines: Seq<Vec<u8>>) -> Seq<Seq<u8>> {
    lines.map_values(|line: Vec<u8>| line@)
}

/// The bytes of ASCII text are its characters, one for one.
pub proof fn law_ascii_is_bytewise(text: Seq<char>)
    ensures
        ascii(text).len() == text.len(),
        forall|i: int| 0 <= i < text.len() ==> #[trigger] ascii(text)[i] == text[i] as u8,
{
}

/// Trimming keeps a beginning of the bytes: what is cut off is nothing but line feeds and carriage
/// returns, and what is kept ends in neither.
pub proof fn law_trim_cuts_line_ends_only(s: Seq<u8>)
    ensures
        exists|tail: Seq<u8>|
            s == #[trigger] (trimmed(s) + tail) && forall|i: int|
                0 <= i < tail.len() ==> (#[trigger] tail[i] == 10 || tail[i] == 13),
        trimmed(s).len() > 0 ==> trimmed(s).last() != 10 && trimmed(s).last() != 13,
{
    lemma_trimmed(s);
    let n = trimmed(s).len() as int;
    let tail = s.skip(n);
    assert(s =~= trimmed(s) + tail);
    assert forall|i: int| 0 <= i < tail.len() implies (#[trigger] tail[i] == 10 || tail[i]
        == 13) by {
        assert(tail[i] == s[n + i]);
        assert(is_eol(s[n + i]));
    }
}

/// Writing over the beginning of a buffer changes as many bytes as are written, and no others.
pub proof fn law_overlay_is_bytewise(buf: Seq<u8>, text: Seq<u8>)
    requires
        text.len() <= buf.len(),
    ensures
        overlay(buf, text).len() == buf.len(),
        forall|i: int|
            0 <= i < buf.len() ==> #[trigger] overlay(buf, text)[i] == if i < text.len() {
                text[i]
            } else {
                buf[i]
            },
{
}

/// The text in a buffer is its beginning up to the first NUL, or all of it where there is none.
pub proof fn law_c_text_ends_at_nul(s: Seq<u8>)
    ensures
        c_text(s).len() <= s.len(),
        forall|i: int| 0 <= i < c_text(s).len() ==> #[trigger] c_text(s)[i] == s[i] && s[i] != 0,
        c_text(s).len() < s.len() ==> s[c_text(s).len() as int] == 0,
{
    lemma_until(s, 0);
    assert forall|i: int| 0 <= i < c_text(s).len() implies #[trigger] c_text(s)[i] == s[i] && s[i]
        != 0 by {
        assert(s[i] != 0);
    }
}

/// The contents of lines are those of each of them.
pub proof fn law_lines_view_is_linewise(lines: Seq<Vec<u8>>)
    ensures
        lines_view(lines).len() == lines.len(),
        forall|i: int| 0 <= i < lines.len() ==> #[trigger] lines_view(lines)[i] == lines[i]@,
{
}

} // verus!
