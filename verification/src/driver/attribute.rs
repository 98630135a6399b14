//! Attributes: text that is shown on a page, and text that is stored.
use vstd::prelude::*;
use crate::bytes::{
    ascii,
    ascii_bytes,
    bytes_eq,
    copy_into,
    law_trim_ignores_newline,
    overlay,
    trim_newline,
    trimmed,
};
use crate::error::{Error, EINVAL};

verus! {

/// Size of the page that an attribute is shown on.
pub const PAGE_SIZE: usize = 4096;

/// The words for true.
pub open spec fn is_true_word(s: Seq<u8>) -> bool {
    ||| s == ascii("1"@)
    ||| s == ascii("y"@)
    ||| s == ascii("Y"@)
    ||| s == ascii("yes"@)
    ||| s == ascii("Yes"@)
    ||| s == ascii("YES"@)
    ||| s == ascii("true"@)
    ||| s == ascii("True"@)
    ||| s == ascii("TRUE"@)
}

/// The words for false.
pub open spec fn is_false_word(s: Seq<u8>) -> bool {
    ||| s == ascii("0"@)
    ||| s == ascii("n"@)
    ||| s == ascii("N"@)
    ||| s == ascii("no"@)
    ||| s == ascii("No"@)
    ||| s == ascii("NO"@)
    ||| s == ascii("false"@)
    ||| s == ascii("False"@)
    ||| s == ascii("FALSE"@)
}

/// The truth value that a text denotes.
pub open spec fn bool_of_text(s: Seq<u8>) -> Option<bool> {
    if is_true_word(s) {
        Some(true)
    } else if is_false_word(s) {
        Some(false)
    } else {
        None
    }
}

/// Compares bytes with a word.
fn is_word(s: &[u8], word: &str) -> (r: bool)
    requires
        vstd::utf8::is_ascii_chars(word@),
    ensures
        r == (s@ == ascii(word@)),
{
    bytes_eq(s, ascii_bytes(word))
}

/// Whether bytes are a word for true.
fn is_true(s: &[u8]) -> (r: bool)
    ensures
        r == is_true_word(s@),
{
    proof {
        reveal_strlit("1");
        reveal_strlit("y");
        reveal_strlit("Y");
        reveal_strlit("yes");
        reveal_strlit("Yes");
        reveal_strlit("YES");
        reveal_strlit("true");
        reveal_strlit("True");
        reveal_strlit("TRUE");
    }
    is_word(s, "1") || is_word(s, "y") || is_word(s, "Y") || is_word(s, "yes") || is_word(s, "Yes")
        || is_word(s, "YES") || is_word(s, "true") || is_word(s, "True") || is_word(s, "TRUE")
}

/// Whether bytes are a word for false.
fn is_false(s: &[u8]) -> (r: bool)
    ensures
        r == is_false_word(s@),
{
    proof {
        reveal_strlit("0");
        reveal_strlit("n");
        reveal_strlit("N");
        reveal_strlit("no");
        reveal_strlit("No");
        reveal_strlit("NO");
        reveal_strlit("false");
        reveal_strlit("False");
        reveal_strlit("FALSE");
    }
    is_word(s, "0") || is_word(s, "n") || is_word(s, "N") || is_word(s, "no") || is_word(s, "No")
        || is_word(s, "NO") || is_word(s, "false") || is_word(s, "False") || is_word(s, "FALSE")
}

/// Parses a truth value, which line ends may follow.
pub fn parse_bool(page: &[u8]) -> (r: Result<bool, Error>)
    ensures
        r == (match bool_of_text(trimmed(page@)) {
            Some(val) => Ok(val),
            None => Err(Error(EINVAL)),
        }),
{
    let text = trim_newline(page);
    if is_true(text) {
        Ok(true)
    } else if is_false(text) {
        Ok(false)
    } else {
        Err(Error(EINVAL))
    }
}

/// The line that shows a truth value.
pub open spec fn bool_line(val: bool) -> Seq<u8> {
    if val {
        seq!['1' as u8, '\n' as u8]
    } else {
        seq!['0' as u8, '\n' as u8]
    }
}

/// A shown truth value parses as that value.
pub proof fn law_bool_round_trip(val: bool)
    ensures
        bool_of_text(trimmed(bool_line(val))) == Some(val),
{
    let digit: u8 = if val {
        '1' as u8
    } else {
        '0' as u8
    };
    let word = seq![digit];
    assert(bool_line(val) =~= word.push('\n' as u8));
    law_trim_ignores_newline(word);
    assert(trimmed(word) == word);
    reveal_strlit("0");
    reveal_strlit("1");
    assert(ascii("1"@) =~= seq!['1' as u8]);
    assert(ascii("0"@) =~= seq!['0' as u8]);
    if !val {
        reveal_strlit("y");
        reveal_strlit("Y");
        reveal_strlit("yes");
        reveal_strlit("Yes");
        reveal_strlit("YES");
        reveal_strlit("true");
        reveal_strlit("True");
        reveal_strlit("TRUE");
        assert(!is_true_word(word)) by {
            assert(word[0] == '0' as u8);
            assert(ascii("1"@)[0] != '0' as u8);
            assert(ascii("y"@)[0] != '0' as u8);
            assert(ascii("Y"@)[0] != '0' as u8);
            assert(ascii("yes"@)[0] != '0' as u8);
            assert(ascii("Yes"@)[0] != '0' as u8);
            assert(ascii("YES"@)[0] != '0' as u8);
            assert(ascii("true"@)[0] != '0' as u8);
            assert(ascii("True"@)[0] != '0' as u8);
            assert(ascii("TRUE"@)[0] != '0' as u8);
        }
    }
}

/// Shows a truth value on a page; returns the number of bytes written.
pub fn show_bool(val: bool, page: &mut [u8; PAGE_SIZE]) -> (n: usize)
    ensures
        n == bool_line(val).len(),
        final(page)@ == overlay(old(page)@, bool_line(val)),
{
    let line: [u8; 2] = [
        if val {
            '1' as u8
        } else {
            '0' as u8
        },
        '\n' as u8,
    ];
    assert(line@ =~= bool_line(val));
    copy_into(page, &line);
    2
}

/// The words that denote a truth value, and the value that each denotes. Nothing else denotes one.
pub proof fn law_truth_words(s: Seq<u8>)
    ensures
        bool_of_text(s) == Some(true) <==> (s == ascii("1"@) || s == ascii("y"@) || s == ascii("Y"@)
            || s == ascii("yes"@) || s == ascii("Yes"@) || s == ascii("YES"@) || s == ascii("true"@)
            || s == ascii("True"@) || s == ascii("TRUE"@)),
        bool_of_text(s) == Some(false) <==> (s == ascii("0"@) || s == ascii("n"@) || s == ascii(
            "N"@,
        ) || s == ascii("no"@) || s == ascii("No"@) || s == ascii("NO"@) || s == ascii("false"@)
            || s == ascii("False"@) || s == ascii("FALSE"@)),
        bool_line(true) == seq![49u8, 10u8],
        bool_line(false) == seq![48u8, 10u8],
{
    reveal_strlit("1");
    reveal_strlit("y");
    reveal_strlit("Y");
    reveal_strlit("yes");
    reveal_strlit("Yes");
    reveal_strlit("YES");
    reveal_strlit("true");
    reveal_strlit("True");
    reveal_strlit("TRUE");
    reveal_strlit("0");
    reveal_strlit("n");
    reveal_strlit("N");
    reveal_strlit("no");
    reveal_strlit("No");
    reveal_strlit("NO");
    reveal_strlit("false");
    reveal_strlit("False");
    reveal_strlit("FALSE");
    if is_true_word(s) && is_false_word(s) {
        assert(s[0] == '1' as u8 || s[0] == 'y' as u8 || s[0] == 'Y' as u8 || s[0] == 't' as u8
            || s[0] == 'T' as u8);
        assert(s[0] == '0' as u8 || s[0] == 'n' as u8 || s[0] == 'N' as u8 || s[0] == 'f' as u8
            || s[0] == 'F' as u8);
    }
    assert(bool_line(true) =~= seq![49u8, 10u8]);
    assert(bool_line(false) =~= seq![48u8, 10u8]);
}

} // verus!
