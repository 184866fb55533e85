//! Characters and strings: the character classes of the language, and moving
//! between `&str`, `String` and `Vec<char>`.

use vstd::prelude::*;

verus! {

/// Whether `c` has the Unicode property Alphabetic, as `char::is_alphabetic` tells it.
pub uninterp spec fn alphabetic(c: char) -> bool;

/// Whether `c` is alphabetic or numeric in Unicode, as `char::is_alphanumeric` tells it.
pub uninterp spec fn alphanumeric(c: char) -> bool;

/// `char::is_alphabetic` of std. Its answer is read off the Unicode tables
/// that std carries and depends on the character alone; the contract gives
/// that answer the name `alphabetic` and claims nothing of its value.
pub assume_specification[ char::is_alphabetic ](c: char) -> (r: bool)
    ensures
        r == alphabetic(c),
;

/// `char::is_alphanumeric` of std. Its answer is read off the Unicode tables
/// that std carries and depends on the character alone; the contract gives
/// that answer the name `alphanumeric` and claims nothing of its value.
pub assume_specification[ char::is_alphanumeric ](c: char) -> (r: bool)
    ensures
        r == alphanumeric(c),
;

/// `String::push` of std: the character is appended to the end of the string,
/// and nothing else of the string changes.
pub assume_specification[ String::push ](s: &mut String, c: char)
    ensures
        final(s)@ == old(s)@.push(c),
;

/// A decimal digit, `0` to `9`.
pub open spec fn digit(c: char) -> bool {
    '0' <= c && c <= '9'
}

/// The characters that separate tokens: space, tab, carriage return and newline.
pub open spec fn whitespace(c: char) -> bool {
    c == ' ' || c == '\t' || c == '\r' || c == '\n'
}

/// Whether every character of `text` is a decimal digit.
pub open spec fn all_digits(text: Seq<char>) -> bool {
    forall|i: int| 0 <= i < text.len() ==> digit(#[trigger] text[i])
}

/// A decimal numeral: one or more digits, or one or more digits, a point, and
/// one or more digits.
pub open spec fn decimal(text: Seq<char>) -> bool {
    ||| text.len() > 0 && all_digits(text)
    ||| exists|point: int|
        0 < point < text.len() - 1 && (#[trigger] text[point]) == '.' && all_digits(
            text.take(point),
        ) && all_digits(text.skip(point + 1))
}

/// Tells whether `c` is a decimal digit.
pub fn is_digit(c: char) -> (r: bool)
    ensures
        r == digit(c),
{
    '0' <= c && c <= '9'
}

/// Tells whether `c` separates tokens.
pub fn is_whitespace(c: char) -> (r: bool)
    ensures
        r == whitespace(c),
{
    c == ' ' || c == '\t' || c == '\r' || c == '\n'
}

/// The characters of `text`, in order.
pub fn characters(text: &str) -> (v: Vec<char>)
    ensures
        v@ == text@,
{
    let mut v: Vec<char> = Vec::new();
    for c in it: text.chars()
        invariant
            v@ == it.seq().take(it.index() as int),
    {
        v.push(c);
    }
    v
}

/// The string made of `chars[from..to]`.
pub fn collect(chars: &Vec<char>, from: usize, to: usize) -> (s: String)
    requires
        from <= to <= chars.len(),
    ensures
        s@ == chars@.subrange(from as int, to as int),
{
    let mut s = String::new();
    let mut i: usize = from;
    while i < to
        invariant
            from <= i <= to <= chars.len(),
            s@ == chars@.subrange(from as int, i as int),
        decreases to - i,
    {
        s.push(chars[i]);
        assert(chars@.subrange(from as int, i as int).push(chars@[i as int]) == chars@.subrange(
            from as int,
            i + 1,
        ));
        i += 1;
    }
    s
}

} // verus!
