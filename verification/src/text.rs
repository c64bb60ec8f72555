//! Characters and strings: the classes of characters that the lexer tells
//! apart, runs of characters in a text, and the decimal form of integers.

use vstd::prelude::*;

verus! {

/// Whether `c`, a character beyond ASCII, has the Unicode property
/// `White_Space`.
pub uninterp spec fn white_space(c: char) -> bool;

/// Whitespace: among the ASCII characters the space and the characters from
/// U+0009 to U+000D, among the others those with the Unicode property
/// `White_Space`.
pub open spec fn space(c: char) -> bool {
    if c <= '\x7f' {
        c == ' ' || ('\t' <= c <= '\r')
    } else {
        white_space(c)
    }
}

/// `char::is_whitespace` tells whether a character has the Unicode property
/// `White_Space`. Among the ASCII characters the Unicode Character Database
/// gives it to the space and to the characters from U+0009 to U+000D; of the
/// other characters nothing is claimed but that the answer depends on the
/// character alone.
pub assume_specification[ char::is_whitespace ](c: char) -> (b: bool)
    ensures
        b == if c <= '\x7f' {
            c == ' ' || ('\t' <= c && c <= '\r')
        } else {
            white_space(c)
        },
;

/// `String::push` appends one character to the end of the string.
pub assume_specification[ std::string::String::push ](text: &mut std::string::String, c: char)
    ensures
        final(text)@ == old(text)@.push(c),
;

/// `String::clear` removes all the contents of the string.
pub assume_specification[ std::string::String::clear ](text: &mut std::string::String)
    ensures
        final(text)@ == Seq::<char>::empty(),
;

/// `String::pop` removes the last character and returns it, or returns `None`
/// and leaves the string as it is when it is empty.
pub assume_specification[ std::string::String::pop ](text: &mut std::string::String) -> (c:
    Option<char>)
    ensures
        old(text)@.len() == 0 ==> c.is_none() && final(text)@ == old(text)@,
        old(text)@.len() > 0 ==> c == Some(old(text)@.last()) && final(text)@ == old(
            text,
        )@.drop_last(),
;

/// `str`'s `==` tells whether two string slices hold the same characters.
pub assume_specification[ <str as PartialEq>::eq ](a: &str, b: &str) -> (same: bool)
    ensures
        same == (a@ == b@),
;

/// A decimal digit.
pub open spec fn digit(c: char) -> bool {
    '0' <= c <= '9'
}

/// A character that may stand in an identifier: an ASCII letter or digit, an
/// underscore or a dollar sign.
pub open spec fn word_char(c: char) -> bool {
    digit(c) || ('a' <= c <= 'z') || ('A' <= c <= 'Z') || c == '_' || c == '$'
}

/// Whitespace that separates tokens without being one: any but the newline.
pub open spec fn blank(c: char) -> bool {
    space(c) && c != '\n'
}

/// The decimal digits, as a class of characters.
pub open spec fn digits() -> spec_fn(char) -> bool {
    |c: char| digit(c)
}

/// The characters of identifiers, as a class of characters.
pub open spec fn word_chars() -> spec_fn(char) -> bool {
    |c: char| word_char(c)
}

/// The characters that are neither the NUL character nor one of `stops`.
pub open spec fn until(stops: Seq<char>) -> spec_fn(char) -> bool {
    |c: char| c != '\0' && !stops.contains(c)
}

/// The character of `s` at `i`, and the NUL character where `s` has none.
pub open spec fn char_at(s: Seq<char>, i: int) -> char {
    if 0 <= i < s.len() {
        s[i]
    } else {
        '\0'
    }
}

/// The end of the longest run of characters of `s` that starts at `i` and whose
/// characters all satisfy `keep`.
pub open spec fn run_end(s: Seq<char>, i: int, keep: spec_fn(char) -> bool) -> int
    decreases s.len() - i,
{
    if 0 <= i < s.len() && keep(s[i]) {
        run_end(s, i + 1, keep)
    } else {
        i
    }
}

/// A run ends inside the text at a character that breaks it, or at the end of
/// the text, and holds nothing but characters that continue it.
pub proof fn lemma_run_end(s: Seq<char>, i: int, keep: spec_fn(char) -> bool)
    requires
        0 <= i <= s.len(),
    ensures
        i <= run_end(s, i, keep) <= s.len(),
        run_end(s, i, keep) < s.len() ==> !keep(s[run_end(s, i, keep)]),
        forall|k: int| i <= k < run_end(s, i, keep) ==> keep(#[trigger] s[k]),
    decreases s.len() - i,
{
    if i < s.len() && keep(s[i]) {
        lemma_run_end(s, i + 1, keep);
    }
}

/// The number of newlines among the characters of `s` from `from` up to, not
/// including, `to`.
pub open spec fn newlines(s: Seq<char>, from: int, to: int) -> nat
    decreases to - from,
{
    if from >= to {
        0
    } else {
        newlines(s, from, to - 1) + if char_at(s, to - 1) == '\n' {
            1nat
        } else {
            0nat
        }
    }
}

/// Newlines are counted part by part.
pub proof fn lemma_newlines_split(s: Seq<char>, from: int, mid: int, to: int)
    requires
        from <= mid <= to,
    ensures
        newlines(s, from, to) == newlines(s, from, mid) + newlines(s, mid, to),
    decreases to - mid,
{
    if mid < to {
        lemma_newlines_split(s, from, mid, to - 1);
    }
}

/// There are no more newlines than characters.
pub proof fn lemma_newlines_bound(s: Seq<char>, from: int, to: int)
    requires
        from <= to,
    ensures
        newlines(s, from, to) <= to - from,
    decreases to - from,
{
    if from < to {
        lemma_newlines_bound(s, from, to - 1);
    }
}

/// Where no character is a newline, none is counted.
pub proof fn lemma_newlines_none(s: Seq<char>, from: int, to: int)
    requires
        forall|k: int| from <= k < to ==> char_at(s, k) != '\n',
    ensures
        newlines(s, from, to) == 0,
    decreases to - from,
{
    if from < to {
        lemma_newlines_none(s, from, to - 1);
    }
}

/// The character that writes the digit `d`.
pub open spec fn digit_of(d: nat) -> char {
    if d == 0 {
        '0'
    } else if d == 1 {
        '1'
    } else if d == 2 {
        '2'
    } else if d == 3 {
        '3'
    } else if d == 4 {
        '4'
    } else if d == 5 {
        '5'
    } else if d == 6 {
        '6'
    } else if d == 7 {
        '7'
    } else if d == 8 {
        '8'
    } else {
        '9'
    }
}

/// The decimal numeral of `n`, without leading zeros.
pub open spec fn decimal(n: nat) -> Seq<char>
    decreases n,
{
    if n < 10 {
        seq![digit_of(n)]
    } else {
        decimal(n / 10).push(digit_of(n % 10))
    }
}

/// The decimal numeral of `v`, with a minus sign where it is negative.
pub open spec fn signed_decimal(v: int) -> Seq<char> {
    if v < 0 {
        seq!['-'] + decimal((-v) as nat)
    } else {
        decimal(v as nat)
    }
}

/// Tells whether `c` is a decimal digit.
pub fn is_digit(c: char) -> (b: bool)
    ensures
        b == digit(c),
{
    '0' <= c && c <= '9'
}

/// Tells whether `c` may stand in an identifier.
pub fn is_alphanumeric(c: char) -> (b: bool)
    ensures
        b == word_char(c),
{
    is_digit(c) || ('a' <= c && c <= 'z') || ('A' <= c && c <= 'Z') || c == '_' || c == '$'
}

/// Tells whether `c` is one of `chars`.
pub fn is_one_of(chars: &[char], c: char) -> (found: bool)
    ensures
        found == chars@.contains(c),
{
    let mut i: usize = 0;
    while i < chars.len()
        invariant
            i <= chars.len(),
            forall|k: int| 0 <= k < i ==> chars@[k] != c,
        decreases chars.len() - i,
    {
        if chars[i] == c {
            return true;
        }
        i += 1;
    }
    false
}

fn digit_char(d: u64) -> (c: char)
    requires
        d < 10,
    ensures
        c == digit_of(d as nat),
{
    if d == 0 {
        '0'
    } else if d == 1 {
        '1'
    } else if d == 2 {
        '2'
    } else if d == 3 {
        '3'
    } else if d == 4 {
        '4'
    } else if d == 5 {
        '5'
    } else if d == 6 {
        '6'
    } else if d == 7 {
        '7'
    } else if d == 8 {
        '8'
    } else {
        '9'
    }
}

/// Appends the decimal numeral of `value` to `text`.
pub fn push_decimal(text: &mut String, value: u64)
    ensures
        final(text)@ == old(text)@ + decimal(value as nat),
    decreases value,
{
    if value >= 10 {
        push_decimal(text, value / 10);
    }
    text.push(digit_char(value % 10));
}

/// Appends the decimal numeral of `value` to `text`, with its sign.
pub fn push_signed_decimal(text: &mut String, value: i64)
    ensures
        final(text)@ == old(text)@ + signed_decimal(value as int),
{
    if value < 0 {
        text.push('-');
        let magnitude: u64 = if value == i64::MIN {
            9223372036854775808u64
        } else {
            (-value) as u64
        };
        push_decimal(text, magnitude);
    } else {
        push_decimal(text, value as u64);
    }
}

} // verus!
