//! The lexical grammar: what the text at a given place reads as. The lexer's
//! contracts are stated over these definitions.

use vstd::prelude::*;
use crate::result::ErrorView;
use crate::text::{
    blank, char_at, digit, digits, lemma_newlines_bound, lemma_run_end, newlines, run_end,
    until, word_char, word_chars,
};
use crate::tokens::{reserved_word, LiteralView, TokenKind, TokenView};

verus! {

/// One step of the lexer from a place in the text.
pub struct Scan {
    /// Where the text is read up to.
    pub end: int,
    /// The line count after the step.
    pub line: nat,
    /// The token read, or the error met.
    pub outcome: Result<TokenView, ErrorView>,
}

/// A token without a literal.
pub open spec fn plain(kind: TokenKind, lexeme: Seq<char>, line: nat) -> TokenView {
    TokenView { kind, lexeme, literal: None, line }
}

/// The kind of the punctuation mark `c`, if `c` is one.
pub open spec fn punctuation(c: char) -> Option<TokenKind> {
    if c == '(' {
        Some(TokenKind::LParen)
    } else if c == ')' {
        Some(TokenKind::RParen)
    } else if c == '{' {
        Some(TokenKind::LBrace)
    } else if c == '}' {
        Some(TokenKind::RBrace)
    } else if c == '[' {
        Some(TokenKind::LBracket)
    } else if c == ']' {
        Some(TokenKind::RBracket)
    } else if c == ':' {
        Some(TokenKind::Colon)
    } else if c == ',' {
        Some(TokenKind::Comma)
    } else if c == '%' {
        Some(TokenKind::Percent)
    } else if c == '.' {
        Some(TokenKind::Dot)
    } else {
        None
    }
}

/// The kind of the operator that `c` is when it stands alone, if it is one.
pub open spec fn single(c: char) -> Option<TokenKind> {
    if c == '-' {
        Some(TokenKind::Minus)
    } else if c == '+' {
        Some(TokenKind::Plus)
    } else if c == '*' {
        Some(TokenKind::Star)
    } else if c == '/' {
        Some(TokenKind::Slash)
    } else if c == '=' {
        Some(TokenKind::Equal)
    } else if c == '!' {
        Some(TokenKind::Not)
    } else if c == '<' {
        Some(TokenKind::Less)
    } else if c == '>' {
        Some(TokenKind::Greater)
    } else {
        None
    }
}

/// The kind of the operator that `c` and `next` write together, if they do.
pub open spec fn compound(c: char, next: char) -> Option<TokenKind> {
    if c == '-' && next == '-' {
        Some(TokenKind::DoubleMinus)
    } else if c == '-' && next == '>' {
        Some(TokenKind::RArrow)
    } else if c == '-' && next == '=' {
        Some(TokenKind::MinEqual)
    } else if c == '+' && next == '+' {
        Some(TokenKind::DoublePlus)
    } else if c == '+' && next == '=' {
        Some(TokenKind::PlusEqual)
    } else if c == '*' && next == '*' {
        Some(TokenKind::DoubleStar)
    } else if c == '*' && next == '=' {
        Some(TokenKind::StarEqual)
    } else if c == '/' && next == '/' {
        Some(TokenKind::DoubleSlash)
    } else if c == '/' && next == '=' {
        Some(TokenKind::SlashEqual)
    } else if c == '=' && next == '=' {
        Some(TokenKind::EqEqual)
    } else if c == '!' && next == '=' {
        Some(TokenKind::BangEqual)
    } else if c == '<' && next == '=' {
        Some(TokenKind::LessEqual)
    } else if c == '>' && next == '=' {
        Some(TokenKind::GreaterEqual)
    } else {
        None
    }
}

/// A character that opens a string, and closes the string it opened.
pub open spec fn quote(c: char) -> bool {
    c == '"' || c == '\''
}

/// The operator at `i`: the compound one where the next character completes
/// one, the single one otherwise.
pub open spec fn operator_at(s: Seq<char>, i: int, line: nat) -> Scan {
    let c = char_at(s, i);
    let next = char_at(s, i + 1);
    match compound(c, next) {
        Some(kind) => Scan { end: i + 2, line, outcome: Ok(plain(kind, seq![c, next], line)) },
        None => Scan {
            end: i + 1,
            line,
            outcome: Ok(plain(single(c).unwrap(), seq![c], line)),
        },
    }
}

/// Where the block comment whose body starts at `start` ends, looking from
/// `k` on: behind the first `*#` whose star lies in the body, or else at the
/// end of the input.
pub open spec fn comment_close(s: Seq<char>, start: int, k: int) -> int
    decreases s.len() - k,
{
    if k >= s.len() || char_at(s, k) == '\0' {
        k
    } else if char_at(s, k) == '#' && k > start && char_at(s, k - 1) == '*' {
        k + 1
    } else {
        comment_close(s, start, k + 1)
    }
}

/// The place of the quote that closes the string whose body starts at `start`,
/// looking from `k` on: that of the first `q` that no backslash of the body
/// stands before, or else the end of the input.
pub open spec fn closing(s: Seq<char>, q: char, start: int, k: int) -> int
    decreases s.len() - k,
{
    if k >= s.len() || char_at(s, k) == '\0' {
        k
    } else if char_at(s, k) == q && !(k > start && char_at(s, k - 1) == '\\') {
        k
    } else {
        closing(s, q, start, k + 1)
    }
}

/// The text of the string body from `start` up to, not including, `k`: its
/// characters, but with each quote that a backslash stands before taking the
/// place of that backslash.
pub open spec fn kept(s: Seq<char>, q: char, start: int, k: int) -> Seq<char>
    decreases k - start,
{
    if k <= start {
        Seq::empty()
    } else if char_at(s, k - 1) == q && k - 1 > start && char_at(s, k - 2) == '\\' {
        kept(s, q, start, k - 1).drop_last().push(q)
    } else {
        kept(s, q, start, k - 1).push(char_at(s, k - 1))
    }
}

/// The string that the quote at `i` opens.
pub open spec fn string_at(s: Seq<char>, i: int, line: nat) -> Scan {
    let q = char_at(s, i);
    let close = closing(s, q, i + 1, i + 1);
    let body = kept(s, q, i + 1, close);
    let last_line = line + newlines(s, i + 1, close);
    if char_at(s, close) == q {
        Scan {
            end: close + 1,
            line: last_line,
            outcome: Ok(
                TokenView {
                    kind: TokenKind::String,
                    lexeme: (seq![q] + body).push(q),
                    literal: Some(LiteralView::String(body)),
                    line: last_line,
                },
            ),
        }
    } else {
        Scan {
            end: close,
            line: last_line,
            outcome: Err(ErrorView::Lexical(last_line, "unterminated string"@, seq![q] + body)),
        }
    }
}

/// Where the number that starts with the digit at `i` ends: behind its digits
/// and, where a dot and a digit follow them, behind the digits of the fraction.
pub open spec fn number_end(s: Seq<char>, i: int) -> int {
    let whole = run_end(s, i + 1, digits());
    if char_at(s, whole) == '.' && digit(char_at(s, whole + 1)) {
        run_end(s, whole + 1, digits())
    } else {
        whole
    }
}

/// The number that starts with the digit at `i`.
pub open spec fn number_at(s: Seq<char>, i: int, line: nat) -> Scan {
    let end = number_end(s, i);
    let numeral = s.subrange(i, end);
    Scan {
        end,
        line,
        outcome: Ok(
            TokenView {
                kind: TokenKind::Number,
                lexeme: numeral,
                literal: Some(LiteralView::Number(numeral)),
                line,
            },
        ),
    }
}

/// The token that the word `word` is: that of the reserved word it spells, with
/// its value for `true`, `false` and `null`, or else an identifier.
pub open spec fn word_token(word: Seq<char>, line: nat) -> TokenView {
    match reserved_word(word) {
        Some(TokenKind::Null) => TokenView {
            kind: TokenKind::Null,
            lexeme: word,
            literal: Some(LiteralView::Null),
            line,
        },
        Some(TokenKind::Boolean) => TokenView {
            kind: TokenKind::Boolean,
            lexeme: word,
            literal: Some(LiteralView::Boolean(word == "true"@)),
            line,
        },
        Some(kind) => plain(kind, word, line),
        None => plain(TokenKind::Ident, word, line),
    }
}

/// The word that starts at `i`: the longest run of identifier characters.
pub open spec fn word_at(s: Seq<char>, i: int, line: nat) -> Scan {
    let end = run_end(s, i + 1, word_chars());
    Scan { end, line, outcome: Ok(word_token(s.subrange(i, end), line)) }
}

/// The token or the error that the text gives at `i`, where the character at
/// `i` starts neither a comment nor is a blank.
pub open spec fn token_at(s: Seq<char>, i: int, line: nat) -> Scan {
    let c = char_at(s, i);
    if c == '\0' {
        Scan {
            end: if 0 <= i < s.len() {
                i + 1
            } else {
                i
            },
            line,
            outcome: Ok(plain(TokenKind::Eof, seq!['\0'], line)),
        }
    } else if punctuation(c) is Some {
        Scan { end: i + 1, line, outcome: Ok(plain(punctuation(c).unwrap(), seq![c], line)) }
    } else if single(c) is Some {
        operator_at(s, i, line)
    } else if quote(c) {
        string_at(s, i, line)
    } else if c == '\n' {
        Scan {
            end: i + 1,
            line: line + 1,
            outcome: Ok(plain(TokenKind::NewLine, Seq::empty(), line + 1)),
        }
    } else if digit(c) {
        number_at(s, i, line)
    } else if word_char(c) {
        word_at(s, i, line)
    } else {
        Scan {
            end: i + 1,
            line,
            outcome: Err(ErrorView::Lexical(line, "unexpected character"@, seq![c])),
        }
    }
}

/// Where the comment that the `#` at `i` opens ends: a block comment, opened by
/// `#*`, as `comment_close` says; any other before the end of its line.
pub open spec fn comment_end(s: Seq<char>, i: int) -> int {
    if char_at(s, i + 1) == '*' {
        comment_close(s, i + 2, i + 2)
    } else {
        run_end(s, i + 1, until(seq!['\n']))
    }
}

/// A block comment ends behind the place it is looked for from, and inside the
/// text.
pub proof fn lemma_comment_close_bounds(s: Seq<char>, start: int, k: int)
    requires
        0 <= k <= s.len(),
    ensures
        k <= comment_close(s, start, k) <= s.len(),
    decreases s.len() - k,
{
    if k >= s.len() || char_at(s, k) == '\0' {
    } else if char_at(s, k) == '#' && k > start && char_at(s, k - 1) == '*' {
    } else {
        lemma_comment_close_bounds(s, start, k + 1);
    }
}

/// A comment ends behind the `#` that opens it, and inside the text.
pub proof fn lemma_comment_end_bounds(s: Seq<char>, i: int)
    requires
        0 <= i < s.len(),
        s[i] == '#',
    ensures
        i < comment_end(s, i) <= s.len(),
{
    if char_at(s, i + 1) == '*' {
        lemma_comment_close_bounds(s, i + 2, i + 2);
    } else {
        lemma_run_end(s, i + 1, until(seq!['\n']));
    }
}

/// A block comment that is looked for across characters that neither end the
/// input nor are a `#` ends where it would end behind them.
pub proof fn lemma_comment_close_skip(s: Seq<char>, start: int, k: int, j: int)
    requires
        0 <= k <= j <= s.len(),
        forall|m: int| k <= m < j ==> s[m] != '\0' && s[m] != '#',
    ensures
        comment_close(s, start, k) == comment_close(s, start, j),
    decreases j - k,
{
    if k < j {
        lemma_comment_close_skip(s, start, k + 1, j);
    }
}

/// A closing quote that is looked for across characters that neither end the
/// input nor are the quote is found where it would be found behind them.
pub proof fn lemma_closing_skip(s: Seq<char>, q: char, start: int, k: int, j: int)
    requires
        0 <= k <= j <= s.len(),
        forall|m: int| k <= m < j ==> s[m] != '\0' && s[m] != q,
    ensures
        closing(s, q, start, k) == closing(s, q, start, j),
    decreases j - k,
{
    if k < j {
        lemma_closing_skip(s, q, start, k + 1, j);
    }
}

/// Across characters that are not the quote a string body is kept as it is
/// written.
pub proof fn lemma_kept_plain(s: Seq<char>, q: char, start: int, k: int, j: int)
    requires
        0 <= start <= k <= j <= s.len(),
        forall|m: int| k <= m < j ==> s[m] != q,
    ensures
        kept(s, q, start, j) == kept(s, q, start, k) + s.subrange(k, j),
    decreases j - k,
{
    if k < j {
        lemma_kept_plain(s, q, start, k, j - 1);
        assert(s.subrange(k, j) == s.subrange(k, j - 1).push(s[j - 1]));
    } else {
        assert(s.subrange(k, j) == Seq::<char>::empty());
    }
}

/// One step of the lexer from `i`, on line `line`: comments and blanks are
/// passed over, the newlines of block comments counted, and what follows them
/// is read as `token_at` says.
pub open spec fn scan(s: Seq<char>, i: int, line: nat) -> Scan
    decreases s.len() - i,
{
    let c = char_at(s, i);
    if i < 0 || i >= s.len() {
        token_at(s, i, line)
    } else if c == '#' {
        proof {
            lemma_comment_end_bounds(s, i);
        }
        let end = comment_end(s, i);
        scan(s, end, line + newlines(s, i, end))
    } else if blank(c) {
        scan(s, i + 1, line)
    } else {
        token_at(s, i, line)
    }
}

/// Whether a step of the lexer gave the token that ends the stream.
pub open spec fn ends_stream(outcome: Result<TokenView, ErrorView>) -> bool {
    match outcome {
        Ok(token) => token.kind == TokenKind::Eof,
        Err(_) => false,
    }
}

/// The closing quote of a string is looked for, and found or not, inside the
/// text and behind the place it is looked for from.
pub proof fn lemma_closing_bounds(s: Seq<char>, q: char, start: int, k: int)
    requires
        0 <= k <= s.len(),
    ensures
        k <= closing(s, q, start, k) <= s.len(),
    decreases s.len() - k,
{
    if k >= s.len() || char_at(s, k) == '\0' {
    } else if char_at(s, k) == q && !(k > start && char_at(s, k - 1) == '\\') {
    } else {
        lemma_closing_bounds(s, q, start, k + 1);
    }
}

/// What is read in place of a token: inside the text it is at least one
/// character, and no more lines are counted than characters are read.
pub proof fn lemma_token_at_bounds(s: Seq<char>, i: int, line: nat)
    requires
        0 <= i <= s.len(),
    ensures
        i <= token_at(s, i, line).end <= s.len(),
        !ends_stream(token_at(s, i, line).outcome) ==> i < token_at(s, i, line).end,
        line <= token_at(s, i, line).line <= line + (token_at(s, i, line).end - i),
        ends_stream(token_at(s, i, line).outcome) <==> char_at(s, i) == '\0',
{
    let c = char_at(s, i);
    if c == '\0' {
    } else if punctuation(c) is Some {
    } else if single(c) is Some {
    } else if quote(c) {
        let close = closing(s, c, i + 1, i + 1);
        lemma_closing_bounds(s, c, i + 1, i + 1);
        lemma_newlines_bound(s, i + 1, close);
    } else if c == '\n' {
    } else if digit(c) {
        let whole = run_end(s, i + 1, digits());
        lemma_run_end(s, i + 1, digits());
        if char_at(s, whole) == '.' && digit(char_at(s, whole + 1)) {
            lemma_run_end(s, whole + 1, digits());
        }
    } else if word_char(c) {
        lemma_run_end(s, i + 1, word_chars());
    } else {
    }
}

/// One step of the lexer stays inside the text, reads at least one character
/// unless it ends the stream, and counts no more lines than it reads
/// characters.
pub proof fn lemma_scan_bounds(s: Seq<char>, i: int, line: nat)
    requires
        0 <= i <= s.len(),
    ensures
        i <= scan(s, i, line).end <= s.len(),
        !ends_stream(scan(s, i, line).outcome) ==> i < scan(s, i, line).end,
        line <= scan(s, i, line).line <= line + (scan(s, i, line).end - i),
    decreases s.len() - i,
{
    let c = char_at(s, i);
    if i >= s.len() {
        lemma_token_at_bounds(s, i, line);
    } else if c == '#' {
        lemma_comment_end_bounds(s, i);
        let end = comment_end(s, i);
        lemma_newlines_bound(s, i, end);
        lemma_scan_bounds(s, end, line + newlines(s, i, end));
    } else if blank(c) {
        lemma_scan_bounds(s, i + 1, line);
    } else {
        lemma_token_at_bounds(s, i, line);
    }
}

/// What the lexer hands out from `i` on, call after call: the outcome of each
/// step, up to and including the token that ends the stream.
pub open spec fn stream(s: Seq<char>, i: int, line: nat) -> Seq<Result<TokenView, ErrorView>>
    decreases s.len() - i,
{
    let step = scan(s, i, line);
    if i < 0 || i >= s.len() || ends_stream(step.outcome) {
        seq![step.outcome]
    } else {
        proof {
            lemma_scan_bounds(s, i, line);
        }
        seq![step.outcome] + stream(s, step.end, step.line)
    }
}

} // verus!
