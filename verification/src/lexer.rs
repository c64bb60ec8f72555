//! The lexer: it reads a source text character by character and hands out its
//! tokens one at a time.

use vstd::prelude::*;
use vstd::string::StrSliceExecFns;
use crate::grammar::{
    closing, comment_close, comment_end, compound, ends_stream, kept, lemma_closing_skip,
    lemma_comment_close_skip, lemma_comment_end_bounds, lemma_kept_plain, lemma_scan_bounds,
    number_at, number_end, plain, punctuation, quote, scan, single, stream, string_at, word_at,
};
use crate::result::{ErrorView, EzcriptError};
use crate::text::{
    char_at, digit, digits, is_alphanumeric, is_digit, is_one_of, lemma_newlines_none,
    lemma_newlines_split, lemma_run_end, newlines, run_end, until, word_chars,
};
use crate::tokens::{literal_view, Literal, Token, TokenKind, TokenView};

verus! {

/// What the lexer hands out for one token: its view.
pub open spec fn lexed_view(result: Result<Token, EzcriptError>) -> Result<TokenView, ErrorView> {
    match result {
        Ok(token) => Ok(token@),
        Err(error) => Err(error@),
    }
}

/// What a call for the next token returns: its view.
pub open spec fn out_view(out: Option<Result<Token, EzcriptError>>) -> Option<
    Result<TokenView, ErrorView>,
> {
    match out {
        Some(result) => Some(lexed_view(result)),
        None => None,
    }
}

/// The text of `text` between its first and its last character.
fn inner_text(text: &str) -> (inner: String)
    requires
        text@.len() >= 2,
    ensures
        inner@ == text@.subrange(1, text@.len() - 1),
{
    let total = text.unicode_len();
    let mut inner = String::new();
    let mut i: usize = 0;
    for c in it: text.chars()
        invariant
            i == it.index(),
            it.seq() == text@,
            total == text@.len(),
            total >= 2,
            inner@ == text@.subrange(
                1,
                if i < 1 {
                    1
                } else if i > total - 1 {
                    total - 1
                } else {
                    i as int
                },
            ),
    {
        if 0 < i && i < total - 1 {
            inner.push(c);
        }
        i += 1;
    }
    inner
}

/// The kind of the punctuation mark `c`, if `c` is one.
fn punctuation_kind(c: char) -> (kind: Option<TokenKind>)
    ensures
        kind == punctuation(c),
{
    match c {
        '(' => Some(TokenKind::LParen),
        ')' => Some(TokenKind::RParen),
        '{' => Some(TokenKind::LBrace),
        '}' => Some(TokenKind::RBrace),
        '[' => Some(TokenKind::LBracket),
        ']' => Some(TokenKind::RBracket),
        ':' => Some(TokenKind::Colon),
        ',' => Some(TokenKind::Comma),
        '%' => Some(TokenKind::Percent),
        '.' => Some(TokenKind::Dot),
        _ => None,
    }
}

/// The kind of the operator that `c` is when it stands alone, if it is one.
fn single_kind(c: char) -> (kind: Option<TokenKind>)
    ensures
        kind == single(c),
{
    match c {
        '-' => Some(TokenKind::Minus),
        '+' => Some(TokenKind::Plus),
        '*' => Some(TokenKind::Star),
        '/' => Some(TokenKind::Slash),
        '=' => Some(TokenKind::Equal),
        '!' => Some(TokenKind::Not),
        '<' => Some(TokenKind::Less),
        '>' => Some(TokenKind::Greater),
        _ => None,
    }
}

/// The kind of the operator that `c` and `next` write together, if they do.
fn compound_kind(c: char, next: char) -> (kind: Option<TokenKind>)
    ensures
        kind == compound(c, next),
{
    match (c, next) {
        ('-', '-') => Some(TokenKind::DoubleMinus),
        ('-', '>') => Some(TokenKind::RArrow),
        ('-', '=') => Some(TokenKind::MinEqual),
        ('+', '+') => Some(TokenKind::DoublePlus),
        ('+', '=') => Some(TokenKind::PlusEqual),
        ('*', '*') => Some(TokenKind::DoubleStar),
        ('*', '=') => Some(TokenKind::StarEqual),
        ('/', '/') => Some(TokenKind::DoubleSlash),
        ('/', '=') => Some(TokenKind::SlashEqual),
        ('=', '=') => Some(TokenKind::EqEqual),
        ('!', '=') => Some(TokenKind::BangEqual),
        ('<', '=') => Some(TokenKind::LessEqual),
        ('>', '=') => Some(TokenKind::GreaterEqual),
        _ => None,
    }
}

/// A lexer over one source text.
#[derive(Debug, Clone)]
pub struct Lexer {
    /// The text, followed by one NUL character.
    source: Vec<char>,
    /// How many characters of the text have been read.
    pos: usize,
    /// The characters of the token that is being read.
    lexeme: String,
    line: u64,
    eof: bool,
}

impl Lexer {
    /// The text that is being read.
    pub closed spec fn text(&self) -> Seq<char> {
        self.source@.drop_last()
    }

    /// How many characters of the text have been read.
    pub closed spec fn position(&self) -> int {
        self.pos as int
    }

    /// The number of the line that the lexer has come to; the first is line 1.
    pub closed spec fn line(&self) -> nat {
        self.line as nat
    }

    /// Whether the token that ends the stream has been handed out.
    pub closed spec fn finished(&self) -> bool {
        self.eof
    }

    /// What the lexer has yet to hand out, call after call.
    pub open spec fn upcoming(&self) -> Seq<Result<TokenView, ErrorView>> {
        if self.finished() {
            Seq::empty()
        } else {
            stream(self.text(), self.position(), self.line())
        }
    }

    /// The lexer's invariant: it stands inside its text, and has counted no
    /// more lines than it has read characters.
    pub closed spec fn wf(&self) -> bool {
        &&& 1 <= self.source@.len() <= usize::MAX
        &&& self.source@.last() == '\0'
        &&& self.pos < self.source@.len()
        &&& 1 <= self.line <= self.pos + 1
    }

    /// Tells whether the token that ends the stream has been handed out.
    pub fn is_finished(&self) -> (finished: bool)
        ensures
            finished == self.finished(),
    {
        self.eof
    }

    /// Something is yet to be handed out exactly as long as the lexer has not
    /// finished.
    pub proof fn lemma_upcoming(&self)
        ensures
            self.finished() <==> self.upcoming().len() == 0,
    {
    }

    /// A lexer at the start of `source`, on line 1.
    pub fn new(source: &str) -> (lexer: Self)
        ensures
            lexer.wf(),
            lexer.text() == source@,
            lexer.position() == 0,
            lexer.line() == 1,
            !lexer.finished(),
    {
        let mut chars: Vec<char> = Vec::new();
        for c in it: source.chars()
            invariant
                chars@ == it.history(),
                it.seq() == source@,
        {
            chars.push(c);
        }
        chars.push('\0');
        assert(chars@.drop_last() == source@);
        assert(chars@.len() == chars.len());
        Lexer { source: chars, pos: 0, lexeme: String::new(), line: 1, eof: false }
    }

    /// The character `skip` places ahead, the next one being one place ahead;
    /// the NUL character beyond the end of the text.
    fn peek(&self, skip: usize) -> (c: char)
        requires
            self.wf(),
            skip > 0,
        ensures
            c == char_at(self.text(), self.pos + skip - 1),
    {
        if skip - 1 < self.source.len() - self.pos {
            self.source[self.pos + (skip - 1)]
        } else {
            '\0'
        }
    }

    /// Reads one character and adds it to the lexeme; at the end of the text
    /// that is the NUL character, and the lexer stays where it is.
    fn advance(&mut self) -> (c: char)
        requires
            old(self).wf(),
        ensures
            final(self).wf(),
            c == char_at(old(self).text(), old(self).pos as int),
            final(self).pos == if old(self).pos < old(self).text().len() {
                old(self).pos + 1
            } else {
                old(self).pos as int
            },
            final(self).lexeme@ == old(self).lexeme@.push(c),
            final(self).source == old(self).source,
            final(self).line == old(self).line,
            final(self).eof == old(self).eof,
    {
        let c = self.source[self.pos];
        if self.pos < self.source.len() - 1 {
            self.pos = self.pos + 1;
        }
        self.lexeme.push(c);
        c
    }

    /// Reads the next character if it is `c`, and tells whether it did.
    fn match_advance(&mut self, c: char) -> (matched: bool)
        requires
            old(self).wf(),
            c != '\0',
        ensures
            final(self).wf(),
            matched == (char_at(old(self).text(), old(self).pos as int) == c),
            matched ==> final(self).pos == old(self).pos + 1,
            matched ==> final(self).lexeme@ == old(self).lexeme@.push(c),
            !matched ==> final(self).pos == old(self).pos,
            !matched ==> final(self).lexeme@ == old(self).lexeme@,
            final(self).source == old(self).source,
            final(self).line == old(self).line,
            final(self).eof == old(self).eof,
    {
        if self.peek(1) == c {
            self.advance();
            return true;
        }
        false
    }

    /// The token of kind `kind` with the lexeme read and the literal given, on
    /// the line that the lexer has come to.
    fn literal_token(&self, kind: TokenKind, literal: Option<Literal>) -> (out: Option<
        Result<Token, EzcriptError>,
    >)
        ensures
            out_view(out) == Some(
                Ok::<TokenView, ErrorView>(
                    TokenView {
                        kind,
                        lexeme: self.lexeme@,
                        literal: literal_view(literal),
                        line: self.line as nat,
                    },
                ),
            ),
    {
        Some(Ok(Token { kind, literal, line: self.line, lexeme: self.lexeme.clone() }))
    }

    /// The token of kind `kind` with the lexeme read and no literal.
    fn static_token(&self, kind: TokenKind) -> (out: Option<Result<Token, EzcriptError>>)
        ensures
            out_view(out) == Some(
                Ok::<TokenView, ErrorView>(plain(kind, self.lexeme@, self.line as nat)),
            ),
    {
        self.literal_token(kind, None)
    }

    /// The lexical error with the message `msg`, on the line that the lexer has
    /// come to, with the lexeme read so far.
    fn err(&self, msg: &str) -> (out: Option<Result<Token, EzcriptError>>)
        ensures
            out_view(out) == Some(
                Err::<TokenView, ErrorView>(
                    ErrorView::Lexical(self.line as nat, msg@, self.lexeme@),
                ),
            ),
    {
        Some(Err(EzcriptError::Lexical(self.line, msg.to_string(), self.lexeme.clone())))
    }

    /// The token of kind `first` if the next character is `c`, which is then
    /// read, and of kind `second` if it is not.
    fn match_static_token(&mut self, c: char, first: TokenKind, second: TokenKind) -> (out:
        Option<Result<Token, EzcriptError>>)
        requires
            old(self).wf(),
            c != '\0',
        ensures
            final(self).wf(),
            final(self).source == old(self).source,
            final(self).line == old(self).line,
            final(self).eof == old(self).eof,
            char_at(old(self).text(), old(self).pos as int) == c ==> {
                &&& final(self).pos == old(self).pos + 1
                &&& out_view(out) == Some(
                    Ok::<TokenView, ErrorView>(
                        plain(first, old(self).lexeme@.push(c), old(self).line as nat),
                    ),
                )
            },
            char_at(old(self).text(), old(self).pos as int) != c ==> {
                &&& final(self).pos == old(self).pos
                &&& out_view(out) == Some(
                    Ok::<TokenView, ErrorView>(
                        plain(second, old(self).lexeme@, old(self).line as nat),
                    ),
                )
            },
    {
        if self.match_advance(c) {
            self.static_token(first)
        } else {
            self.static_token(second)
        }
    }

    /// Reads on as far as the next character is neither one of `stops` nor the
    /// NUL character, and returns the last character read, or the NUL
    /// character if none was.
    fn advance_until(&mut self, stops: &[char]) -> (last: char)
        requires
            old(self).wf(),
        ensures
            final(self).wf(),
            final(self).source == old(self).source,
            final(self).line == old(self).line,
            final(self).eof == old(self).eof,
            final(self).pos == run_end(old(self).text(), old(self).pos as int, until(stops@)),
            old(self).pos <= final(self).pos <= old(self).text().len(),
            final(self).lexeme@ == old(self).lexeme@ + old(self).text().subrange(
                old(self).pos as int,
                final(self).pos as int,
            ),
            last == if final(self).pos > old(self).pos {
                old(self).text()[final(self).pos - 1]
            } else {
                '\0'
            },
    {
        let mut last = '\0';
        let ghost text = self.text();
        let ghost from = self.pos as int;
        let ghost read = self.lexeme@;
        assert(text.subrange(from, from) == Seq::<char>::empty());
        loop
            invariant
                self.wf(),
                self.source == old(self).source,
                self.line == old(self).line,
                self.eof == old(self).eof,
                text == old(self).text(),
                from == old(self).pos,
                read == old(self).lexeme@,
                from <= self.pos <= text.len(),
                run_end(text, from, until(stops@)) == run_end(
                    text,
                    self.pos as int,
                    until(stops@),
                ),
                self.lexeme@ == read + text.subrange(from, self.pos as int),
                last == if self.pos > from {
                    text[self.pos - 1]
                } else {
                    '\0'
                },
            ensures
                self.wf(),
                self.source == old(self).source,
                self.line == old(self).line,
                self.eof == old(self).eof,
                from <= self.pos <= text.len(),
                self.pos == run_end(text, from, until(stops@)),
                self.lexeme@ == read + text.subrange(from, self.pos as int),
                last == if self.pos > from {
                    text[self.pos - 1]
                } else {
                    '\0'
                },
            decreases text.len() - self.pos,
        {
            let ch = self.peek(1);
            if ch == '\0' || is_one_of(stops, ch) {
                break;
            }
            last = ch;
            assert(text.subrange(from, self.pos + 1) == text.subrange(from, self.pos as int).push(
                ch,
            ));
            self.advance();
        }
        last
    }

    /// Passes over a comment that runs to the end of its line.
    fn line_comment(&mut self)
        requires
            old(self).wf(),
            old(self).pos >= 1,
            old(self).text()[old(self).pos - 1] == '#',
            char_at(old(self).text(), old(self).pos as int) != '*',
        ensures
            final(self).wf(),
            final(self).source == old(self).source,
            final(self).line == old(self).line,
            final(self).eof == old(self).eof,
            final(self).pos == comment_end(old(self).text(), old(self).pos - 1),
            newlines(old(self).text(), old(self).pos - 1, final(self).pos as int) == 0,
            final(self).lexeme@ == Seq::<char>::empty(),
    {
        let ghost text = self.text();
        let ghost from = self.pos as int;
        let stops = ['\n'];
        self.advance_until(stops.as_slice());
        proof {
            assert(stops@ == seq!['\n']);
            lemma_run_end(text, from, until(seq!['\n']));
            assert forall|k: int| from - 1 <= k < self.pos implies char_at(text, k) != '\n' by {
                if k >= from {
                    assert(until(seq!['\n'])(text[k]));
                    assert(seq!['\n'].contains('\n')) by {
                        assert(seq!['\n'][0] == '\n');
                    }
                }
            }
            lemma_newlines_none(text, from - 1, self.pos as int);
        }
        self.lexeme.clear();
    }

    /// Passes over a block comment, counting its lines.
    fn block_comment(&mut self)
        requires
            old(self).wf(),
            old(self).pos >= 1,
            old(self).text()[old(self).pos - 1] == '#',
            char_at(old(self).text(), old(self).pos as int) == '*',
        ensures
            final(self).wf(),
            final(self).source == old(self).source,
            final(self).eof == old(self).eof,
            final(self).pos == comment_end(old(self).text(), old(self).pos - 1),
            final(self).line == old(self).line + newlines(
                old(self).text(),
                old(self).pos - 1,
                final(self).pos as int,
            ),
            final(self).lexeme@ == Seq::<char>::empty(),
    {
        let ghost text = self.text();
        let ghost start = self.pos + 1;
        self.advance();
        let stops = ['\n', '#'];
        assert(stops@ == seq!['\n', '#']);
        assert(seq!['\n', '#'].contains('\n') && seq!['\n', '#'].contains('#')) by {
            assert(seq!['\n', '#'][0] == '\n');
            assert(seq!['\n', '#'][1] == '#');
        }
        loop
            invariant_except_break
                comment_close(text, start, start) == comment_close(text, start, self.pos as int),
                self.pos == start || text[self.pos - 1] == '\n' || text[self.pos - 1] == '#',
            invariant
                self.wf(),
                self.source == old(self).source,
                self.eof == old(self).eof,
                text == old(self).text(),
                start == old(self).pos + 1,
                start <= self.pos <= text.len(),
                self.line == old(self).line + newlines(text, start, self.pos as int),
                stops@ == seq!['\n', '#'],
                seq!['\n', '#'].contains('\n'),
                seq!['\n', '#'].contains('#'),
            ensures
                self.pos == comment_close(text, start, start),
            decreases text.len() - self.pos,
        {
            let ghost from = self.pos as int;
            let last = self.advance_until(stops.as_slice());
            let next = self.peek(1);
            proof {
                lemma_run_end(text, from, until(seq!['\n', '#']));
                assert forall|m: int| from <= m < self.pos implies text[m] != '\0' && text[m]
                    != '#' && char_at(text, m) != '\n' by {
                    assert(until(seq!['\n', '#'])(text[m]));
                }
                lemma_comment_close_skip(text, start, from, self.pos as int);
                lemma_newlines_none(text, from, self.pos as int);
                lemma_newlines_split(text, start, from, self.pos as int);
                if self.pos < text.len() {
                    assert(!until(seq!['\n', '#'])(text[self.pos as int]));
                }
            }
            if next == '\0' {
                break;
            }
            self.advance();
            if next == '\n' {
                self.line += 1;
            } else if last == '*' {
                break;
            }
        }
        proof {
            lemma_newlines_none(text, start - 2, start);
            lemma_newlines_split(text, start - 2, start, self.pos as int);
        }
        self.lexeme.clear();
    }

    /// Reads the rest of a number whose first digit has been read.
    fn number(&mut self) -> (out: Option<Result<Token, EzcriptError>>)
        requires
            old(self).wf(),
            old(self).pos >= 1,
            digit(old(self).text()[old(self).pos - 1]),
            old(self).lexeme@ == seq![old(self).text()[old(self).pos - 1]],
        ensures
            final(self).wf(),
            final(self).source == old(self).source,
            final(self).eof == old(self).eof,
            final(self).line == old(self).line,
            final(self).pos == number_end(old(self).text(), old(self).pos - 1),
            out_view(out) == Some(
                number_at(old(self).text(), old(self).pos - 1, old(self).line as nat).outcome,
            ),
    {
        let ghost text = self.text();
        let ghost first = self.pos - 1;
        assert(self.lexeme@ == text.subrange(first, first + 1));
        while is_digit(self.peek(1))
            invariant
                self.wf(),
                self.source == old(self).source,
                self.eof == old(self).eof,
                self.line == old(self).line,
                text == old(self).text(),
                first == old(self).pos - 1,
                0 <= first < self.pos <= text.len(),
                run_end(text, first + 1, digits()) == run_end(text, self.pos as int, digits()),
                self.lexeme@ == text.subrange(first, self.pos as int),
            decreases text.len() - self.pos,
        {
            assert(text.subrange(first, self.pos + 1) == text.subrange(
                first,
                self.pos as int,
            ).push(text[self.pos as int]));
            self.advance();
        }
        let ghost whole = self.pos as int;
        if self.peek(1) == '.' && is_digit(self.peek(2)) {
            assert(text.subrange(first, self.pos + 1) == text.subrange(
                first,
                self.pos as int,
            ).push(text[self.pos as int]));
            self.advance();
            while is_digit(self.peek(1))
                invariant
                    self.wf(),
                    self.source == old(self).source,
                    self.eof == old(self).eof,
                    self.line == old(self).line,
                    text == old(self).text(),
                    first == old(self).pos - 1,
                    whole < self.pos <= text.len(),
                    0 <= first < whole,
                    run_end(text, whole + 1, digits()) == run_end(
                        text,
                        self.pos as int,
                        digits(),
                    ),
                    self.lexeme@ == text.subrange(first, self.pos as int),
                decreases text.len() - self.pos,
            {
                assert(text.subrange(first, self.pos + 1) == text.subrange(
                    first,
                    self.pos as int,
                ).push(text[self.pos as int]));
                self.advance();
            }
        }
        let numeral = self.lexeme.clone();
        self.literal_token(TokenKind::Number, Some(Literal::Number(numeral)))
    }

    /// Reads the rest of a word whose first character has been read.
    fn identifier(&mut self) -> (out: Option<Result<Token, EzcriptError>>)
        requires
            old(self).wf(),
            old(self).pos >= 1,
            old(self).lexeme@ == seq![old(self).text()[old(self).pos - 1]],
        ensures
            final(self).wf(),
            final(self).source == old(self).source,
            final(self).eof == old(self).eof,
            final(self).line == old(self).line,
            final(self).pos == word_at(
                old(self).text(),
                old(self).pos - 1,
                old(self).line as nat,
            ).end,
            out_view(out) == Some(
                word_at(old(self).text(), old(self).pos - 1, old(self).line as nat).outcome,
            ),
    {
        let ghost text = self.text();
        let ghost first = self.pos - 1;
        assert(self.lexeme@ == text.subrange(first, first + 1));
        while is_alphanumeric(self.peek(1))
            invariant
                self.wf(),
                self.source == old(self).source,
                self.eof == old(self).eof,
                self.line == old(self).line,
                text == old(self).text(),
                first == old(self).pos - 1,
                0 <= first < self.pos <= text.len(),
                run_end(text, first + 1, word_chars()) == run_end(
                    text,
                    self.pos as int,
                    word_chars(),
                ),
                self.lexeme@ == text.subrange(first, self.pos as int),
            decreases text.len() - self.pos,
        {
            assert(text.subrange(first, self.pos + 1) == text.subrange(
                first,
                self.pos as int,
            ).push(text[self.pos as int]));
            self.advance();
        }
        let kind = match TokenKind::reserved(self.lexeme.as_str()) {
            Some(found) => *found,
            None => TokenKind::Ident,
        };
        match kind {
            TokenKind::Null => self.literal_token(kind, Some(Literal::Null)),
            TokenKind::Boolean => {
                let truth = self.lexeme.as_str().eq("true");
                self.literal_token(kind, Some(Literal::Boolean(truth)))
            },
            _ => self.static_token(kind),
        }
    }

    /// Reads the rest of a string whose opening quote, `q`, has been read.
    fn string(&mut self, q: char) -> (out: Option<Result<Token, EzcriptError>>)
        requires
            old(self).wf(),
            old(self).pos >= 1,
            quote(q),
            old(self).text()[old(self).pos - 1] == q,
            old(self).lexeme@ == seq![q],
        ensures
            final(self).wf(),
            final(self).source == old(self).source,
            final(self).eof == old(self).eof,
            final(self).pos == string_at(
                old(self).text(),
                old(self).pos - 1,
                old(self).line as nat,
            ).end,
            final(self).line == string_at(
                old(self).text(),
                old(self).pos - 1,
                old(self).line as nat,
            ).line,
            out_view(out) == Some(
                string_at(old(self).text(), old(self).pos - 1, old(self).line as nat).outcome,
            ),
    {
        let ghost text = self.text();
        let ghost start = self.pos as int;
        let stops = ['\n', q];
        assert(stops@ == seq!['\n', q]);
        assert(seq![q] + kept(text, q, start, start) == seq![q]);
        loop
            invariant_except_break
                closing(text, q, start, start) == closing(text, q, start, self.pos as int),
                self.pos == start || text[self.pos - 1] == '\n' || text[self.pos - 1] == q,
            invariant
                self.wf(),
                self.source == old(self).source,
                self.eof == old(self).eof,
                text == old(self).text(),
                start == old(self).pos,
                quote(q),
                1 <= start <= self.pos <= text.len(),
                text[start - 1] == q,
                self.line == old(self).line + newlines(text, start, self.pos as int),
                self.lexeme@ == seq![q] + kept(text, q, start, self.pos as int),
                stops@ == seq!['\n', q],
            ensures
                self.pos == closing(text, q, start, start),
                self.pos < text.len(),
                text[self.pos as int] == q,
            decreases text.len() - self.pos,
        {
            let ghost from = self.pos as int;
            let last = self.advance_until(stops.as_slice());
            let next = self.peek(1);
            proof {
                let at = self.pos as int;
                lemma_run_end(text, from, until(seq!['\n', q]));
                assert(seq!['\n', q].contains('\n') && seq!['\n', q].contains(q)) by {
                    assert(seq!['\n', q][0] == '\n');
                    assert(seq!['\n', q][1] == q);
                }
                assert forall|m: int| from <= m < at implies text[m] != '\0' && text[m] != q
                    && char_at(text, m) != '\n' by {
                    assert(until(seq!['\n', q])(text[m]));
                }
                lemma_closing_skip(text, q, start, from, at);
                lemma_kept_plain(text, q, start, from, at);
                lemma_newlines_none(text, from, at);
                lemma_newlines_split(text, start, from, at);
                assert(self.lexeme@ == seq![q] + kept(text, q, start, at));
                if at < text.len() {
                    assert(!until(seq!['\n', q])(text[at]));
                    assert(text[at] == '\0' || text[at] == '\n' || text[at] == q);
                }
            }
            if next == '\n' {
                self.advance();
                self.line += 1;
            } else if next == q {
                if last == '\\' {
                    proof {
                        let at = self.pos as int;
                        assert(kept(text, q, start, at).len() > 0) by {
                            assert(text.subrange(from, at).len() > 0);
                        }
                        assert((seq![q] + kept(text, q, start, at)).drop_last() == seq![q] + kept(
                            text,
                            q,
                            start,
                            at,
                        ).drop_last());
                    }
                    self.lexeme.pop();
                    self.advance();
                } else {
                    break;
                }
            } else {
                return self.err("unterminated string");
            }
        }
        self.advance();
        let literal = inner_text(self.lexeme.as_str());
        proof {
            let close = self.pos - 1;
            let body = kept(text, q, start, close);
            assert(self.lexeme@ == (seq![q] + body).push(q));
            assert(self.lexeme@.subrange(1, self.lexeme@.len() - 1) == body);
        }
        self.literal_token(TokenKind::String, Some(Literal::String(literal)))
    }

    /// Hands out the next token of the text, or the error that the text gives
    /// in its place; once the token that ends the stream has been handed out,
    /// nothing more.
    pub fn next_token(&mut self) -> (out: Option<Result<Token, EzcriptError>>)
        requires
            old(self).wf(),
        ensures
            final(self).wf(),
            final(self).text() == old(self).text(),
            old(self).finished() ==> {
                &&& out is None
                &&& final(self).finished()
                &&& final(self).position() == old(self).position()
                &&& final(self).line() == old(self).line()
            },
            !old(self).finished() ==> ({
                let step = scan(old(self).text(), old(self).position(), old(self).line());
                &&& out_view(out) == Some(step.outcome)
                &&& final(self).position() == step.end
                &&& final(self).line() == step.line
                &&& final(self).finished() == ends_stream(step.outcome)
                &&& old(self).upcoming() == seq![step.outcome] + final(self).upcoming()
            }),
    {
        if self.eof {
            return None;
        }
        proof {
            let step = scan(self.text(), self.pos as int, self.line as nat);
            lemma_scan_bounds(self.text(), self.pos as int, self.line as nat);
            if ends_stream(step.outcome) {
                assert(seq![step.outcome] + Seq::<Result<TokenView, ErrorView>>::empty() == seq![
                    step.outcome,
                ]);
            } else if self.pos >= self.text().len() {
                assert(char_at(self.text(), self.pos as int) == '\0');
            }
        }
        self.lexeme.clear();
        let ghost text = self.text();
        loop
            invariant
                self.wf(),
                self.source == old(self).source,
                !self.eof,
                !old(self).eof,
                text == old(self).text(),
                self.lexeme@ == Seq::<char>::empty(),
                self.pos <= text.len(),
                scan(text, self.pos as int, self.line as nat) == scan(
                    text,
                    old(self).pos as int,
                    old(self).line as nat,
                ),
            decreases text.len() - self.pos,
        {
            let ghost at = self.pos as int;
            let c = self.advance();
            assert(self.lexeme@ == seq![c]);
            if c == '\0' {
                self.eof = true;
                return self.static_token(TokenKind::Eof);
            }
            if let Some(kind) = punctuation_kind(c) {
                return self.static_token(kind);
            }
            if let Some(alone) = single_kind(c) {
                let next = self.peek(1);
                return match compound_kind(c, next) {
                    Some(both) => {
                        assert(seq![c].push(next) == seq![c, next]);
                        self.match_static_token(next, both, alone)
                    },
                    None => self.static_token(alone),
                };
            }
            if c == '"' || c == '\'' {
                return self.string(c);
            }
            if c == '#' {
                proof {
                    lemma_comment_end_bounds(text, at);
                }
                if self.peek(1) == '*' {
                    self.block_comment();
                } else {
                    self.line_comment();
                }
            } else if c.is_whitespace() {
                self.lexeme.clear();
                if c == '\n' {
                    self.line += 1;
                    return self.static_token(TokenKind::NewLine);
                }
            } else if is_digit(c) {
                return self.number();
            } else if is_alphanumeric(c) {
                return self.identifier();
            } else {
                return self.err("unexpected character");
            }
        }
    }
}

} // verus!
