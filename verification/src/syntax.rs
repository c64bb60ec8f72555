//! The grammar of statements: what a stream of tokens parses to. The parser's
//! contracts are stated over these definitions.

use vstd::prelude::*;
use crate::expressions::Node;
use crate::result::ErrorView;
use crate::statements::{ReturnView, SetView, StatementView};
use crate::tokens::{kind_name, sentinel, TokenKind, TokenView};

verus! {

/// The tokens that a parser looks at, and what the lexer has yet to hand out.
pub struct Window {
    /// The token at hand.
    pub current: TokenView,
    /// The token after it.
    pub peek: TokenView,
    /// What the lexer has yet to hand out.
    pub rest: Seq<Result<TokenView, ErrorView>>,
}

/// What a parser is: its window on the tokens, and the errors it has met.
pub struct ParserView {
    pub window: Window,
    pub errors: Seq<ErrorView>,
}

/// What comes of parsing: the statements read, and the parser afterwards.
pub struct Parsed {
    pub statements: Seq<StatementView>,
    pub end: ParserView,
}

/// The token that the parser sees for what the lexer hands out: the token
/// itself, and the sentinel in place of an error.
pub open spec fn slot(outcome: Result<TokenView, ErrorView>) -> TokenView {
    match outcome {
        Ok(token) => token,
        Err(_) => sentinel(),
    }
}

/// The window moved on by one token; where the lexer has nothing left, the
/// sentinel comes in.
pub open spec fn shift(w: Window) -> Window {
    if w.rest.len() > 0 {
        Window { current: w.peek, peek: slot(w.rest[0]), rest: w.rest.drop_first() }
    } else {
        Window { current: w.peek, peek: sentinel(), rest: w.rest }
    }
}

/// The parser with its window moved on by one token.
pub open spec fn step(p: ParserView) -> ParserView {
    ParserView { window: shift(p.window), errors: p.errors }
}

/// The parser that starts on what the lexer has to hand out: both places of
/// its window are filled from it, and it has met no error.
pub open spec fn start(rest: Seq<Result<TokenView, ErrorView>>) -> ParserView {
    ParserView {
        window: shift(shift(Window { current: sentinel(), peek: sentinel(), rest })),
        errors: Seq::empty(),
    }
}

/// How much a token counts towards the end of the stream: nothing if it is of
/// kind `Eof`.
pub open spec fn rank(token: TokenView) -> nat {
    if token.kind == TokenKind::Eof {
        0
    } else {
        1
    }
}

/// A measure of what a window has left: it falls with every move of the window
/// until it is zero, when nothing but tokens of kind `Eof` is left.
pub open spec fn weight(w: Window) -> nat {
    4 * w.rest.len() + 2 * rank(w.peek) + rank(w.current)
}

/// Moving the window on makes it lighter, unless nothing is left.
pub proof fn lemma_shift_weight(w: Window)
    ensures
        weight(w) > 0 ==> weight(shift(w)) < weight(w),
        weight(w) == 0 ==> weight(shift(w)) == 0,
{
}

/// The error for a token that is not of the kind expected: on the line of the
/// token at hand, naming the kind expected and the kind found, with the lexeme
/// of the token at hand.
pub open spec fn mismatch(w: Window, kind: TokenKind) -> ErrorView {
    ErrorView::Parse(
        w.current.line,
        "The following token should be of type '"@ + kind_name(kind) + "'. But got '"@
            + kind_name(w.peek.kind) + "'"@,
        w.current.lexeme,
    )
}

/// Whether the next token is of kind `kind`.
pub open spec fn expected(p: ParserView, kind: TokenKind) -> bool {
    p.window.peek.kind == kind
}

/// The parser after it has asked for a next token of kind `kind`: moved on to
/// it if it is one, and with one more error, in the same place, if not.
pub open spec fn expect(p: ParserView, kind: TokenKind) -> ParserView {
    if expected(p, kind) {
        step(p)
    } else {
        ParserView { window: p.window, errors: p.errors.push(mismatch(p.window, kind)) }
    }
}

/// Whether the window is at the end of a line: at a newline, or at a token of
/// kind `Eof` with nothing left to come from the lexer.
pub open spec fn at_line_end(w: Window) -> bool {
    w.current.kind == TokenKind::NewLine || (w.current.kind == TokenKind::Eof && w.rest.len()
        == 0)
}

/// The window moved on to the end of the line.
pub open spec fn discard(w: Window) -> Window
    decreases weight(w),
{
    if at_line_end(w) {
        w
    } else {
        discard(shift(w))
    }
}

/// Moving on to the end of the line makes a window no heavier.
pub proof fn lemma_discard_weight(w: Window)
    ensures
        weight(discard(w)) <= weight(w),
    decreases weight(w),
{
    if !at_line_end(w) {
        lemma_discard_weight(shift(w));
    }
}

/// The name that the token at hand gives.
pub open spec fn name_of(token: TokenView) -> Node<Seq<char>> {
    Node { token, value: token.lexeme, line: token.line }
}

/// Whether the token at hand is the keyword `word`.
pub open spec fn at_keyword(p: ParserView, word: Seq<char>) -> bool {
    p.window.current.kind == TokenKind::Keyword && p.window.current.lexeme == word
}

/// The parser after a `set` statement, whose keyword is the token at hand: an
/// identifier is asked for, then an equals sign, and then the rest of the line
/// is passed over. Where one of the two is missing the parser stops there.
pub open spec fn after_set(p: ParserView) -> ParserView {
    if !expected(p, TokenKind::Ident) {
        expect(p, TokenKind::Ident)
    } else if !expected(step(p), TokenKind::Equal) {
        expect(step(p), TokenKind::Equal)
    } else {
        ParserView { window: discard(shift(shift(p.window))), errors: p.errors }
    }
}

/// The `set` statement whose keyword is the token at hand, if an identifier
/// and an equals sign follow it: it has the identifier for its name, and no
/// value.
pub open spec fn set_statement(p: ParserView) -> Option<StatementView> {
    if expected(p, TokenKind::Ident) && expected(step(p), TokenKind::Equal) {
        Some(
            StatementView::SetStatement(
                SetView {
                    token: p.window.current,
                    name: Some(name_of(p.window.peek)),
                    value: None,
                    line: p.window.current.line,
                },
            ),
        )
    } else {
        None
    }
}

/// The parser after a `return` statement, whose keyword is the token at hand:
/// the rest of the line is passed over.
pub open spec fn after_return(p: ParserView) -> ParserView {
    ParserView { window: discard(shift(p.window)), errors: p.errors }
}

/// The `return` statement whose keyword is the token at hand: it has no value.
pub open spec fn return_statement(p: ParserView) -> StatementView {
    StatementView::ReturnStatement(
        ReturnView { token: p.window.current, return_value: None, line: p.window.current.line },
    )
}

/// The statement that starts at the token at hand, if one does.
pub open spec fn statement(p: ParserView) -> Option<StatementView> {
    if at_keyword(p, "set"@) {
        set_statement(p)
    } else if at_keyword(p, "return"@) {
        Some(return_statement(p))
    } else {
        None
    }
}

/// The parser after the statement that starts at the token at hand; where none
/// starts there, the parser as it is.
pub open spec fn after_statement(p: ParserView) -> ParserView {
    if at_keyword(p, "set"@) {
        after_set(p)
    } else if at_keyword(p, "return"@) {
        after_return(p)
    } else {
        p
    }
}

/// Reading a statement makes the window no heavier.
pub proof fn lemma_statement_weight(p: ParserView)
    ensures
        weight(after_statement(p).window) <= weight(p.window),
{
    lemma_shift_weight(p.window);
    lemma_shift_weight(shift(p.window));
    lemma_discard_weight(shift(p.window));
    lemma_discard_weight(shift(shift(p.window)));
}

/// The statements `first`, if there is one, and then `others`.
pub open spec fn prepend(first: Option<StatementView>, others: Seq<StatementView>) -> Seq<
    StatementView,
> {
    match first {
        Some(s) => seq![s] + others,
        None => others,
    }
}

/// The program that the parser reads: as long as the token at hand is not of
/// kind `Eof`, the statement that starts there, if one does, is read, and the
/// window is moved on by one token, whether one did or not.
pub open spec fn parse(p: ParserView) -> Parsed
    decreases weight(p.window),
{
    if p.window.current.kind == TokenKind::Eof {
        Parsed { statements: Seq::empty(), end: p }
    } else {
        proof {
            lemma_statement_weight(p);
            lemma_shift_weight(after_statement(p).window);
        }
        let others = parse(step(after_statement(p)));
        Parsed { statements: prepend(statement(p), others.statements), end: others.end }
    }
}

} // verus!
