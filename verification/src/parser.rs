//! The parser: it draws the tokens of a lexer and builds the program of their
//! statements, collecting the errors it meets on the way.

use vstd::prelude::*;
use vstd::string::StringExecFns;
use crate::ast::Program;
use crate::expressions::Identifier;
use crate::lexer::Lexer;
use crate::result::{ErrorView, EzcriptError};
use crate::statements::{ReturnStatement, SetStatement, StatementView, Statements};
use crate::syntax::{
    after_return, after_set, after_statement, at_line_end, discard, expect, expected,
    lemma_shift_weight, lemma_statement_weight, mismatch, parse, return_statement,
    set_statement, start, statement, step, weight, ParserView, Window,
};
use crate::tokens::{Token, TokenKind};

verus! {

/// What a list of errors is.
pub open spec fn error_views(errors: Seq<EzcriptError>) -> Seq<ErrorView> {
    Seq::new(errors.len(), |i: int| errors[i]@)
}

/// What an optional statement is.
pub open spec fn statement_view(statement: Option<Statements>) -> Option<StatementView> {
    match statement {
        Some(s) => Some(s@),
        None => None,
    }
}

/// A parser over the tokens of one lexer.
#[derive(Debug)]
pub struct Parser {
    lexer: Lexer,
    current_token: Token,
    peek_token: Token,
    errors: Vec<EzcriptError>,
}

impl View for Parser {
    type V = ParserView;

    closed spec fn view(&self) -> ParserView {
        ParserView {
            window: Window {
                current: self.current_token@,
                peek: self.peek_token@,
                rest: self.lexer.upcoming(),
            },
            errors: error_views(self.errors@),
        }
    }
}

impl Parser {
    /// The parser's invariant: that of its lexer.
    pub closed spec fn wf(&self) -> bool {
        self.lexer.wf()
    }

    /// A parser on the tokens that `lexer` has yet to hand out.
    pub fn new(lexer: Lexer) -> (parser: Self)
        requires
            lexer.wf(),
        ensures
            parser.wf(),
            parser@ == start(lexer.upcoming()),
    {
        let mut parser = Self {
            lexer,
            current_token: Token::default(),
            peek_token: Token::default(),
            errors: Vec::new(),
        };
        assert(error_views(parser.errors@) == Seq::<ErrorView>::empty());
        parser.advance_tokens();
        parser.advance_tokens();
        parser
    }

    /// The errors that the parser has met, in the order in which it met them.
    pub fn errors(&self) -> (errors: &Vec<EzcriptError>)
        ensures
            error_views(errors@) == self@.errors,
    {
        &self.errors
    }

    /// Reads the program: the statements of the tokens from the one at hand up
    /// to the first of kind `Eof`.
    pub fn parse_program(&mut self) -> (program: Option<Program>)
        requires
            old(self).wf(),
        ensures
            final(self).wf(),
            program matches Some(read) && read@ == parse(old(self)@).statements,
            final(self)@ == parse(old(self)@).end,
    {
        let mut statements: Vec<Statements> = Vec::new();
        let ghost mut read: Seq<StatementView> = Seq::empty();
        while self.current_token.kind != TokenKind::Eof
            invariant
                self.wf(),
                read == Seq::new(statements@.len(), |i: int| statements@[i]@),
                parse(old(self)@).statements == read + parse(self@).statements,
                parse(old(self)@).end == parse(self@).end,
            decreases weight(self@.window),
        {
            let ghost before = self@;
            proof {
                lemma_statement_weight(before);
                lemma_shift_weight(after_statement(before).window);
            }
            let found = self.parse_statement();
            self.advance_tokens();
            match found {
                Some(statement) => {
                    proof {
                        read = read.push(statement@);
                        assert(read + parse(self@).statements == (read.drop_last() + (seq![
                            statement@,
                        ] + parse(self@).statements)));
                    }
                    statements.push(statement);
                },
                None => {},
            }
            assert(read == Seq::new(statements@.len(), |i: int| statements@[i]@));
        }
        assert(read + Seq::<StatementView>::empty() == read);
        let program = Program::new(statements);
        assert(program@ == read);
        Some(program)
    }

    /// The parse error with the message `msg`, on the line of the token at hand
    /// and with its lexeme.
    fn err(&self, msg: &str) -> (error: EzcriptError)
        ensures
            error@ == ErrorView::Parse(
                self.current_token.line as nat,
                msg@,
                self.current_token.lexeme@,
            ),
    {
        EzcriptError::Parse(
            self.current_token.line,
            msg.to_string(),
            self.current_token.lexeme.clone(),
        )
    }

    /// Reads the statement that starts at the token at hand, if one does.
    fn parse_statement(&mut self) -> (found: Option<Statements>)
        requires
            old(self).wf(),
        ensures
            final(self).wf(),
            statement_view(found) == statement(old(self)@),
            final(self)@ == after_statement(old(self)@),
    {
        if self.current_token.kind == TokenKind::Keyword && self.current_token.lexeme.as_str().eq(
            "set",
        ) {
            self.parse_let_statement()
        } else if self.current_token.kind == TokenKind::Keyword
            && self.current_token.lexeme.as_str().eq("return") {
            self.parse_return_statement()
        } else {
            None
        }
    }

    /// Reads a `return` statement whose keyword is the token at hand.
    fn parse_return_statement(&mut self) -> (found: Option<Statements>)
        requires
            old(self).wf(),
        ensures
            final(self).wf(),
            statement_view(found) == Some(return_statement(old(self)@)),
            final(self)@ == after_return(old(self)@),
    {
        let return_statement = ReturnStatement::new(
            self.current_token.clone(),
            None,
            self.current_token.line,
        );
        self.advance_tokens();
        self.skip_line();
        Some(Statements::ReturnStatement(return_statement))
    }

    /// Reads a `set` statement whose keyword is the token at hand.
    fn parse_let_statement(&mut self) -> (found: Option<Statements>)
        requires
            old(self).wf(),
        ensures
            final(self).wf(),
            statement_view(found) == set_statement(old(self)@),
            final(self)@ == after_set(old(self)@),
    {
        let token = self.current_token.clone();
        let line = self.current_token.line;
        if !self.expected_token(TokenKind::Ident) {
            return None;
        }
        let name = Identifier::new(
            self.current_token.clone(),
            self.current_token.lexeme.as_str(),
            self.current_token.line,
        );
        if !self.expected_token(TokenKind::Equal) {
            return None;
        }
        self.skip_line();
        Some(Statements::SetStatement(SetStatement::new(token, Some(name), None, line)))
    }

    /// Moves the window on to the end of the line.
    fn skip_line(&mut self)
        requires
            old(self).wf(),
        ensures
            final(self).wf(),
            final(self)@.window == discard(old(self)@.window),
            final(self)@.errors == old(self)@.errors,
    {
        while !self.at_line_end()
            invariant
                self.wf(),
                self@.errors == old(self)@.errors,
                discard(self@.window) == discard(old(self)@.window),
            decreases weight(self@.window),
        {
            proof {
                lemma_shift_weight(self@.window);
            }
            self.advance_tokens();
        }
    }

    /// Tells whether the window is at the end of a line.
    fn at_line_end(&self) -> (there: bool)
        requires
            self.wf(),
        ensures
            there == at_line_end(self@.window),
    {
        proof {
            self.lexer.lemma_upcoming();
        }
        self.current_token.kind == TokenKind::NewLine || (self.current_token.kind
            == TokenKind::Eof && self.lexer.is_finished())
    }

    /// Moves the window on by one token.
    fn advance_tokens(&mut self)
        requires
            old(self).wf(),
        ensures
            final(self).wf(),
            final(self)@ == step(old(self)@),
    {
        let ghost rest = self.lexer.upcoming();
        proof {
            self.lexer.lemma_upcoming();
        }
        let next = match self.lexer.next_token() {
            Some(Ok(token)) => token,
            Some(Err(_)) => Token::default(),
            None => Token::default(),
        };
        proof {
            if rest.len() > 0 {
                assert(rest.drop_first() == self.lexer.upcoming());
            }
        }
        self.current_token = self.peek_token.clone();
        self.peek_token = next;
    }

    /// Records that the next token is not of kind `kind`.
    fn expected_token_error(&mut self, kind: TokenKind)
        requires
            old(self).wf(),
        ensures
            final(self).wf(),
            final(self)@.window == old(self)@.window,
            final(self)@.errors == old(self)@.errors.push(mismatch(old(self)@.window, kind)),
    {
        let mut message = "The following token should be of type '".to_string();
        message.append(kind.name());
        message.append("'. But got '");
        message.append(self.peek_token.kind.name());
        message.append("'");
        let error = self.err(message.as_str());
        proof {
            assert(error_views(self.errors@.push(error)) == error_views(self.errors@).push(
                error@,
            ));
        }
        self.errors.push(error);
    }

    /// Asks for a next token of kind `kind`: moves on to it if it is one, and
    /// records an error if it is not.
    fn expected_token(&mut self, kind: TokenKind) -> (found: bool)
        requires
            old(self).wf(),
        ensures
            final(self).wf(),
            found == expected(old(self)@, kind),
            final(self)@ == expect(old(self)@, kind),
    {
        if self.peek_token.kind == kind {
            self.advance_tokens();
            return true;
        }
        self.expected_token_error(kind);
        false
    }
}

} // verus!
