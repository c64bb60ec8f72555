//! The errors of the language front end.

use vstd::prelude::*;
use vstd::string::StringExecFns;
use crate::text::{decimal, push_decimal};

verus! {

#[verifier::external_type_specification]
#[verifier::external_body]
pub struct ExIoError(std::io::Error);

/// What went wrong while a script was read, scanned or parsed.
#[derive(Debug)]
pub enum EzcriptError {
    /// Reading from a file or from standard input failed.
    IO(std::io::Error),
    /// The lexer met text it could not scan: the line, the message, and the
    /// lexeme read so far.
    Lexical(u64, String, String),
    /// The parser met a token it did not expect: the line, the message, and
    /// the lexeme of the token at hand.
    Parse(u64, String, String),
}

/// What an `EzcriptError` is, with texts as sequences of characters.
pub enum ErrorView {
    IO(std::io::Error),
    Lexical(nat, Seq<char>, Seq<char>),
    Parse(nat, Seq<char>, Seq<char>),
}

impl View for EzcriptError {
    type V = ErrorView;

    open spec fn view(&self) -> ErrorView {
        match self {
            EzcriptError::IO(e) => ErrorView::IO(*e),
            EzcriptError::Lexical(line, message, lexeme) => ErrorView::Lexical(
                *line as nat,
                message@,
                lexeme@,
            ),
            EzcriptError::Parse(line, message, lexeme) => ErrorView::Parse(
                *line as nat,
                message@,
                lexeme@,
            ),
        }
    }
}

/// The text that reports a lexical or a parse error; of an input or output
/// error the text is that of the error itself.
pub open spec fn report(error: ErrorView) -> Option<Seq<char>> {
    match error {
        ErrorView::IO(_) => None,
        ErrorView::Lexical(line, message, lexeme) => Some(
            "Lexical Error [line "@ + decimal(line) + "] "@ + message + ": "@ + lexeme,
        ),
        ErrorView::Parse(line, message, lexeme) => Some(
            "Parse Error [line "@ + decimal(line) + "] "@ + message + ": near "@ + lexeme,
        ),
    }
}

impl EzcriptError {
    /// The text that reports the error.
    pub fn to_string(&self) -> (text: String)
        ensures
            report(self@) matches Some(expected) ==> text@ == expected,
    {
        match self {
            EzcriptError::IO(e) => e.to_string(),
            EzcriptError::Lexical(line, message, lexeme) => {
                let mut text = "Lexical Error [line ".to_string();
                push_decimal(&mut text, *line);
                text.append("] ");
                text.append(message.as_str());
                text.append(": ");
                text.append(lexeme.as_str());
                text
            },
            EzcriptError::Parse(line, message, lexeme) => {
                let mut text = "Parse Error [line ".to_string();
                push_decimal(&mut text, *line);
                text.append("] ");
                text.append(message.as_str());
                text.append(": near ");
                text.append(lexeme.as_str());
                text
            },
        }
    }
}

impl From<std::io::Error> for EzcriptError {
    fn from(err: std::io::Error) -> (error: EzcriptError) {
        EzcriptError::IO(err)
    }
}

impl vstd::std_specs::convert::FromSpecImpl<std::io::Error> for EzcriptError {
    open spec fn obeys_from_spec() -> bool {
        true
    }

    open spec fn from_spec(err: std::io::Error) -> EzcriptError {
        EzcriptError::IO(err)
    }
}

} // verus!
