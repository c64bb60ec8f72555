//! The program as a whole, and what all nodes of the syntax tree have in
//! common.

use vstd::prelude::*;
use vstd::string::StringExecFns;
use crate::statements::{render_statement, StatementView, Statements};

verus! {

/// A node of the syntax tree: it stems from a token and can be written back as
/// source text.
pub trait ASTNode {
    /// The lexeme of the token that the node stems from.
    spec fn lexeme(&self) -> Seq<char>;

    /// The node, written as source text.
    spec fn rendered(&self) -> Seq<char>;

    /// The lexeme of the token that the node stems from.
    fn token_lexeme(&self) -> (lexeme: String)
        ensures
            lexeme@ == self.lexeme(),
    ;

    /// The node, written as source text.
    fn to_string(&self) -> (text: String)
        ensures
            text@ == self.rendered(),
    ;
}

/// The statements of `statements`, each written as source text, one after the
/// other.
pub open spec fn render_program(statements: Seq<StatementView>) -> Seq<char>
    decreases statements.len(),
{
    if statements.len() == 0 {
        Seq::empty()
    } else {
        render_program(statements.drop_last()) + render_statement(statements.last())
    }
}

/// A program: its statements, in the order of the source.
#[derive(Debug, Clone, PartialEq, Eq, Hash)]
pub struct Program {
    pub statements: Vec<Statements>,
}

impl View for Program {
    type V = Seq<StatementView>;

    open spec fn view(&self) -> Seq<StatementView> {
        Seq::new(self.statements@.len(), |i: int| self.statements@[i]@)
    }
}

impl Program {
    /// The program of the statements given.
    pub fn new(statements: Vec<Statements>) -> (program: Self)
        ensures
            program.statements == statements,
    {
        Self { statements }
    }
}

impl ASTNode for Program {
    /// A program stems from no token of its own: its lexeme is empty.
    open spec fn lexeme(&self) -> Seq<char> {
        Seq::empty()
    }

    open spec fn rendered(&self) -> Seq<char> {
        render_program(self@)
    }

    fn token_lexeme(&self) -> (lexeme: String) {
        String::new()
    }

    fn to_string(&self) -> (text: String) {
        let mut text = String::new();
        let mut i: usize = 0;
        while i < self.statements.len()
            invariant
                i <= self.statements@.len(),
                text@ == render_program(self@.take(i as int)),
            decreases self.statements.len() - i,
        {
            let statement = self.statements[i].to_string();
            proof {
                assert(self@.take(i + 1).drop_last() == self@.take(i as int));
                assert(self@.take(i + 1).last() == self.statements@[i as int]@);
            }
            text.append(statement.as_str());
            i += 1;
        }
        assert(self@.take(i as int) == self@);
        text
    }
}

} // verus!
