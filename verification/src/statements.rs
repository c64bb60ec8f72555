//! The statements of the language.

use vstd::prelude::*;
use vstd::string::StringExecFns;
use crate::ast::ASTNode;
use crate::expressions::{render_expression, ExpressionView, Expressions, Identifier, Node};
use crate::tokens::{sentinel, Token, TokenView};

verus! {

/// What an optional expression is.
pub open spec fn expression_view(expression: Option<Expressions>) -> Option<ExpressionView> {
    match expression {
        Some(e) => Some(e@),
        None => None,
    }
}

/// What an optional name is.
pub open spec fn name_view(name: Option<Identifier>) -> Option<Node<Seq<char>>> {
    match name {
        Some(n) => Some(n@),
        None => None,
    }
}

/// What a `SetStatement` is.
pub struct SetView {
    pub token: TokenView,
    pub name: Option<Node<Seq<char>>>,
    pub value: Option<ExpressionView>,
    pub line: nat,
}

/// What a `ReturnStatement` is.
pub struct ReturnView {
    pub token: TokenView,
    pub return_value: Option<ExpressionView>,
    pub line: nat,
}

/// What a statement is.
pub enum StatementView {
    SetStatement(SetView),
    ReturnStatement(ReturnView),
}

/// The text of a statement's value: that of the expression where there is one,
/// and else the lexeme of the statement's own token, which stands in for it.
pub open spec fn render_value(value: Option<ExpressionView>, token: TokenView) -> Seq<char> {
    match value {
        Some(expression) => render_expression(expression),
        None => token.lexeme,
    }
}

/// A `set` statement, written as source text: its keyword, its name, an equals
/// sign and its value. One without a name is written as a fixed notice.
pub open spec fn render_set(statement: SetView) -> Seq<char> {
    match statement.name {
        Some(name) => statement.token.lexeme + " "@ + name.value + " = "@ + render_value(
            statement.value,
            statement.token,
        ),
        None => "we're using a default value"@,
    }
}

/// A `return` statement, written as source text: its keyword and its value.
pub open spec fn render_return(statement: ReturnView) -> Seq<char> {
    statement.token.lexeme + " "@ + render_value(statement.return_value, statement.token)
}

/// A statement, written as source text.
pub open spec fn render_statement(statement: StatementView) -> Seq<char> {
    match statement {
        StatementView::SetStatement(s) => render_set(s),
        StatementView::ReturnStatement(s) => render_return(s),
    }
}

/// The lexeme of the token that a statement stems from.
pub open spec fn statement_lexeme(statement: StatementView) -> Seq<char> {
    match statement {
        StatementView::SetStatement(s) => s.token.lexeme,
        StatementView::ReturnStatement(s) => s.token.lexeme,
    }
}

/// The text of a statement's value.
fn value_text(value: &Option<Expressions>, token: &Token) -> (text: String)
    ensures
        text@ == render_value(expression_view(*value), token@),
{
    match value {
        Some(expression) => expression.to_string(),
        None => token.lexeme.clone(),
    }
}

/// The statement `set name = value`.
#[derive(Debug, Clone, PartialEq, Eq, Hash)]
pub struct SetStatement {
    pub token: Token,
    pub name: Option<Identifier>,
    pub value: Option<Expressions>,
    pub line: u64,
}

impl View for SetStatement {
    type V = SetView;

    open spec fn view(&self) -> SetView {
        SetView {
            token: self.token@,
            name: name_view(self.name),
            value: expression_view(self.value),
            line: self.line as nat,
        }
    }
}

impl SetStatement {
    pub fn new(
        token: Token,
        name: Option<Identifier>,
        value: Option<Expressions>,
        line: u64,
    ) -> (statement: Self)
        ensures
            statement@ == (SetView {
                token: token@,
                name: name_view(name),
                value: expression_view(value),
                line: line as nat,
            }),
    {
        Self { token, name, value, line }
    }
}

impl Default for SetStatement {
    fn default() -> (statement: Self)
        ensures
            statement@ == (SetView { token: sentinel(), name: None, value: None, line: 1 }),
    {
        Self { token: Token::default(), name: None, value: None, line: 1 }
    }
}

impl ASTNode for SetStatement {
    open spec fn lexeme(&self) -> Seq<char> {
        self.token.lexeme@
    }

    open spec fn rendered(&self) -> Seq<char> {
        render_set(self@)
    }

    fn token_lexeme(&self) -> (lexeme: String) {
        self.token.lexeme.clone()
    }

    fn to_string(&self) -> (text: String) {
        match &self.name {
            Some(name) => {
                let mut text = self.token_lexeme();
                text.append(" ");
                text.append(name.value.as_str());
                text.append(" = ");
                let value = value_text(&self.value, &self.token);
                text.append(value.as_str());
                text
            },
            None => "we're using a default value".to_string(),
        }
    }
}

/// The statement `return value`.
#[derive(Debug, Clone, PartialEq, Eq, Hash)]
pub struct ReturnStatement {
    token: Token,
    return_value: Option<Expressions>,
    line: u64,
}

impl View for ReturnStatement {
    type V = ReturnView;

    closed spec fn view(&self) -> ReturnView {
        ReturnView {
            token: self.token@,
            return_value: expression_view(self.return_value),
            line: self.line as nat,
        }
    }
}

impl ReturnStatement {
    pub fn new(token: Token, return_value: Option<Expressions>, line: u64) -> (statement: Self)
        ensures
            statement@ == (ReturnView {
                token: token@,
                return_value: expression_view(return_value),
                line: line as nat,
            }),
    {
        Self { token, return_value, line }
    }
}

impl Default for ReturnStatement {
    fn default() -> (statement: Self)
        ensures
            statement@ == (ReturnView { token: sentinel(), return_value: None, line: 1 }),
    {
        Self { token: Token::default(), return_value: None, line: 1 }
    }
}

impl ASTNode for ReturnStatement {
    open spec fn lexeme(&self) -> Seq<char> {
        self@.token.lexeme
    }

    open spec fn rendered(&self) -> Seq<char> {
        render_return(self@)
    }

    fn token_lexeme(&self) -> (lexeme: String) {
        self.token.lexeme.clone()
    }

    fn to_string(&self) -> (text: String) {
        let mut text = self.token_lexeme();
        text.append(" ");
        let value = value_text(&self.return_value, &self.token);
        text.append(value.as_str());
        text
    }
}

/// A statement: one of the above.
#[derive(Debug, Clone, PartialEq, Eq, Hash)]
pub enum Statements {
    SetStatement(SetStatement),
    ReturnStatement(ReturnStatement),
}

impl View for Statements {
    type V = StatementView;

    open spec fn view(&self) -> StatementView {
        match self {
            Statements::SetStatement(s) => StatementView::SetStatement(s@),
            Statements::ReturnStatement(s) => StatementView::ReturnStatement(s@),
        }
    }
}

impl ASTNode for Statements {
    open spec fn lexeme(&self) -> Seq<char> {
        statement_lexeme(self@)
    }

    open spec fn rendered(&self) -> Seq<char> {
        render_statement(self@)
    }

    fn token_lexeme(&self) -> (lexeme: String) {
        match self {
            Statements::SetStatement(s) => s.token_lexeme(),
            Statements::ReturnStatement(s) => s.token_lexeme(),
        }
    }

    fn to_string(&self) -> (text: String) {
        match self {
            Statements::SetStatement(s) => s.to_string(),
            Statements::ReturnStatement(s) => s.to_string(),
        }
    }
}

} // verus!
