//! The expressions of the language: each holds the token it stems from, its
//! value, and its line.

use vstd::prelude::*;
use crate::ast::ASTNode;
use crate::text::{push_signed_decimal, signed_decimal};
use crate::tokens::{Token, TokenView};

verus! {

/// What a node with a value of type `V` is.
pub struct Node<V> {
    pub token: TokenView,
    pub value: V,
    pub line: nat,
}

/// What an expression is.
pub enum ExpressionView {
    Identifier(Node<Seq<char>>),
    Integer(Node<int>),
    Float(Node<Seq<char>>),
    Boolean(Node<bool>),
    Null(Node<Seq<char>>),
}

/// The text that writes the truth value `b`.
pub open spec fn truth_text(b: bool) -> Seq<char> {
    if b {
        "true"@
    } else {
        "false"@
    }
}

/// An expression, written as source text: an identifier as its name, a number
/// as its numeral, a truth value as `true` or `false`, and the placeholder of
/// an absent value as the text it holds.
pub open spec fn render_expression(expression: ExpressionView) -> Seq<char> {
    match expression {
        ExpressionView::Identifier(node) => node.value,
        ExpressionView::Integer(node) => signed_decimal(node.value),
        ExpressionView::Float(node) => node.value,
        ExpressionView::Boolean(node) => truth_text(node.value),
        ExpressionView::Null(node) => node.value,
    }
}

/// The lexeme of the token that an expression stems from.
pub open spec fn expression_lexeme(expression: ExpressionView) -> Seq<char> {
    match expression {
        ExpressionView::Identifier(node) => node.token.lexeme,
        ExpressionView::Integer(node) => node.token.lexeme,
        ExpressionView::Float(node) => node.token.lexeme,
        ExpressionView::Boolean(node) => node.token.lexeme,
        ExpressionView::Null(node) => node.token.lexeme,
    }
}

/// The placeholder of a value that is absent.
#[derive(Debug, Clone, PartialEq, Eq, Hash)]
pub struct Null {
    pub token: Token,
    pub value: String,
    pub line: u64,
}

impl View for Null {
    type V = Node<Seq<char>>;

    open spec fn view(&self) -> Node<Seq<char>> {
        Node { token: self.token@, value: self.value@, line: self.line as nat }
    }
}

impl Null {
    pub fn new(token: Token, value: &str, line: u64) -> (node: Self)
        ensures
            node@ == (Node { token: token@, value: value@, line: line as nat }),
    {
        Self { token, value: value.to_string(), line }
    }
}

impl ASTNode for Null {
    open spec fn lexeme(&self) -> Seq<char> {
        self.token.lexeme@
    }

    open spec fn rendered(&self) -> Seq<char> {
        self.value@
    }

    fn token_lexeme(&self) -> (lexeme: String) {
        self.token.lexeme.clone()
    }

    fn to_string(&self) -> (text: String) {
        self.value.clone()
    }
}

/// A name.
#[derive(Debug, Clone, PartialEq, Eq, Hash)]
pub struct Identifier {
    pub token: Token,
    pub value: String,
    pub line: u64,
}

impl View for Identifier {
    type V = Node<Seq<char>>;

    open spec fn view(&self) -> Node<Seq<char>> {
        Node { token: self.token@, value: self.value@, line: self.line as nat }
    }
}

impl Identifier {
    pub fn new(token: Token, value: &str, line: u64) -> (node: Self)
        ensures
            node@ == (Node { token: token@, value: value@, line: line as nat }),
    {
        Self { token, value: value.to_string(), line }
    }
}

impl ASTNode for Identifier {
    open spec fn lexeme(&self) -> Seq<char> {
        self.token.lexeme@
    }

    open spec fn rendered(&self) -> Seq<char> {
        self.value@
    }

    fn token_lexeme(&self) -> (lexeme: String) {
        self.token.lexeme.clone()
    }

    fn to_string(&self) -> (text: String) {
        self.value.clone()
    }
}

/// A whole number.
#[derive(Debug, Clone, PartialEq, Eq, Hash)]
pub struct Integer {
    pub token: Token,
    pub value: i64,
    pub line: u64,
}

impl View for Integer {
    type V = Node<int>;

    open spec fn view(&self) -> Node<int> {
        Node { token: self.token@, value: self.value as int, line: self.line as nat }
    }
}

impl Integer {
    pub fn new(token: Token, value: i64, line: u64) -> (node: Self)
        ensures
            node@ == (Node { token: token@, value: value as int, line: line as nat }),
    {
        Self { token, value, line }
    }
}

impl ASTNode for Integer {
    open spec fn lexeme(&self) -> Seq<char> {
        self.token.lexeme@
    }

    open spec fn rendered(&self) -> Seq<char> {
        signed_decimal(self.value as int)
    }

    fn token_lexeme(&self) -> (lexeme: String) {
        self.token.lexeme.clone()
    }

    fn to_string(&self) -> (text: String) {
        let mut text = String::new();
        push_signed_decimal(&mut text, self.value);
        text
    }
}

/// A number with a fraction, held as the numeral that writes it.
#[derive(Debug, Clone, PartialEq, Eq, Hash)]
pub struct Float {
    pub token: Token,
    pub value: String,
    pub line: u64,
}

impl View for Float {
    type V = Node<Seq<char>>;

    open spec fn view(&self) -> Node<Seq<char>> {
        Node { token: self.token@, value: self.value@, line: self.line as nat }
    }
}

impl Float {
    pub fn new(token: Token, value: &str, line: u64) -> (node: Self)
        ensures
            node@ == (Node { token: token@, value: value@, line: line as nat }),
    {
        Self { token, value: value.to_string(), line }
    }
}

impl ASTNode for Float {
    open spec fn lexeme(&self) -> Seq<char> {
        self.token.lexeme@
    }

    open spec fn rendered(&self) -> Seq<char> {
        self.value@
    }

    fn token_lexeme(&self) -> (lexeme: String) {
        self.token.lexeme.clone()
    }

    fn to_string(&self) -> (text: String) {
        self.value.clone()
    }
}

/// A truth value.
#[derive(Debug, Clone, PartialEq, Eq, Hash)]
pub struct Boolean {
    pub token: Token,
    pub value: bool,
    pub line: u64,
}

impl View for Boolean {
    type V = Node<bool>;

    open spec fn view(&self) -> Node<bool> {
        Node { token: self.token@, value: self.value, line: self.line as nat }
    }
}

impl Boolean {
    pub fn new(token: Token, value: bool, line: u64) -> (node: Self)
        ensures
            node@ == (Node { token: token@, value, line: line as nat }),
    {
        Self { token, value, line }
    }
}

impl ASTNode for Boolean {
    open spec fn lexeme(&self) -> Seq<char> {
        self.token.lexeme@
    }

    open spec fn rendered(&self) -> Seq<char> {
        truth_text(self.value)
    }

    fn token_lexeme(&self) -> (lexeme: String) {
        self.token.lexeme.clone()
    }

    fn to_string(&self) -> (text: String) {
        if self.value {
            "true".to_string()
        } else {
            "false".to_string()
        }
    }
}

/// An expression: one of the nodes above.
#[derive(Debug, Clone, PartialEq, Eq, Hash)]
pub enum Expressions {
    Identifier(Identifier),
    Integer(Integer),
    Float(Float),
    Boolean(Boolean),
    Null(Null),
}

impl View for Expressions {
    type V = ExpressionView;

    open spec fn view(&self) -> ExpressionView {
        match self {
            Expressions::Identifier(node) => ExpressionView::Identifier(node@),
            Expressions::Integer(node) => ExpressionView::Integer(node@),
            Expressions::Float(node) => ExpressionView::Float(node@),
            Expressions::Boolean(node) => ExpressionView::Boolean(node@),
            Expressions::Null(node) => ExpressionView::Null(node@),
        }
    }
}

impl ASTNode for Expressions {
    open spec fn lexeme(&self) -> Seq<char> {
        expression_lexeme(self@)
    }

    open spec fn rendered(&self) -> Seq<char> {
        render_expression(self@)
    }

    fn token_lexeme(&self) -> (lexeme: String) {
        match self {
            Expressions::Identifier(node) => node.token_lexeme(),
            Expressions::Integer(node) => node.token_lexeme(),
            Expressions::Float(node) => node.token_lexeme(),
            Expressions::Boolean(node) => node.token_lexeme(),
            Expressions::Null(node) => node.token_lexeme(),
        }
    }

    fn to_string(&self) -> (text: String) {
        match self {
            Expressions::Identifier(node) => node.to_string(),
            Expressions::Integer(node) => node.to_string(),
            Expressions::Float(node) => node.to_string(),
            Expressions::Boolean(node) => node.to_string(),
            Expressions::Null(node) => node.to_string(),
        }
    }
}

} // verus!
