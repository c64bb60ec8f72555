//! The token model: the kinds of token, the literal a token may carry, and the
//! token itself, with the table of reserved words.

use vstd::prelude::*;

verus! {

/// The lexical categories of the language.
#[derive(Debug, Clone, Copy, PartialEq, Eq, Hash, Structural)]
pub enum TokenKind {
    Keyword,
    Ident,
    Number,
    String,
    Float,
    Boolean,
    Null,
    Not,
    Plus,
    Minus,
    Star,
    Slash,
    Indent,
    Dedent,
    LParen,
    RParen,
    LBracket,
    RBracket,
    LBrace,
    RBrace,
    Colon,
    Comma,
    Equal,
    Less,
    Greater,
    Dot,
    Percent,
    Hashtag,
    EqEqual,
    BangEqual,
    LessEqual,
    GreaterEqual,
    DoublePlus,
    DoubleMinus,
    DoubleStar,
    DoubleSlash,
    PlusEqual,
    MinEqual,
    StarEqual,
    SlashEqual,
    PercentEqual,
    RArrow,
    NewLine,
    Illegal,
    Eof,
}

/// The kind that the reserved word `word` stands for, if `word` is one.
pub open spec fn reserved_word(word: Seq<char>) -> Option<TokenKind> {
    if word == "set"@ || word == "const"@ || word == "use"@ || word == "from"@ || word == "if"@
        || word == "else"@ || word == "elseif"@ || word == "and"@ || word == "or"@ || word
        == "is"@ || word == "in"@ || word == "do"@ || word == "while"@ || word == "break"@
        || word == "for"@ || word == "each"@ || word == "func"@ || word == "return"@ || word
        == "match"@ || word == "class"@ || word == "inherit"@ {
        Some(TokenKind::Keyword)
    } else if word == "true"@ || word == "false"@ {
        Some(TokenKind::Boolean)
    } else if word == "not"@ {
        Some(TokenKind::Not)
    } else if word == "null"@ {
        Some(TokenKind::Null)
    } else {
        None
    }
}

/// The name of a kind, as it is written in messages.
pub open spec fn kind_name(kind: TokenKind) -> Seq<char> {
    match kind {
        TokenKind::Keyword => "Keyword"@,
        TokenKind::Ident => "Ident"@,
        TokenKind::Number => "Number"@,
        TokenKind::String => "String"@,
        TokenKind::Float => "Float"@,
        TokenKind::Boolean => "Boolean"@,
        TokenKind::Null => "Null"@,
        TokenKind::Not => "Not"@,
        TokenKind::Plus => "Plus"@,
        TokenKind::Minus => "Minus"@,
        TokenKind::Star => "Star"@,
        TokenKind::Slash => "Slash"@,
        TokenKind::Indent => "Indent"@,
        TokenKind::Dedent => "Dedent"@,
        TokenKind::LParen => "LParen"@,
        TokenKind::RParen => "RParen"@,
        TokenKind::LBracket => "LBracket"@,
        TokenKind::RBracket => "RBracket"@,
        TokenKind::LBrace => "LBrace"@,
        TokenKind::RBrace => "RBrace"@,
        TokenKind::Colon => "Colon"@,
        TokenKind::Comma => "Comma"@,
        TokenKind::Equal => "Equal"@,
        TokenKind::Less => "Less"@,
        TokenKind::Greater => "Greater"@,
        TokenKind::Dot => "Dot"@,
        TokenKind::Percent => "Percent"@,
        TokenKind::Hashtag => "Hashtag"@,
        TokenKind::EqEqual => "EqEqual"@,
        TokenKind::BangEqual => "BangEqual"@,
        TokenKind::LessEqual => "LessEqual"@,
        TokenKind::GreaterEqual => "GreaterEqual"@,
        TokenKind::DoublePlus => "DoublePlus"@,
        TokenKind::DoubleMinus => "DoubleMinus"@,
        TokenKind::DoubleStar => "DoubleStar"@,
        TokenKind::DoubleSlash => "DoubleSlash"@,
        TokenKind::PlusEqual => "PlusEqual"@,
        TokenKind::MinEqual => "MinEqual"@,
        TokenKind::StarEqual => "StarEqual"@,
        TokenKind::SlashEqual => "SlashEqual"@,
        TokenKind::PercentEqual => "PercentEqual"@,
        TokenKind::RArrow => "RArrow"@,
        TokenKind::NewLine => "NewLine"@,
        TokenKind::Illegal => "Illegal"@,
        TokenKind::Eof => "Eof"@,
    }
}

/// The reserved words, each with the kind it stands for.
pub open spec fn reserved_table() -> Seq<(Seq<char>, TokenKind)> {
    seq![
        ("set"@, TokenKind::Keyword),
        ("const"@, TokenKind::Keyword),
        ("use"@, TokenKind::Keyword),
        ("from"@, TokenKind::Keyword),
        ("true"@, TokenKind::Boolean),
        ("false"@, TokenKind::Boolean),
        ("if"@, TokenKind::Keyword),
        ("else"@, TokenKind::Keyword),
        ("elseif"@, TokenKind::Keyword),
        ("and"@, TokenKind::Keyword),
        ("or"@, TokenKind::Keyword),
        ("not"@, TokenKind::Not),
        ("is"@, TokenKind::Keyword),
        ("in"@, TokenKind::Keyword),
        ("do"@, TokenKind::Keyword),
        ("while"@, TokenKind::Keyword),
        ("break"@, TokenKind::Keyword),
        ("for"@, TokenKind::Keyword),
        ("each"@, TokenKind::Keyword),
        ("func"@, TokenKind::Keyword),
        ("return"@, TokenKind::Keyword),
        ("match"@, TokenKind::Keyword),
        ("class"@, TokenKind::Keyword),
        ("inherit"@, TokenKind::Keyword),
        ("null"@, TokenKind::Null),
    ]
}

impl TokenKind {
    /// Looks `keyword` up among the reserved words.
    pub fn reserved(keyword: &str) -> (kind: Option<&Self>)
        ensures
            match kind {
                Some(found) => reserved_word(keyword@) == Some(*found),
                None => reserved_word(keyword@) is None,
            },
    {
        if keyword.eq("set") || keyword.eq("const") || keyword.eq("use") || keyword.eq("from")
            || keyword.eq("if") || keyword.eq("else") || keyword.eq("elseif") || keyword.eq("and")
            || keyword.eq("or") || keyword.eq("is") || keyword.eq("in") || keyword.eq("do")
            || keyword.eq("while") || keyword.eq("break") || keyword.eq("for") || keyword.eq("each")
            || keyword.eq("func") || keyword.eq("return") || keyword.eq("match")
            || keyword.eq("class") || keyword.eq("inherit") {
            Some(&TokenKind::Keyword)
        } else if keyword.eq("true") || keyword.eq("false") {
            Some(&TokenKind::Boolean)
        } else if keyword.eq("not") {
            Some(&TokenKind::Not)
        } else if keyword.eq("null") {
            Some(&TokenKind::Null)
        } else {
            None
        }
    }

    /// The reserved words, each with the kind it stands for.
    pub fn reserved_words() -> (words: Vec<(&'static str, TokenKind)>)
        ensures
            words@.len() == reserved_table().len(),
            forall|i: int|
                0 <= i < words@.len() ==> (#[trigger] words@[i]).0@ == reserved_table()[i].0
                    && words@[i].1 == reserved_table()[i].1,
    {
        vec![
            ("set", TokenKind::Keyword),
            ("const", TokenKind::Keyword),
            ("use", TokenKind::Keyword),
            ("from", TokenKind::Keyword),
            ("true", TokenKind::Boolean),
            ("false", TokenKind::Boolean),
            ("if", TokenKind::Keyword),
            ("else", TokenKind::Keyword),
            ("elseif", TokenKind::Keyword),
            ("and", TokenKind::Keyword),
            ("or", TokenKind::Keyword),
            ("not", TokenKind::Not),
            ("is", TokenKind::Keyword),
            ("in", TokenKind::Keyword),
            ("do", TokenKind::Keyword),
            ("while", TokenKind::Keyword),
            ("break", TokenKind::Keyword),
            ("for", TokenKind::Keyword),
            ("each", TokenKind::Keyword),
            ("func", TokenKind::Keyword),
            ("return", TokenKind::Keyword),
            ("match", TokenKind::Keyword),
            ("class", TokenKind::Keyword),
            ("inherit", TokenKind::Keyword),
            ("null", TokenKind::Null),
        ]
    }

    /// The name of the kind, as it is written in messages.
    pub fn name(&self) -> (name: &'static str)
        ensures
            name@ == kind_name(*self),
    {
        match self {
            TokenKind::Keyword => "Keyword",
            TokenKind::Ident => "Ident",
            TokenKind::Number => "Number",
            TokenKind::String => "String",
            TokenKind::Float => "Float",
            TokenKind::Boolean => "Boolean",
            TokenKind::Null => "Null",
            TokenKind::Not => "Not",
            TokenKind::Plus => "Plus",
            TokenKind::Minus => "Minus",
            TokenKind::Star => "Star",
            TokenKind::Slash => "Slash",
            TokenKind::Indent => "Indent",
            TokenKind::Dedent => "Dedent",
            TokenKind::LParen => "LParen",
            TokenKind::RParen => "RParen",
            TokenKind::LBracket => "LBracket",
            TokenKind::RBracket => "RBracket",
            TokenKind::LBrace => "LBrace",
            TokenKind::RBrace => "RBrace",
            TokenKind::Colon => "Colon",
            TokenKind::Comma => "Comma",
            TokenKind::Equal => "Equal",
            TokenKind::Less => "Less",
            TokenKind::Greater => "Greater",
            TokenKind::Dot => "Dot",
            TokenKind::Percent => "Percent",
            TokenKind::Hashtag => "Hashtag",
            TokenKind::EqEqual => "EqEqual",
            TokenKind::BangEqual => "BangEqual",
            TokenKind::LessEqual => "LessEqual",
            TokenKind::GreaterEqual => "GreaterEqual",
            TokenKind::DoublePlus => "DoublePlus",
            TokenKind::DoubleMinus => "DoubleMinus",
            TokenKind::DoubleStar => "DoubleStar",
            TokenKind::DoubleSlash => "DoubleSlash",
            TokenKind::PlusEqual => "PlusEqual",
            TokenKind::MinEqual => "MinEqual",
            TokenKind::StarEqual => "StarEqual",
            TokenKind::SlashEqual => "SlashEqual",
            TokenKind::PercentEqual => "PercentEqual",
            TokenKind::RArrow => "RArrow",
            TokenKind::NewLine => "NewLine",
            TokenKind::Illegal => "Illegal",
            TokenKind::Eof => "Eof",
        }
    }
}

/// The value that a token stands for. Two literals are equal if they are of
/// the same variant and hold the same value.
#[derive(Debug, Eq, Hash)]
pub enum Literal {
    Null,
    Boolean(bool),
    /// A number, held as the numeral that was read.
    Number(String),
    String(String),
}

/// What a `Literal` is, with texts as sequences of characters.
pub enum LiteralView {
    Null,
    Boolean(bool),
    Number(Seq<char>),
    String(Seq<char>),
}

impl View for Literal {
    type V = LiteralView;

    open spec fn view(&self) -> LiteralView {
        match self {
            Literal::Null => LiteralView::Null,
            Literal::Boolean(b) => LiteralView::Boolean(*b),
            Literal::Number(numeral) => LiteralView::Number(numeral@),
            Literal::String(text) => LiteralView::String(text@),
        }
    }
}

impl PartialEq for Literal {
    fn eq(&self, other: &Literal) -> (same: bool) {
        match (self, other) {
            (Literal::Null, Literal::Null) => true,
            (Literal::Boolean(a), Literal::Boolean(b)) => *a == *b,
            (Literal::Number(a), Literal::Number(b)) => a.eq(b),
            (Literal::String(a), Literal::String(b)) => a.eq(b),
            _ => false,
        }
    }
}

impl vstd::std_specs::cmp::PartialEqSpecImpl for Literal {
    open spec fn obeys_eq_spec() -> bool {
        true
    }

    open spec fn eq_spec(&self, other: &Literal) -> bool {
        self@ == other@
    }
}

impl Clone for Literal {
    fn clone(&self) -> (copy: Self)
        ensures
            copy == *self,
    {
        match self {
            Literal::Null => Literal::Null,
            Literal::Boolean(b) => Literal::Boolean(*b),
            Literal::Number(numeral) => Literal::Number(numeral.clone()),
            Literal::String(text) => Literal::String(text.clone()),
        }
    }
}

/// What an optional literal is.
pub open spec fn literal_view(literal: Option<Literal>) -> Option<LiteralView> {
    match literal {
        Some(l) => Some(l@),
        None => None,
    }
}

/// A classified, line-stamped unit of source text. Two tokens are equal if
/// they agree in kind, lexeme, literal and line.
#[derive(Debug, Eq, Hash)]
pub struct Token {
    pub kind: TokenKind,
    pub lexeme: String,
    pub literal: Option<Literal>,
    pub line: u64,
}

/// What a `Token` is, with texts as sequences of characters.
pub struct TokenView {
    pub kind: TokenKind,
    pub lexeme: Seq<char>,
    pub literal: Option<LiteralView>,
    pub line: nat,
}

/// The token that stands where there is none: of kind `Eof`, with an empty
/// lexeme, on line 1.
pub open spec fn sentinel() -> TokenView {
    TokenView { kind: TokenKind::Eof, lexeme: Seq::empty(), literal: None, line: 1 }
}

impl View for Token {
    type V = TokenView;

    open spec fn view(&self) -> TokenView {
        TokenView {
            kind: self.kind,
            lexeme: self.lexeme@,
            literal: literal_view(self.literal),
            line: self.line as nat,
        }
    }
}

impl PartialEq for Token {
    fn eq(&self, other: &Token) -> (same: bool) {
        let literals = match (&self.literal, &other.literal) {
            (Some(a), Some(b)) => a.eq(b),
            (None, None) => true,
            _ => false,
        };
        self.kind == other.kind && self.lexeme.eq(&other.lexeme) && literals && self.line
            == other.line
    }
}

impl vstd::std_specs::cmp::PartialEqSpecImpl for Token {
    open spec fn obeys_eq_spec() -> bool {
        true
    }

    open spec fn eq_spec(&self, other: &Token) -> bool {
        self@ == other@
    }
}

impl Clone for Token {
    fn clone(&self) -> (copy: Self)
        ensures
            copy == *self,
    {
        Token {
            kind: self.kind,
            lexeme: self.lexeme.clone(),
            literal: match &self.literal {
                Some(literal) => Some(literal.clone()),
                None => None,
            },
            line: self.line,
        }
    }
}

impl Default for Token {
    fn default() -> (token: Self)
        ensures
            token@ == sentinel(),
    {
        Token { kind: TokenKind::Eof, lexeme: String::new(), literal: None, line: 1 }
    }
}

impl Token {
    /// Tells whether the token's kind is one of `kinds`.
    pub fn in_types(&self, kinds: &[TokenKind]) -> (found: bool)
        ensures
            found == kinds@.contains(self.kind),
    {
        let mut i: usize = 0;
        while i < kinds.len()
            invariant
                i <= kinds.len(),
                forall|k: int| 0 <= k < i ==> kinds@[k] != self.kind,
            decreases kinds.len() - i,
        {
            if kinds[i] == self.kind {
                return true;
            }
            i += 1;
        }
        false
    }
}

} // verus!
