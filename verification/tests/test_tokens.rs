use ezcript::tokens::{Literal, Token, TokenKind};

#[test]
fn test_tokens() {
    for (key, value) in TokenKind::reserved_words().iter() {
        let kind: TokenKind = *TokenKind::reserved(key).unwrap();
        assert_eq!(kind, *value);
    }
}

#[test]
fn test_reserved_table_is_complete() {
    let words = TokenKind::reserved_words();
    assert_eq!(words.len(), 25);
    let keywords = [
        "set", "const", "use", "from", "if", "else", "elseif", "and", "or", "is", "in", "do",
        "while", "break", "for", "each", "func", "return", "match", "class", "inherit",
    ];
    for word in keywords.iter() {
        assert_eq!(TokenKind::reserved(word), Some(&TokenKind::Keyword));
        assert!(words.contains(&(*word, TokenKind::Keyword)));
    }
    assert_eq!(TokenKind::reserved("true"), Some(&TokenKind::Boolean));
    assert_eq!(TokenKind::reserved("false"), Some(&TokenKind::Boolean));
    assert_eq!(TokenKind::reserved("null"), Some(&TokenKind::Null));
    assert_eq!(TokenKind::reserved("not"), Some(&TokenKind::Not));
}

#[test]
fn test_reserved_is_case_sensitive_and_exact() {
    assert_eq!(TokenKind::reserved("Set"), None);
    assert_eq!(TokenKind::reserved("SET"), None);
    assert_eq!(TokenKind::reserved("sets"), None);
    assert_eq!(TokenKind::reserved("se"), None);
    assert_eq!(TokenKind::reserved(""), None);
    assert_eq!(TokenKind::reserved("foo"), None);
}

#[test]
fn test_default_token_is_the_sentinel() {
    let token = Token::default();
    assert_eq!(token.kind, TokenKind::Eof);
    assert_eq!(token.lexeme, "");
    assert_eq!(token.literal, None);
    assert_eq!(token.line, 1);
}

#[test]
fn test_in_types() {
    let token = Token {
        kind: TokenKind::Plus,
        lexeme: "+".to_string(),
        literal: None,
        line: 3,
    };
    assert!(token.in_types(&[TokenKind::Minus, TokenKind::Plus]));
    assert!(token.in_types(&[TokenKind::Plus]));
    assert!(!token.in_types(&[TokenKind::Minus, TokenKind::Star]));
    assert!(!token.in_types(&[]));
}

#[test]
fn test_token_clone_keeps_every_field() {
    let token = Token {
        kind: TokenKind::String,
        lexeme: "\"hola\"".to_string(),
        literal: Some(Literal::String("hola".to_string())),
        line: 7,
    };
    assert_eq!(token.clone(), token);
    let number = Literal::Number("3.14".to_string());
    assert_eq!(number.clone(), number);
    assert_eq!(Literal::Boolean(true).clone(), Literal::Boolean(true));
    assert_eq!(Literal::Null.clone(), Literal::Null);
}

#[test]
fn test_kind_names() {
    assert_eq!(TokenKind::Ident.name(), "Ident");
    assert_eq!(TokenKind::Equal.name(), "Equal");
    assert_eq!(TokenKind::Number.name(), "Number");
    assert_eq!(TokenKind::NewLine.name(), "NewLine");
    assert_eq!(TokenKind::Eof.name(), "Eof");
    assert_eq!(TokenKind::GreaterEqual.name(), format!("{:?}", TokenKind::GreaterEqual));
    assert_eq!(TokenKind::RArrow.name(), format!("{:?}", TokenKind::RArrow));
}
