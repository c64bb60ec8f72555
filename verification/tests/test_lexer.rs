use ezcript::lexer::Lexer;
use ezcript::result::EzcriptError;
use ezcript::tokens::{Literal, Token, TokenKind};

fn lex(source: &str) -> Vec<Result<Token, EzcriptError>> {
    let mut lexer = Lexer::new(source);
    let mut out = Vec::new();
    while let Some(result) = lexer.next_token() {
        out.push(result);
    }
    out
}

fn tokens(source: &str) -> Vec<Token> {
    lex(source)
        .into_iter()
        .map(|result| result.expect("a token"))
        .collect()
}

fn kinds(source: &str) -> Vec<TokenKind> {
    tokens(source).iter().map(|token| token.kind).collect()
}

fn plain(kind: TokenKind, lexeme: &str, line: u64) -> Token {
    Token {
        kind,
        lexeme: lexeme.to_string(),
        literal: None,
        line,
    }
}

fn eof(line: u64) -> Token {
    plain(TokenKind::Eof, "\0", line)
}

fn lexical(error: &EzcriptError) -> (u64, String, String) {
    match error {
        EzcriptError::Lexical(line, message, lexeme) => (*line, message.clone(), lexeme.clone()),
        _ => panic!("Must be a lexical error"),
    }
}

#[test]
fn test_punctuation_only() {
    assert_eq!(
        tokens("(){}[]:,%."),
        vec![
            plain(TokenKind::LParen, "(", 1),
            plain(TokenKind::RParen, ")", 1),
            plain(TokenKind::LBrace, "{", 1),
            plain(TokenKind::RBrace, "}", 1),
            plain(TokenKind::LBracket, "[", 1),
            plain(TokenKind::RBracket, "]", 1),
            plain(TokenKind::Colon, ":", 1),
            plain(TokenKind::Comma, ",", 1),
            plain(TokenKind::Percent, "%", 1),
            plain(TokenKind::Dot, ".", 1),
            eof(1),
        ]
    );
}

#[test]
fn test_empty_source_gives_one_eof() {
    let mut lexer = Lexer::new("");
    assert_eq!(lexer.next_token().unwrap().unwrap(), eof(1));
    assert!(lexer.next_token().is_none());
    assert!(lexer.next_token().is_none());
    assert!(lexer.is_finished());
}

#[test]
fn test_exactly_one_eof_is_handed_out() {
    let all = tokens("a b\nc");
    let eofs = all.iter().filter(|token| token.kind == TokenKind::Eof).count();
    assert_eq!(eofs, 1);
    assert_eq!(all.last().unwrap().kind, TokenKind::Eof);
    let mut lexer = Lexer::new("x");
    assert!(!lexer.is_finished());
    assert!(lexer.next_token().is_some());
    assert!(!lexer.is_finished());
    assert!(lexer.next_token().is_some());
    assert!(lexer.is_finished());
    assert!(lexer.next_token().is_none());
}

#[test]
fn test_compound_operators_are_preferred() {
    assert_eq!(
        tokens("++ -- ** // += -= *= /= == != <= >= ->"),
        vec![
            plain(TokenKind::DoublePlus, "++", 1),
            plain(TokenKind::DoubleMinus, "--", 1),
            plain(TokenKind::DoubleStar, "**", 1),
            plain(TokenKind::DoubleSlash, "//", 1),
            plain(TokenKind::PlusEqual, "+=", 1),
            plain(TokenKind::MinEqual, "-=", 1),
            plain(TokenKind::StarEqual, "*=", 1),
            plain(TokenKind::SlashEqual, "/=", 1),
            plain(TokenKind::EqEqual, "==", 1),
            plain(TokenKind::BangEqual, "!=", 1),
            plain(TokenKind::LessEqual, "<=", 1),
            plain(TokenKind::GreaterEqual, ">=", 1),
            plain(TokenKind::RArrow, "->", 1),
            eof(1),
        ]
    );
}

#[test]
fn test_single_operators_are_the_fallback() {
    assert_eq!(
        tokens("+ - * / = ! < >"),
        vec![
            plain(TokenKind::Plus, "+", 1),
            plain(TokenKind::Minus, "-", 1),
            plain(TokenKind::Star, "*", 1),
            plain(TokenKind::Slash, "/", 1),
            plain(TokenKind::Equal, "=", 1),
            plain(TokenKind::Not, "!", 1),
            plain(TokenKind::Less, "<", 1),
            plain(TokenKind::Greater, ">", 1),
            eof(1),
        ]
    );
    assert_eq!(tokens("-"), vec![plain(TokenKind::Minus, "-", 1), eof(1)]);
    assert_eq!(
        kinds("=>"),
        vec![TokenKind::Equal, TokenKind::Greater, TokenKind::Eof]
    );
    assert_eq!(
        kinds("<-"),
        vec![TokenKind::Less, TokenKind::Minus, TokenKind::Eof]
    );
    assert_eq!(
        kinds("+-"),
        vec![TokenKind::Plus, TokenKind::Minus, TokenKind::Eof]
    );
    assert_eq!(
        kinds("==="),
        vec![TokenKind::EqEqual, TokenKind::Equal, TokenKind::Eof]
    );
    assert_eq!(
        kinds("+++"),
        vec![TokenKind::DoublePlus, TokenKind::Plus, TokenKind::Eof]
    );
}

#[test]
fn test_minus_before_a_number() {
    let all = tokens("-5");
    assert_eq!(all.len(), 3);
    assert_eq!(all[0], plain(TokenKind::Minus, "-", 1));
    assert_eq!(all[1].kind, TokenKind::Number);
    assert_eq!(all[1].lexeme, "5");
    assert_eq!(all[2], eof(1));
}

#[test]
fn test_string_literal() {
    let all = tokens("\"hola\"");
    assert_eq!(all.len(), 2);
    assert_eq!(
        all[0],
        Token {
            kind: TokenKind::String,
            lexeme: "\"hola\"".to_string(),
            literal: Some(Literal::String("hola".to_string())),
            line: 1,
        }
    );
    assert_eq!(all[1], eof(1));
}

#[test]
fn test_single_quoted_and_empty_strings() {
    let all = tokens("'hola' \"\" ''");
    assert_eq!(all[0].literal, Some(Literal::String("hola".to_string())));
    assert_eq!(all[0].lexeme, "'hola'");
    assert_eq!(all[1].literal, Some(Literal::String("".to_string())));
    assert_eq!(all[1].lexeme, "\"\"");
    assert_eq!(all[2].literal, Some(Literal::String("".to_string())));
    assert_eq!(all[3].kind, TokenKind::Eof);
}

#[test]
fn test_string_is_closed_by_the_quote_that_opened_it() {
    let all = tokens("\"it's\" 'say \"hi\"'");
    assert_eq!(all.len(), 3);
    assert_eq!(all[0].literal, Some(Literal::String("it's".to_string())));
    assert_eq!(all[1].literal, Some(Literal::String("say \"hi\"".to_string())));
}

#[test]
fn test_unterminated_string() {
    let all = lex("\"unterminated");
    assert_eq!(all.len(), 2);
    assert_eq!(
        lexical(all[0].as_ref().unwrap_err()),
        (
            1,
            "unterminated string".to_string(),
            "\"unterminated".to_string()
        )
    );
    assert_eq!(*all[1].as_ref().unwrap(), eof(1));
    assert_eq!(
        all[0].as_ref().unwrap_err().to_string(),
        "Lexical Error [line 1] unterminated string: \"unterminated"
    );
}

#[test]
fn test_unterminated_string_counts_its_lines() {
    let all = lex("'a\nb\nc");
    assert_eq!(
        lexical(all[0].as_ref().unwrap_err()),
        (3, "unterminated string".to_string(), "'a\nb\nc".to_string())
    );
    assert_eq!(*all[1].as_ref().unwrap(), eof(3));
}

#[test]
fn test_escaped_quote_in_a_string() {
    let all = tokens("\"a\\\"b\" x");
    assert_eq!(all[0].kind, TokenKind::String);
    assert_eq!(all[0].lexeme, "\"a\"b\"");
    assert_eq!(all[0].literal, Some(Literal::String("a\"b".to_string())));
    assert_eq!(all[1], plain(TokenKind::Ident, "x", 1));
    let all = tokens("'\\''");
    assert_eq!(all[0].literal, Some(Literal::String("'".to_string())));
    assert_eq!(all[0].lexeme, "'''");
}

#[test]
fn test_other_backslashes_stay_in_a_string() {
    let all = tokens("\"a\\nb\\\\c\\'d\"");
    assert_eq!(
        all[0].literal,
        Some(Literal::String("a\\nb\\\\c\\'d".to_string()))
    );
}

#[test]
fn test_backslash_before_the_closing_quote_escapes_it() {
    let all = lex("\"a\\\\\"");
    assert_eq!(all.len(), 2);
    assert_eq!(
        lexical(all[0].as_ref().unwrap_err()),
        (1, "unterminated string".to_string(), "\"a\\\"".to_string())
    );
}

#[test]
fn test_string_with_newlines_counts_lines() {
    let all = tokens("\"a\nb\nc\" x\ny");
    assert_eq!(
        all[0],
        Token {
            kind: TokenKind::String,
            lexeme: "\"a\nb\nc\"".to_string(),
            literal: Some(Literal::String("a\nb\nc".to_string())),
            line: 3,
        }
    );
    assert_eq!(all[1], plain(TokenKind::Ident, "x", 3));
    assert_eq!(all[2], plain(TokenKind::NewLine, "", 4));
    assert_eq!(all[3], plain(TokenKind::Ident, "y", 4));
    assert_eq!(all[4], eof(4));
}

#[test]
fn test_string_with_characters_beyond_ascii() {
    let all = tokens("\"año ñ\" 'é'");
    assert_eq!(all[0].literal, Some(Literal::String("año ñ".to_string())));
    assert_eq!(all[0].lexeme, "\"año ñ\"");
    assert_eq!(all[1].literal, Some(Literal::String("é".to_string())));
}

fn number_value(token: &Token) -> f64 {
    assert_eq!(token.kind, TokenKind::Number);
    match &token.literal {
        Some(Literal::Number(numeral)) => {
            assert_eq!(*numeral, token.lexeme);
            numeral.parse::<f64>().unwrap()
        }
        _ => panic!("Must be a number"),
    }
}

#[test]
fn test_numbers() {
    let all = tokens("42");
    assert_eq!(all.len(), 2);
    assert_eq!(number_value(&all[0]), 42.0);
    assert_eq!(all[0].literal, Some(Literal::Number("42".to_string())));
    assert_eq!(all[0].lexeme, "42");

    let all = tokens("3.14");
    assert_eq!(all.len(), 2);
    assert_eq!(number_value(&all[0]), 3.14);
    assert_eq!(all[0].lexeme, "3.14");
}

#[test]
fn test_number_before_a_dot_without_digits() {
    let all = tokens("3.");
    assert_eq!(all.len(), 3);
    assert_eq!(number_value(&all[0]), 3.0);
    assert_eq!(all[0].lexeme, "3");
    assert_eq!(all[1], plain(TokenKind::Dot, ".", 1));
    assert_eq!(all[2], eof(1));
}

#[test]
fn test_number_edges() {
    let all = tokens("1.2.3");
    assert_eq!(all[0].lexeme, "1.2");
    assert_eq!(all[1].kind, TokenKind::Dot);
    assert_eq!(all[2].lexeme, "3");
    let all = tokens("007 0.50 12abc .5");
    assert_eq!(all[0].lexeme, "007");
    assert_eq!(number_value(&all[0]), 7.0);
    assert_eq!(all[1].lexeme, "0.50");
    assert_eq!(number_value(&all[1]), 0.5);
    assert_eq!(all[2].lexeme, "12");
    assert_eq!(all[3], plain(TokenKind::Ident, "abc", 1));
    assert_eq!(all[4].kind, TokenKind::Dot);
    assert_eq!(all[5].lexeme, "5");
    let all = tokens("3.x");
    assert_eq!(all[0].lexeme, "3");
    assert_eq!(all[1].kind, TokenKind::Dot);
    assert_eq!(all[2], plain(TokenKind::Ident, "x", 1));
}

#[test]
fn test_reserved_words_lex_to_their_kinds() {
    for (word, kind) in TokenKind::reserved_words().iter() {
        let all = tokens(word);
        assert_eq!(all.len(), 2);
        assert_eq!(all[0].kind, *kind);
        assert_eq!(all[0].lexeme, *word);
        assert_eq!(all[0].line, 1);
    }
}

#[test]
fn test_literals_of_reserved_words() {
    let all = tokens("true false null not set");
    assert_eq!(all[0].kind, TokenKind::Boolean);
    assert_eq!(all[0].literal, Some(Literal::Boolean(true)));
    assert_eq!(all[1].kind, TokenKind::Boolean);
    assert_eq!(all[1].literal, Some(Literal::Boolean(false)));
    assert_eq!(all[2].kind, TokenKind::Null);
    assert_eq!(all[2].literal, Some(Literal::Null));
    assert_eq!(all[3], plain(TokenKind::Not, "not", 1));
    assert_eq!(all[4], plain(TokenKind::Keyword, "set", 1));
}

#[test]
fn test_identifiers() {
    assert_eq!(
        tokens("foo _bar $baz x1 setx True a_b$c9"),
        vec![
            plain(TokenKind::Ident, "foo", 1),
            plain(TokenKind::Ident, "_bar", 1),
            plain(TokenKind::Ident, "$baz", 1),
            plain(TokenKind::Ident, "x1", 1),
            plain(TokenKind::Ident, "setx", 1),
            plain(TokenKind::Ident, "True", 1),
            plain(TokenKind::Ident, "a_b$c9", 1),
            eof(1),
        ]
    );
}

#[test]
fn test_newlines_are_tokens_and_count_lines() {
    assert_eq!(
        tokens("a\nb\n\nc"),
        vec![
            plain(TokenKind::Ident, "a", 1),
            plain(TokenKind::NewLine, "", 2),
            plain(TokenKind::Ident, "b", 2),
            plain(TokenKind::NewLine, "", 3),
            plain(TokenKind::NewLine, "", 4),
            plain(TokenKind::Ident, "c", 4),
            eof(4),
        ]
    );
}

#[test]
fn test_whitespace_is_discarded() {
    assert_eq!(
        tokens(" \t a \r\u{b}\u{c} b\u{a0}\u{2003}c  "),
        vec![
            plain(TokenKind::Ident, "a", 1),
            plain(TokenKind::Ident, "b", 1),
            plain(TokenKind::Ident, "c", 1),
            eof(1),
        ]
    );
}

#[test]
fn test_line_comment() {
    assert_eq!(
        tokens("a # comment ## more\nb # last"),
        vec![
            plain(TokenKind::Ident, "a", 1),
            plain(TokenKind::NewLine, "", 2),
            plain(TokenKind::Ident, "b", 2),
            eof(2),
        ]
    );
    assert_eq!(tokens("#"), vec![eof(1)]);
    assert_eq!(tokens("# only"), vec![eof(1)]);
}

#[test]
fn test_block_comment() {
    assert_eq!(
        tokens("a #* one\ntwo\nthree *# b"),
        vec![
            plain(TokenKind::Ident, "a", 1),
            plain(TokenKind::Ident, "b", 3),
            eof(3),
        ]
    );
    assert_eq!(
        tokens("#* c *#\nx"),
        vec![
            plain(TokenKind::NewLine, "", 2),
            plain(TokenKind::Ident, "x", 2),
            eof(2),
        ]
    );
    assert_eq!(tokens("#* c *#"), vec![eof(1)]);
    assert_eq!(tokens("#**#x"), vec![plain(TokenKind::Ident, "x", 1), eof(1)]);
    assert_eq!(tokens("#* # * # *#x"), vec![plain(TokenKind::Ident, "x", 1), eof(1)]);
}

#[test]
fn test_block_comment_needs_a_star_of_its_body() {
    assert_eq!(tokens("#*# x"), vec![eof(1)]);
    assert_eq!(tokens("#*#\n*#x"), vec![plain(TokenKind::Ident, "x", 2), eof(2)]);
}

#[test]
fn test_unterminated_block_comment_runs_to_the_end() {
    assert_eq!(tokens("a #* never\nclosed"), vec![plain(TokenKind::Ident, "a", 1), eof(2)]);
}

#[test]
fn test_unexpected_character() {
    let all = lex("a @ b");
    assert_eq!(all.len(), 4);
    assert_eq!(*all[0].as_ref().unwrap(), plain(TokenKind::Ident, "a", 1));
    assert_eq!(
        lexical(all[1].as_ref().unwrap_err()),
        (1, "unexpected character".to_string(), "@".to_string())
    );
    assert_eq!(*all[2].as_ref().unwrap(), plain(TokenKind::Ident, "b", 1));
    assert_eq!(*all[3].as_ref().unwrap(), eof(1));
    let all = lex("\n\nñ");
    assert_eq!(
        lexical(all[2].as_ref().unwrap_err()),
        (3, "unexpected character".to_string(), "ñ".to_string())
    );
    assert_eq!(
        all[2].as_ref().unwrap_err().to_string(),
        "Lexical Error [line 3] unexpected character: ñ"
    );
}

#[test]
fn test_nul_character_ends_the_stream() {
    assert_eq!(tokens("a\0b"), vec![plain(TokenKind::Ident, "a", 1), eof(1)]);
}

#[test]
fn test_set_line() {
    let all = tokens("set x = 5\n");
    assert_eq!(all[0], plain(TokenKind::Keyword, "set", 1));
    assert_eq!(all[1], plain(TokenKind::Ident, "x", 1));
    assert_eq!(all[2], plain(TokenKind::Equal, "=", 1));
    assert_eq!(
        all[3],
        Token {
            kind: TokenKind::Number,
            lexeme: "5".to_string(),
            literal: Some(Literal::Number("5".to_string())),
            line: 1,
        }
    );
    assert_eq!(all[4], plain(TokenKind::NewLine, "", 2));
    assert_eq!(all[5], eof(2));
    assert_eq!(all.len(), 6);
}

#[test]
fn test_lexing_is_deterministic_and_clones_go_their_own_way() {
    let source = "set x = \"a\"\n#* c *# return 3.5 @";
    assert_eq!(format!("{:?}", lex(source)), format!("{:?}", lex(source)));
    let mut lexer = Lexer::new("a b");
    let mut copy = lexer.clone();
    assert_eq!(lexer.next_token().unwrap().unwrap().lexeme, "a");
    assert_eq!(lexer.next_token().unwrap().unwrap().lexeme, "b");
    assert_eq!(copy.next_token().unwrap().unwrap().lexeme, "a");
}
