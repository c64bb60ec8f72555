use ezcript::ast::{ASTNode, Program};
use ezcript::lexer::Lexer;
use ezcript::parser::Parser;
use ezcript::result::EzcriptError;
use ezcript::statements::{ReturnStatement, SetStatement, Statements};
use ezcript::tokens::TokenKind;
use ezcript::utils::is_instance;

fn parse(source: &str) -> (Program, Parser) {
    let lexer: Lexer = Lexer::new(source);
    let mut parser: Parser = Parser::new(lexer);
    let program = parser.parse_program().unwrap();
    (program, parser)
}

fn names(program: &Program) -> Vec<String> {
    let mut names = Vec::new();
    for statement in program.statements.iter() {
        if let Statements::SetStatement(statement) = statement {
            names.push(statement.name.as_ref().unwrap().value.clone());
        }
    }
    names
}

#[test]
fn test_parse_program() {
    let source: &str = "set x = 5\n";
    let lexer: Lexer = Lexer::new(source);
    let mut parser: Parser = Parser::new(lexer);

    let program: Option<Program> = parser.parse_program();

    match program.as_ref() {
        Some(_) => (),
        None => panic!("The value cannot be None"),
    }
    assert!(is_instance(&program, Some(Program::new(Vec::new()))));
}

#[test]
fn test_let_statements() {
    let source: &str = "
            set x = 5
            set y = 10
            set foo = 20
        ";
    let lexer: Lexer = Lexer::new(source);
    let mut parser: Parser = Parser::new(lexer);

    let program: Option<Program> = parser.parse_program();

    match program.as_ref() {
        Some(_) => (),
        None => panic!("The value cannot be None"),
    }

    let program = program.unwrap();

    assert_eq!(program.statements.len(), 3);

    for statement in program.statements.clone() {
        match statement {
            Statements::SetStatement(statement) => {
                assert_eq!(statement.token_lexeme(), "set");
                assert!(is_instance(&Some(statement), Some(SetStatement::default())));
            }
            _ => continue,
        }
    }
}

#[test]
fn test_variable_name() {
    let source: &str = "set string = \"hola\"
            set num = 5
            set bool = true
        ";
    let lexer: Lexer = Lexer::new(source);
    let mut parser: Parser = Parser::new(lexer);

    let program: Option<Program> = parser.parse_program();
    match program.as_ref() {
        Some(_) => (),
        None => panic!("The value cannot be None"),
    }

    let program = program.unwrap();

    let mut statements_name: Vec<String> = Vec::new();

    for statement in program.statements.clone() {
        match statement {
            Statements::SetStatement(ref statement) => {
                assert!(is_instance(&Some(statement.clone()), Some(SetStatement::default())));
                match statement.name {
                    Some(_) => (),
                    None => panic!("The value cannot be None"),
                }
                statements_name.push(statement.name.as_ref().unwrap().value.clone());
            }
            _ => continue,
        }
    }
    let expected_names: Vec<String> =
        vec!["string".to_string(), "num".to_string(), "bool".to_string()];
    assert_eq!(statements_name, expected_names);
}

#[test]
fn test_parse_errors() {
    let source: &str = "set x 5\n";
    let lexer: Lexer = Lexer::new(source);
    let mut parser: Parser = Parser::new(lexer);

    let _program: Option<Program> = parser.parse_program();
    println!("{:?}", parser.errors());

    assert_eq!(parser.errors().len(), 1);
}

#[test]
fn test_return_statement() {
    let source: &str = "
            return 5
            return foo
        ";
    let lexer: Lexer = Lexer::new(source);
    let mut parser: Parser = Parser::new(lexer);

    let program: Option<Program> = parser.parse_program();
    match program.as_ref() {
        Some(_) => (),
        None => panic!("The value cannot be None"),
    }

    let program = program.unwrap();

    assert_eq!(program.statements.len(), 2);

    for statement in program.statements.clone() {
        match statement {
            Statements::ReturnStatement(statement) => {
                assert_eq!(statement.token_lexeme(), "return");
                assert!(is_instance(&Some(statement), Some(ReturnStatement::default())));
            }
            _ => continue,
        }
    }
}

#[test]
fn test_single_set_statement() {
    let (program, parser) = parse("set x = 5\n");
    assert_eq!(program.statements.len(), 1);
    match &program.statements[0] {
        Statements::SetStatement(statement) => {
            assert_eq!(statement.name.as_ref().unwrap().value, "x");
            assert_eq!(statement.name.as_ref().unwrap().token.kind, TokenKind::Ident);
            assert_eq!(statement.name.as_ref().unwrap().token.lexeme, "x");
            assert_eq!(statement.token.lexeme, "set");
            assert_eq!(statement.token.kind, TokenKind::Keyword);
            assert_eq!(statement.token_lexeme(), "set");
            assert_eq!(statement.value, None);
            assert_eq!(statement.line, 1);
        }
        _ => panic!("Must be a set statement"),
    }
    assert_eq!(parser.errors().len(), 0);
    assert_eq!(program.to_string(), "set x = set");
}

#[test]
fn test_missing_equal_records_one_error() {
    let (program, parser) = parse("set x 5\n");
    assert_eq!(program.statements.len(), 0);
    assert_eq!(parser.errors().len(), 1);
    match &parser.errors()[0] {
        EzcriptError::Parse(line, message, lexeme) => {
            assert_eq!(*line, 1);
            assert_eq!(
                message,
                "The following token should be of type 'Equal'. But got 'Number'"
            );
            assert_eq!(lexeme, "x");
        }
        _ => panic!("Must be a parse error"),
    }
    assert_eq!(
        parser.errors()[0].to_string(),
        "Parse Error [line 1] The following token should be of type 'Equal'. But got 'Number': near x"
    );
}

#[test]
fn test_missing_name_records_one_error() {
    let (program, parser) = parse("set = 5\nset y = 1\n");
    assert_eq!(names(&program), vec!["y".to_string()]);
    assert_eq!(parser.errors().len(), 1);
    match &parser.errors()[0] {
        EzcriptError::Parse(line, message, lexeme) => {
            assert_eq!(*line, 1);
            assert_eq!(
                message,
                "The following token should be of type 'Ident'. But got 'Equal'"
            );
            assert_eq!(lexeme, "set");
        }
        _ => panic!("Must be a parse error"),
    }
}

#[test]
fn test_three_set_lines_in_source_order() {
    let (program, parser) = parse("set x = 5\nset y = 10\nset foo = 20\n");
    assert_eq!(program.statements.len(), 3);
    assert_eq!(
        names(&program),
        vec!["x".to_string(), "y".to_string(), "foo".to_string()]
    );
    let mut lines = Vec::new();
    for statement in program.statements.iter() {
        match statement {
            Statements::SetStatement(statement) => lines.push(statement.line),
            _ => panic!("Must be a set statement"),
        }
    }
    assert_eq!(lines, vec![1, 2, 3]);
    assert_eq!(parser.errors().len(), 0);
}

#[test]
fn test_parsing_is_deterministic() {
    let source = "set x = 5\nreturn x\nset 3\nset y = \"a\"\n";
    let (first, first_parser) = parse(source);
    let (second, second_parser) = parse(source);
    assert_eq!(first, second);
    assert_eq!(first.statements.len(), 3);
    assert_eq!(names(&first), names(&second));
    assert_eq!(first_parser.errors().len(), second_parser.errors().len());
    assert_eq!(first_parser.errors().len(), 1);
}

#[test]
fn test_other_tokens_give_no_statement() {
    let (program, parser) = parse("foobar\n");
    assert_eq!(program.statements.len(), 0);
    assert_eq!(parser.errors().len(), 0);
    let (program, parser) = parse("5 + 5\nif else\n");
    assert_eq!(program.statements.len(), 0);
    assert_eq!(parser.errors().len(), 0);
}

#[test]
fn test_empty_source() {
    let (program, parser) = parse("");
    assert_eq!(program.statements.len(), 0);
    assert_eq!(parser.errors().len(), 0);
    assert_eq!(program.to_string(), "");
}

#[test]
fn test_statement_without_a_final_newline() {
    let (program, parser) = parse("set x = 5");
    assert_eq!(names(&program), vec!["x".to_string()]);
    assert_eq!(parser.errors().len(), 0);
    let (program, _) = parse("return 5");
    assert_eq!(program.statements.len(), 1);
    let (program, _) = parse("set x =");
    assert_eq!(names(&program), vec!["x".to_string()]);
}

#[test]
fn test_value_is_discarded_up_to_the_newline() {
    let (program, parser) = parse("set x = 1 + 2 * (3 - y)\nreturn a.b(c)\n");
    assert_eq!(program.statements.len(), 2);
    assert_eq!(parser.errors().len(), 0);
    match &program.statements[0] {
        Statements::SetStatement(statement) => assert_eq!(statement.value, None),
        _ => panic!("Must be a set statement"),
    }
    assert_eq!(program.to_string(), "set x = setreturn return");
}

#[test]
fn test_lexical_error_inside_a_value_is_passed_over() {
    let (program, parser) = parse("set x = @\nset y = 1\n");
    assert_eq!(names(&program), vec!["x".to_string(), "y".to_string()]);
    assert_eq!(parser.errors().len(), 0);
}

#[test]
fn test_lexical_error_between_statements_ends_the_program() {
    let (program, parser) = parse("set x = 1\n@\nset y = 1\n");
    assert_eq!(names(&program), vec!["x".to_string()]);
    assert_eq!(parser.errors().len(), 0);
}

#[test]
fn test_keyword_must_be_of_kind_keyword() {
    let (program, _) = parse("\"set\" x = 5\n");
    assert_eq!(program.statements.len(), 0);
}

#[test]
fn test_errors_keep_their_order() {
    let (program, parser) = parse("set 1\nset a b\nset c = 2\n");
    assert_eq!(names(&program), vec!["c".to_string()]);
    assert_eq!(parser.errors().len(), 2);
    match (&parser.errors()[0], &parser.errors()[1]) {
        (EzcriptError::Parse(first, _, first_near), EzcriptError::Parse(second, _, second_near)) => {
            assert_eq!((*first, first_near.as_str()), (1, "set"));
            assert_eq!((*second, second_near.as_str()), (2, "a"));
        }
        _ => panic!("Must be parse errors"),
    }
}
