use monkey::ast::{Expression, Node, Statement};
use monkey::lexer::Lexer;
use monkey::parser::Parser;

fn check_parser_errors(p: &Parser) -> Result<(), ()> {
    let errors = p.errors();

    if errors.len() == 0 {
        return Ok(());
    }

    println!("parser has {} errors", errors.len());

    for msg in errors {
        println!("parser error: {}", msg);
    }
    Err(())
}

#[test]
fn parser_test_let_statements() -> Result<(), ()> {
    let input = String::from(
        "let x = 5;
		let y = 10;
		let foobar = 838383;",
    );

    let lexer = Lexer::new(input);

    let mut parser = Parser::new(lexer);

    let program = parser.parse_program();

    check_parser_errors(&parser)?;

    if program.statements.len() != 3 {
        println!(
            "program.statements does not contain 3 statements. got={}",
            program.statements.len()
        );
        return Err(());
    }

    let tests = vec!["x", "y", "foobar"];

    fn test_let_statement(s: &Statement, name: &str) -> bool {
        if s.token_literal() != "let" {
            println!("s.token_literal not 'let'. got={}", s.token_literal());
            return false;
        }

        let let_stmt = match s {
            Statement::Let(stmt) => stmt,
            _ => {
                println!("s is not LetStatement. got={}", s.token_literal());
                return false;
            }
        };

        if let_stmt.name.value != name {
            println!(
                "let_stmt.name.value not '{}'. got={}",
                name, let_stmt.name.value
            );
            return false;
        }

        true
    }

    for (i, tt) in tests.iter().enumerate() {
        let stmt = &program.statements[i];

        if !test_let_statement(stmt, tt) {
            return Err(());
        }
    }

    Ok(())
}

#[test]
fn parser_test_return_statements() -> Result<(), ()> {
    let input = String::from(
        "return 5;
			return 10;
			return 993322;",
    );

    let lexer = Lexer::new(input);
    let mut parser = Parser::new(lexer);
    let program = parser.parse_program();

    check_parser_errors(&parser)?;

    if program.statements.len() != 3 {
        println!(
            "program.statements does not contain 3 statements. got={}",
            program.statements.len()
        );
        return Err(());
    }

    for (_, stmt) in program.statements.iter().enumerate() {
        if !matches!(stmt, Statement::Return(_)) {
            println!("stmt not ReturnStatement. got={}", stmt.token_literal());
            return Err(());
        }

        if stmt.token_literal() != "return" {
            println!("s.token_literal not 'return'. got={}", stmt.token_literal());
            return Err(());
        }
    }

    Ok(())
}

#[test]
fn parser_test_identifier_expression() -> Result<(), ()> {
    let input = String::from("foobar");

    let lexer = Lexer::new(input);
    let mut parser = Parser::new(lexer);
    let program = parser.parse_program();
    let _ = check_parser_errors(&parser);

    if program.statements.len() != 1 {
        println!(
            "Program doesn't have enough statements. Got {}",
            program.statements.len()
        );
        return Err(());
    }

    let stmt = match &program.statements[0] {
        Statement::Expression(stmt) => stmt,
        _ => {
            println!("Statement not ast expression");
            return Err(());
        }
    };

    let expr = stmt.expression.as_ref().unwrap();

    let ident = match expr {
        Expression::Identifier(ident) => ident,
        _ => {
            println!("Statement not ast identifier");
            return Err(());
        }
    };

    if ident.value != String::from("foobar") {
        println!("ident.value is not {}. Got {}", "foobar", ident.value);
        return Err(());
    }

    if ident.token_literal() != String::from("foobar") {
        println!(
            "ident.token_literal is not {}. Got: {}",
            "foobar",
            ident.token_literal()
        );
        return Err(());
    }

    Ok(())
}

#[test]
fn parse_literal() -> Result<(), ()> {
    let input = String::from("5;");

    let lexer = Lexer::new(input);
    let mut parser = Parser::new(lexer);
    let program = parser.parse_program();
    let _ = check_parser_errors(&parser);

    if program.statements.len() != 1 {
        println!(
            "program doesn't have enough statements, got: {}",
            program.statements.len()
        );
        return Err(());
    }

    match &program.statements[0] {
        Statement::Expression(_) => {}
        _ => {
            println!("Statement is not ast ExpressionStatement");
            return Err(());
        }
    };

    Ok(())
}

#[test]
fn let_statement_round_trips_to_source() {
    // A program built purely from let/identifier constructs renders back
    // byte-for-byte.
    let input = "let my_var = another_var;";
    let lexer = Lexer::new(String::from(input));
    let mut parser = Parser::new(lexer);
    let program = parser.parse_program();
    assert_eq!(parser.errors().len(), 0);
    assert_eq!(program.statements.len(), 1);
    assert_eq!(program.string(), input);
}

#[test]
fn two_structural_mistakes_accumulate_two_errors() {
    // Two independent malformed let statements: each records exactly one
    // mismatch, and parse_program still returns a Program.
    let input = String::from("let x 5; let y 10;");
    let lexer = Lexer::new(input);
    let mut parser = Parser::new(lexer);
    let program = parser.parse_program();
    assert_eq!(parser.errors().len(), 2);
    assert_eq!(
        parser.errors()[0],
        "expected next token to be Assign, got Int instead"
    );
    assert_eq!(
        parser.errors()[1],
        "expected next token to be Assign, got Int instead"
    );
    // The parse reached Eof and kept what it could build: the two stray
    // integers became expression statements.
    assert_eq!(program.statements.len(), 2);
}

#[test]
fn missing_identifier_after_let_is_reported() {
    let input = String::from("let = 5;");
    let lexer = Lexer::new(input);
    let mut parser = Parser::new(lexer);
    let _program = parser.parse_program();
    assert_eq!(
        parser.errors()[0],
        "expected next token to be Ident, got Assign instead"
    );
}

#[test]
fn unhandled_token_reports_missing_prefix_handler() {
    let input = String::from("+");
    let lexer = Lexer::new(input);
    let mut parser = Parser::new(lexer);
    let program = parser.parse_program();
    assert_eq!(program.statements.len(), 1);
    match &program.statements[0] {
        Statement::Expression(es) => assert!(es.expression.is_none()),
        _ => panic!("expected an expression statement"),
    }
    assert_eq!(
        parser.errors()[0],
        "no prefix parse function for Plus found"
    );
}

#[test]
fn oversized_integer_literal_is_reported() {
    let input = String::from("92233720368547758079;");
    let lexer = Lexer::new(input);
    let mut parser = Parser::new(lexer);
    let program = parser.parse_program();
    assert_eq!(program.statements.len(), 1);
    match &program.statements[0] {
        Statement::Expression(es) => assert!(es.expression.is_none()),
        _ => panic!("expected an expression statement"),
    }
    assert_eq!(
        parser.errors()[0],
        "could not parse 92233720368547758079 as integer"
    );
}

#[test]
fn largest_integer_literal_parses() {
    let input = String::from("9223372036854775807;");
    let lexer = Lexer::new(input);
    let mut parser = Parser::new(lexer);
    let program = parser.parse_program();
    assert_eq!(parser.errors().len(), 0);
    match &program.statements[0] {
        Statement::Expression(es) => match es.expression.as_ref().unwrap() {
            Expression::IntegerLiteral(il) => assert_eq!(il.value, i64::MAX),
            _ => panic!("expected an integer literal"),
        },
        _ => panic!("expected an expression statement"),
    }
}

#[test]
fn empty_input_parses_to_empty_program() {
    let lexer = Lexer::new(String::new());
    let mut parser = Parser::new(lexer);
    let program = parser.parse_program();
    assert_eq!(program.statements.len(), 0);
    assert_eq!(parser.errors().len(), 0);
    assert_eq!(program.string(), "");
}
