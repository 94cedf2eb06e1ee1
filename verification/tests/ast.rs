use monkey::ast::{Expression, Identifier, LetStatement, Node, Program, Statement};
use monkey::tokens::{Token, TokenType};

#[test]
fn test_string() -> Result<(), ()> {
    let mut program = Program { statements: Vec::new() };

    let let_statement = LetStatement {
        token: Token { token_type: TokenType::Let, literal: "let".into() },
        name: Identifier {
            token: Token { token_type: TokenType::Ident, literal: "my_var".into() },
            value: "my_var".into(),
        },
        value: Some(Expression::Identifier(Identifier {
            token: Token { token_type: TokenType::Ident, literal: "another_var".into() },
            value: "another_var".into(),
        })),
    };

    program.statements.push(Statement::Let(let_statement));

    let test = "let my_var = another_var;";

    if program.string() != test {
        println!("expected={} got={}", test, program.string());
        return Err(());
    }

    Ok(())
}

#[test]
fn empty_program_renders_empty() {
    let program = Program { statements: Vec::new() };
    assert_eq!(program.string(), "");
    assert_eq!(program.token_literal(), "");
}

#[test]
fn program_token_literal_is_first_statement() {
    let mut program = Program { statements: Vec::new() };
    program.statements.push(Statement::Let(LetStatement {
        token: Token { token_type: TokenType::Let, literal: "let".into() },
        name: Identifier {
            token: Token { token_type: TokenType::Ident, literal: "a".into() },
            value: "a".into(),
        },
        value: None,
    }));
    assert_eq!(program.token_literal(), "let");
    // An absent value renders as the bare `=` followed directly by `;`.
    assert_eq!(program.string(), "let a = ;");
}
