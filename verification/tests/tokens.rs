use monkey::parser::{CALL, EQUALS, LESS_GREATER, LOWEST, PREFIX, PRODUCT, SUM};
use monkey::repl::Repl;
use monkey::tokens::{Token, TokenType};

#[test]
fn token_new_keeps_kind_and_literal() {
    let tok = Token::new(TokenType::Let, String::from("let"));
    assert_eq!(tok.token_type, TokenType::Let);
    assert_eq!(tok.literal, "let");
    let copy = tok.clone();
    assert_eq!(copy, tok);
}

#[test]
fn precedence_table_orders_binding_power() {
    // Lowest to highest binding power; prefix operators bind tighter than any
    // binary operator.
    assert!(LOWEST < EQUALS);
    assert!(EQUALS < LESS_GREATER);
    assert!(LESS_GREATER < SUM);
    assert!(SUM < PRODUCT);
    assert!(PRODUCT < PREFIX);
    assert!(PREFIX < CALL);
}

#[test]
fn repl_shell_constructs() {
    Repl::new();
}
