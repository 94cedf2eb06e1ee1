use monkey::lexer::Lexer;
use monkey::tokens::TokenType;

#[test]
fn get_next_token() -> Result<(), ()> {
    let input = String::from(
        "let five = 5;
        let ten = 10;
        let add = fn(x, y) {
            x + y;
        };
        let result = add(five, ten);
        !-/*5;
        5 < 10 > 5;

        if (5 < 10) {
            return true;
        } else {
            return false;
        }

        10 == 10;
        10 != 9;
        ",
    );

    let mut lexer = Lexer::new(input);

    let tests = vec![
        (TokenType::Let, "let"),
        (TokenType::Ident, "five"),
        (TokenType::Assign, "="),
        (TokenType::Int, "5"),
        (TokenType::Semicolon, ";"),
        (TokenType::Let, "let"),
        (TokenType::Ident, "ten"),
        (TokenType::Assign, "="),
        (TokenType::Int, "10"),
        (TokenType::Semicolon, ";"),
        (TokenType::Let, "let"),
        (TokenType::Ident, "add"),
        (TokenType::Assign, "="),
        (TokenType::Function, "fn"),
        (TokenType::LParen, "("),
        (TokenType::Ident, "x"),
        (TokenType::Comma, ","),
        (TokenType::Ident, "y"),
        (TokenType::RParen, ")"),
        (TokenType::LBrace, "{"),
        (TokenType::Ident, "x"),
        (TokenType::Plus, "+"),
        (TokenType::Ident, "y"),
        (TokenType::Semicolon, ";"),
        (TokenType::RBrace, "}"),
        (TokenType::Semicolon, ";"),
        (TokenType::Let, "let"),
        (TokenType::Ident, "result"),
        (TokenType::Assign, "="),
        (TokenType::Ident, "add"),
        (TokenType::LParen, "("),
        (TokenType::Ident, "five"),
        (TokenType::Comma, ","),
        (TokenType::Ident, "ten"),
        (TokenType::RParen, ")"),
    ];

    for (_, expected) in tests.iter().enumerate() {
        let tok = lexer.next_token();
        println!("expected: {:?}, got: {:?}", expected, tok);
        if tok.token_type != expected.0 {
            return Err(());
        }

        if tok.literal != expected.1 {
            return Err(());
        }
    }

    Ok(())
}

#[test]
fn remaining_operators_and_keywords() {
    let input = String::from("!-/*5;\n5 < 10 > 5;\nif (true) { return false; } else {}\n10 == 10;\n10 != 9;");
    let mut lexer = Lexer::new(input);
    let expected = vec![
        (TokenType::Bang, "!"),
        (TokenType::Minus, "-"),
        (TokenType::Slash, "/"),
        (TokenType::Asterisk, "*"),
        (TokenType::Int, "5"),
        (TokenType::Semicolon, ";"),
        (TokenType::Int, "5"),
        (TokenType::LessThan, "<"),
        (TokenType::Int, "10"),
        (TokenType::GreaterThan, ">"),
        (TokenType::Int, "5"),
        (TokenType::Semicolon, ";"),
        (TokenType::If, "if"),
        (TokenType::LParen, "("),
        (TokenType::True, "true"),
        (TokenType::RParen, ")"),
        (TokenType::LBrace, "{"),
        (TokenType::Return, "return"),
        (TokenType::False, "false"),
        (TokenType::Semicolon, ";"),
        (TokenType::RBrace, "}"),
        (TokenType::Else, "else"),
        (TokenType::LBrace, "{"),
        (TokenType::RBrace, "}"),
        (TokenType::Int, "10"),
        (TokenType::Equal, "=="),
        (TokenType::Int, "10"),
        (TokenType::Semicolon, ";"),
        (TokenType::Int, "10"),
        (TokenType::BangEqual, "!="),
        (TokenType::Int, "9"),
        (TokenType::Semicolon, ";"),
        (TokenType::Eof, ""),
    ];
    for (kind, literal) in expected {
        let tok = lexer.next_token();
        assert_eq!(tok.token_type, kind);
        assert_eq!(tok.literal, literal);
    }
}

#[test]
fn two_char_operator_disambiguation() {
    // "==" is a single Equal token, never two Assign tokens.
    let mut lexer = Lexer::new(String::from("=="));
    let tok = lexer.next_token();
    assert_eq!(tok.token_type, TokenType::Equal);
    assert_eq!(tok.literal, "==");
    assert_eq!(lexer.next_token().token_type, TokenType::Eof);

    // "!=" is a single BangEqual token, never Bang followed by Assign.
    let mut lexer = Lexer::new(String::from("!="));
    let tok = lexer.next_token();
    assert_eq!(tok.token_type, TokenType::BangEqual);
    assert_eq!(tok.literal, "!=");
    assert_eq!(lexer.next_token().token_type, TokenType::Eof);

    // Alone, each is its one-character token.
    let mut lexer = Lexer::new(String::from("= !"));
    assert_eq!(lexer.next_token().token_type, TokenType::Assign);
    assert_eq!(lexer.next_token().token_type, TokenType::Bang);
    assert_eq!(lexer.next_token().token_type, TokenType::Eof);
}

#[test]
fn eof_is_stable_and_relexing_is_deterministic() {
    // next_token after Eof keeps yielding Eof, never panics, never rewinds.
    let mut lexer = Lexer::new(String::from("x"));
    assert_eq!(lexer.next_token().token_type, TokenType::Ident);
    for _ in 0..5 {
        let tok = lexer.next_token();
        assert_eq!(tok.token_type, TokenType::Eof);
        assert_eq!(tok.literal, "");
    }

    // Re-lexing the same input yields the same token sequence.
    let input = "let a = 1; a != 2;";
    let mut first = Vec::new();
    let mut lexer = Lexer::new(String::from(input));
    loop {
        let tok = lexer.next_token();
        let done = tok.token_type == TokenType::Eof;
        first.push(tok);
        if done {
            break;
        }
    }
    let mut lexer = Lexer::new(String::from(input));
    for expected in &first {
        let tok = lexer.next_token();
        assert_eq!(&tok, expected);
    }
}

#[test]
fn unrecognised_bytes_become_illegal_tokens() {
    let mut lexer = Lexer::new(String::from("@ #"));
    let tok = lexer.next_token();
    assert_eq!(tok.token_type, TokenType::Illegal);
    assert_eq!(tok.literal, "");
    let tok = lexer.next_token();
    assert_eq!(tok.token_type, TokenType::Illegal);
    assert_eq!(lexer.next_token().token_type, TokenType::Eof);

    // Non-ASCII input never aborts: its bytes come out as Illegal tokens.
    let mut lexer = Lexer::new(String::from("é"));
    assert_eq!(lexer.next_token().token_type, TokenType::Illegal);
    assert_eq!(lexer.next_token().token_type, TokenType::Illegal);
    assert_eq!(lexer.next_token().token_type, TokenType::Eof);
}

#[test]
fn empty_input_yields_eof() {
    let mut lexer = Lexer::new(String::new());
    let tok = lexer.next_token();
    assert_eq!(tok.token_type, TokenType::Eof);
    assert_eq!(tok.literal, "");
}

#[test]
fn nul_byte_is_the_eof_sentinel() {
    // A zero byte inside the input reads as Eof, as the sentinel value; the
    // lexer steps past it, so lexing resumes after it. Only at the true end
    // of input does Eof repeat forever.
    let mut lexer = Lexer::new(String::from("5\u{0}5"));
    assert_eq!(lexer.next_token().token_type, TokenType::Int);
    assert_eq!(lexer.next_token().token_type, TokenType::Eof);
    assert_eq!(lexer.next_token().token_type, TokenType::Int);
    assert_eq!(lexer.next_token().token_type, TokenType::Eof);
    assert_eq!(lexer.next_token().token_type, TokenType::Eof);
}
