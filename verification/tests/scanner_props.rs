use tomori_lang::lexer::Lexer;
use tomori_lang::token::{Token, TokenType};

fn scan_all(input: &str) -> Vec<Token> {
    let mut l = Lexer::new(input.to_string());
    let mut tokens = Vec::new();
    loop {
        let tok = l.next_token();
        let done = tok.token_type == TokenType::EOF;
        tokens.push(tok);
        if done {
            break;
        }
    }
    tokens
}

#[test]
fn test_single_char_punctuation() {
    let test_cases = vec![
        ("=", TokenType::ASSIGN),
        ("+", TokenType::PLUS),
        (",", TokenType::COMMA),
        (";", TokenType::SEMICOLON),
        ("(", TokenType::LPAREN),
        (")", TokenType::RPAREN),
        ("{", TokenType::LBRACE),
        ("}", TokenType::RBRACE),
        ("!", TokenType::BANG),
        ("-", TokenType::MINUS),
        ("*", TokenType::ASTERISK),
        ("/", TokenType::SLASH),
        ("<", TokenType::LT),
        (">", TokenType::GT),
    ];
    for (input, token_type) in test_cases {
        let mut l = Lexer::new(input.to_string());
        let tok = l.next_token();
        assert_eq!(tok.token_type, token_type);
        assert_eq!(tok.literal, input);
        assert_eq!(l.next_token().token_type, TokenType::EOF);
    }
}

#[test]
fn test_two_char_operators() {
    let mut l = Lexer::new("==".to_string());
    let tok = l.next_token();
    assert_eq!(tok.token_type, TokenType::EQ);
    assert_eq!(tok.literal, "==");
    assert_eq!(l.next_token().token_type, TokenType::EOF);

    let mut l = Lexer::new("!=".to_string());
    let tok = l.next_token();
    assert_eq!(tok.token_type, TokenType::NotEQ);
    assert_eq!(tok.literal, "!=");
    assert_eq!(l.next_token().token_type, TokenType::EOF);

    let mut l = Lexer::new("=a".to_string());
    let tok = l.next_token();
    assert_eq!(tok.token_type, TokenType::ASSIGN);
    assert_eq!(tok.literal, "=");
    assert_eq!(l.next_token().token_type, TokenType::IDENT("a".to_string()));

    let mut l = Lexer::new("!5".to_string());
    let tok = l.next_token();
    assert_eq!(tok.token_type, TokenType::BANG);
    assert_eq!(tok.literal, "!");
    assert_eq!(l.next_token().token_type, TokenType::INT(5));
}

#[test]
fn test_keywords() {
    let test_cases = vec![
        ("let", TokenType::LET),
        ("fn", TokenType::FUNCTION),
        ("if", TokenType::IF),
        ("true", TokenType::TRUE),
        ("false", TokenType::FALSE),
        ("else", TokenType::ELSE),
        ("return", TokenType::RETURN),
    ];
    for (input, token_type) in test_cases {
        let mut l = Lexer::new(input.to_string());
        let tok = l.next_token();
        assert_eq!(tok.token_type, token_type);
        assert_eq!(tok.literal, input);
        assert_eq!(l.next_token().token_type, TokenType::EOF);
    }
}

#[test]
fn test_keyword_lookalikes_are_identifiers() {
    for input in ["lett", "iffy", "fnx", "truex", "falsey", "elsewhere", "returns"] {
        let mut l = Lexer::new(input.to_string());
        let tok = l.next_token();
        assert_eq!(tok.token_type, TokenType::IDENT(input.to_string()));
        assert_eq!(tok.literal, input);
    }
}

#[test]
fn test_integer_scanning() {
    let mut l = Lexer::new("12345".to_string());
    let tok = l.next_token();
    assert_eq!(tok.token_type, TokenType::INT(12345));
    assert_eq!(tok.literal, "12345");
    assert_eq!(l.next_token().token_type, TokenType::EOF);
}

#[test]
fn test_integer_maximal_munch() {
    let mut l = Lexer::new("12a".to_string());
    let tok = l.next_token();
    assert_eq!(tok.token_type, TokenType::INT(12));
    assert_eq!(tok.literal, "12");
    let tok = l.next_token();
    assert_eq!(tok.token_type, TokenType::IDENT("a".to_string()));
    assert_eq!(tok.literal, "a");
}

#[test]
fn test_integer_limits() {
    let mut l = Lexer::new("9223372036854775807".to_string());
    let tok = l.next_token();
    assert_eq!(tok.token_type, TokenType::INT(i64::MAX));
    assert_eq!(tok.literal, "9223372036854775807");

    let mut l = Lexer::new("9223372036854775808".to_string());
    let tok = l.next_token();
    assert_eq!(tok.token_type, TokenType::INVALID_INT);
    assert_eq!(tok.literal, "9223372036854775808");
    assert_eq!(l.next_token().token_type, TokenType::EOF);
}

#[test]
fn test_whitespace_transparent() {
    let plain = scan_all("let five = 5;");
    let spaced = scan_all("  let\tfive\n  =\r\n  5   ;\n");
    assert_eq!(plain.len(), spaced.len());
    for (a, b) in plain.iter().zip(spaced.iter()) {
        assert_eq!(a.token_type, b.token_type);
        assert_eq!(a.literal, b.literal);
    }
}

#[test]
fn test_eof_idempotent() {
    let mut l = Lexer::new("x".to_string());
    assert_eq!(l.next_token().token_type, TokenType::IDENT("x".to_string()));
    for _ in 0..5 {
        let tok = l.next_token();
        assert_eq!(tok.token_type, TokenType::EOF);
        assert_eq!(tok.literal, "");
    }
}

#[test]
fn test_empty_and_blank_input() {
    let mut l = Lexer::new(String::new());
    assert_eq!(l.next_token().token_type, TokenType::EOF);
    assert_eq!(l.next_token().token_type, TokenType::EOF);

    let mut l = Lexer::new("   \t\n\r  ".to_string());
    let tok = l.next_token();
    assert_eq!(tok.token_type, TokenType::EOF);
    assert_eq!(tok.literal, "");
}

#[test]
fn test_illegal_character() {
    let mut l = Lexer::new("a @ b".to_string());
    assert_eq!(l.next_token().token_type, TokenType::IDENT("a".to_string()));
    let tok = l.next_token();
    assert_eq!(tok.token_type, TokenType::ILLEGAL(64));
    assert_eq!(tok.literal, "@");
    assert_eq!(l.next_token().token_type, TokenType::IDENT("b".to_string()));
    assert_eq!(l.next_token().token_type, TokenType::EOF);
}

#[test]
fn test_cursor_methods() {
    let mut l = Lexer::new("ab".to_string());
    assert_eq!(l.peek_char(), b'b');
    l.read_char();
    assert_eq!(l.peek_char(), 0);

    let mut l = Lexer::new("abc def".to_string());
    let ident = l.read_identifier();
    assert_eq!(ident, "abc");
    l.skip_whitespace();
    assert_eq!(l.next_token().token_type, TokenType::IDENT("def".to_string()));

    let mut l = Lexer::new("42;".to_string());
    let number = l.read_digit();
    assert_eq!(number, "42");
    assert_eq!(l.next_token().token_type, TokenType::SEMICOLON);
}

#[test]
fn test_lookup_ident_and_new_token() {
    let l = Lexer::new(String::new());
    assert_eq!(l.lookup_ident("return".to_string()), TokenType::RETURN);
    assert_eq!(
        l.lookup_ident("returns".to_string()),
        TokenType::IDENT("returns".to_string())
    );
    let tok = Lexer::new_token(TokenType::COMMA, ",".to_string());
    assert_eq!(tok.token_type, TokenType::COMMA);
    assert_eq!(tok.literal, ",");
}

#[test]
fn test_let_statement_scenario() {
    let tokens = scan_all("let five = 5;");
    let expected = vec![
        (TokenType::LET, "let"),
        (TokenType::IDENT("five".to_string()), "five"),
        (TokenType::ASSIGN, "="),
        (TokenType::INT(5), "5"),
        (TokenType::SEMICOLON, ";"),
        (TokenType::EOF, ""),
    ];
    assert_eq!(tokens.len(), expected.len());
    for (tok, (token_type, literal)) in tokens.iter().zip(expected.into_iter()) {
        assert_eq!(tok.token_type, token_type);
        assert_eq!(tok.literal, literal);
    }
}

#[test]
fn test_not_equal_scenario() {
    let tokens = scan_all("10 != 9;");
    let expected = vec![
        (TokenType::INT(10), "10"),
        (TokenType::NotEQ, "!="),
        (TokenType::INT(9), "9"),
        (TokenType::SEMICOLON, ";"),
        (TokenType::EOF, ""),
    ];
    assert_eq!(tokens.len(), expected.len());
    for (tok, (token_type, literal)) in tokens.iter().zip(expected.into_iter()) {
        assert_eq!(tok.token_type, token_type);
        assert_eq!(tok.literal, literal);
    }
}

#[test]
fn test_function_scenario() {
    let tokens = scan_all("fn(x, y) { x + y; }");
    let expected = vec![
        (TokenType::FUNCTION, "fn"),
        (TokenType::LPAREN, "("),
        (TokenType::IDENT("x".to_string()), "x"),
        (TokenType::COMMA, ","),
        (TokenType::IDENT("y".to_string()), "y"),
        (TokenType::RPAREN, ")"),
        (TokenType::LBRACE, "{"),
        (TokenType::IDENT("x".to_string()), "x"),
        (TokenType::PLUS, "+"),
        (TokenType::IDENT("y".to_string()), "y"),
        (TokenType::SEMICOLON, ";"),
        (TokenType::RBRACE, "}"),
        (TokenType::EOF, ""),
    ];
    assert_eq!(tokens.len(), expected.len());
    for (tok, (token_type, literal)) in tokens.iter().zip(expected.into_iter()) {
        assert_eq!(tok.token_type, token_type);
        assert_eq!(tok.literal, literal);
    }
}
