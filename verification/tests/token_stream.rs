use lexer::scanner::Lexer;
use lexer::token::Token;

#[test]
fn test_next_token() {
    let input = "=+(){},;";

    let tokens = [
        Token::Assign,
        Token::Plus,
        Token::LParen,
        Token::RParen,
        Token::LBrace,
        Token::RBrace,
        Token::Comma,
        Token::Semicolon,
    ];

    let mut l = Lexer::new(input.to_string());
    for tok in tokens {
        let next_tok = l.next_token();
        assert_eq!(next_tok, tok);
    }
}

#[test]
fn test_next_token_define_variable() {
    let input = r#"let five = 5: I32;"#;

    let tokens = [
        Token::Let,
        Token::Ident(String::from("five")),
        Token::Assign,
        Token::Int(String::from("5")),
        Token::In,
        Token::Ident(String::from("I32")),
        Token::Semicolon,
        Token::Eof,
    ];

    let mut l = Lexer::new(input.to_string());
    for tok in tokens {
        let next_tok = l.next_token();
        assert_eq!(next_tok, tok);
    }
}

#[test]
fn test_next_token_define_function() {
    let input = r#"
        let add(x,y) = {
            x + y
        }: (I32, I32) -> I32;
    "#;

    let tokens = [
        Token::Let,
        Token::Ident(String::from("add")),
        Token::LParen,
        Token::Ident(String::from("x")),
        Token::Comma,
        Token::Ident(String::from("y")),
        Token::RParen,
        Token::Assign,
        Token::LBrace,
        Token::Ident(String::from("x")),
        Token::Plus,
        Token::Ident(String::from("y")),
        Token::RBrace,
        Token::In,
        Token::LParen,
        Token::Ident(String::from("I32")),
        Token::Comma,
        Token::Ident(String::from("I32")),
        Token::RParen,
        Token::To,
        Token::Ident(String::from("I32")),
        Token::Semicolon,
        Token::Eof,
    ];

    let mut l = Lexer::new(input.to_string());
    for tok in tokens {
        let next_tok = l.next_token();
        assert_eq!(next_tok, tok);
    }
}

#[test]
fn test_next_token_all() {
    let input = r#"
        let five = 5: I32;
        let ten = 10: I32;

        let add(x,y) = {
            x + y
        }: (I32, I32) -> I32;

        let result = add(five, ten): I32;
    "#;

    let tokens = [
        Token::Let,
        Token::Ident(String::from("five")),
        Token::Assign,
        Token::Int(String::from("5")),
        Token::In,
        Token::Ident(String::from("I32")),
        Token::Semicolon,
        Token::Let,
        Token::Ident(String::from("ten")),
        Token::Assign,
        Token::Int(String::from("10")),
        Token::In,
        Token::Ident(String::from("I32")),
        Token::Semicolon,
        Token::Let,
        Token::Ident(String::from("add")),
        Token::LParen,
        Token::Ident(String::from("x")),
        Token::Comma,
        Token::Ident(String::from("y")),
        Token::RParen,
        Token::Assign,
        Token::LBrace,
        Token::Ident(String::from("x")),
        Token::Plus,
        Token::Ident(String::from("y")),
        Token::RBrace,
        Token::In,
        Token::LParen,
        Token::Ident(String::from("I32")),
        Token::Comma,
        Token::Ident(String::from("I32")),
        Token::RParen,
        Token::To,
        Token::Ident(String::from("I32")),
        Token::Semicolon,
        Token::Let,
        Token::Ident(String::from("result")),
        Token::Assign,
        Token::Ident(String::from("add")),
        Token::LParen,
        Token::Ident(String::from("five")),
        Token::Comma,
        Token::Ident(String::from("ten")),
        Token::RParen,
        Token::In,
        Token::Ident(String::from("I32")),
        Token::Semicolon,
        Token::Eof,
    ];

    let mut l = Lexer::new(input.to_string());
    for tok in tokens {
        let next_tok = l.next_token();
        assert_eq!(next_tok, tok);
    }
}
