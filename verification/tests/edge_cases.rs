use lexer::scanner::Lexer;
use lexer::token::Token;

#[test]
fn punctuation_run_then_eof() {
    let mut l = Lexer::new("=+(){},;".to_string());
    let tokens = [
        Token::Assign,
        Token::Plus,
        Token::LParen,
        Token::RParen,
        Token::LBrace,
        Token::RBrace,
        Token::Comma,
        Token::Semicolon,
        Token::Eof,
    ];
    for tok in tokens {
        assert_eq!(l.next_token(), tok);
    }
}

#[test]
fn empty_input_stays_eof() {
    let mut l = Lexer::new(String::new());
    assert_eq!(l.next_token(), Token::Eof);
    assert_eq!(l.next_token(), Token::Eof);
    assert_eq!(l.next_token(), Token::Eof);
}

#[test]
fn whitespace_only_input_is_eof() {
    let mut l = Lexer::new(" \t\r\n \n".to_string());
    assert_eq!(l.next_token(), Token::Eof);
    assert_eq!(l.next_token(), Token::Eof);
}

#[test]
fn eof_repeats_after_nonempty_input() {
    let mut l = Lexer::new("+".to_string());
    assert_eq!(l.next_token(), Token::Plus);
    assert_eq!(l.next_token(), Token::Eof);
    assert_eq!(l.next_token(), Token::Eof);
}

#[test]
fn whitespace_between_tokens_is_invisible() {
    let mut plain = Lexer::new("let x=5;".to_string());
    let mut spaced = Lexer::new("let \t x \n =\r\n  5  ;\t".to_string());
    loop {
        let a = plain.next_token();
        let b = spaced.next_token();
        assert_eq!(a, b);
        if a == Token::Eof {
            break;
        }
    }
}

#[test]
fn reserved_word_is_not_an_identifier() {
    let mut l = Lexer::new("let".to_string());
    assert_eq!(l.next_token(), Token::Let);
    assert_eq!(l.next_token(), Token::Eof);
}

#[test]
fn identifier_containing_reserved_word_stays_identifier() {
    let mut l = Lexer::new("lets let5 letx".to_string());
    assert_eq!(l.next_token(), Token::Ident(String::from("lets")));
    assert_eq!(l.next_token(), Token::Ident(String::from("let5")));
    assert_eq!(l.next_token(), Token::Ident(String::from("letx")));
    assert_eq!(l.next_token(), Token::Eof);
}

#[test]
fn underscore_starts_an_identifier() {
    let mut l = Lexer::new("_foo a1_b2".to_string());
    assert_eq!(l.next_token(), Token::Ident(String::from("_foo")));
    assert_eq!(l.next_token(), Token::Ident(String::from("a1_b2")));
    assert_eq!(l.next_token(), Token::Eof);
}

#[test]
fn integer_text_is_kept_verbatim() {
    let mut l = Lexer::new("007 10".to_string());
    assert_eq!(l.next_token(), Token::Int(String::from("007")));
    assert_eq!(l.next_token(), Token::Int(String::from("10")));
    assert_eq!(l.next_token(), Token::Eof);
}

#[test]
fn lone_minus_is_minus() {
    let mut l = Lexer::new("-".to_string());
    assert_eq!(l.next_token(), Token::Minus);
    assert_eq!(l.next_token(), Token::Eof);
}

#[test]
fn minus_then_greater_is_one_arrow() {
    let mut l = Lexer::new("->".to_string());
    assert_eq!(l.next_token(), Token::To);
    assert_eq!(l.next_token(), Token::Eof);
}

#[test]
fn separated_minus_and_greater_are_not_an_arrow() {
    let mut l = Lexer::new("- >".to_string());
    assert_eq!(l.next_token(), Token::Minus);
    assert_eq!(l.next_token(), Token::Illegal);
    assert_eq!(l.next_token(), Token::Eof);
}

#[test]
fn minus_before_digits_is_minus_then_int() {
    let mut l = Lexer::new("-5".to_string());
    assert_eq!(l.next_token(), Token::Minus);
    assert_eq!(l.next_token(), Token::Int(String::from("5")));
    assert_eq!(l.next_token(), Token::Eof);
}

#[test]
fn colon_is_type_annotation_introducer() {
    let mut l = Lexer::new("x: I32".to_string());
    assert_eq!(l.next_token(), Token::Ident(String::from("x")));
    assert_eq!(l.next_token(), Token::In);
    assert_eq!(l.next_token(), Token::Ident(String::from("I32")));
    assert_eq!(l.next_token(), Token::Eof);
}

#[test]
fn each_unrecognized_character_is_one_illegal() {
    let mut l = Lexer::new("@#$".to_string());
    assert_eq!(l.next_token(), Token::Illegal);
    assert_eq!(l.next_token(), Token::Illegal);
    assert_eq!(l.next_token(), Token::Illegal);
    assert_eq!(l.next_token(), Token::Eof);
}

#[test]
fn scanning_resumes_after_illegal_character() {
    let mut l = Lexer::new("let x = @;".to_string());
    let tokens = [
        Token::Let,
        Token::Ident(String::from("x")),
        Token::Assign,
        Token::Illegal,
        Token::Semicolon,
        Token::Eof,
    ];
    for tok in tokens {
        assert_eq!(l.next_token(), tok);
    }
}

#[test]
fn illegal_between_identifiers_keeps_them_separate() {
    let mut l = Lexer::new("a@b".to_string());
    assert_eq!(l.next_token(), Token::Ident(String::from("a")));
    assert_eq!(l.next_token(), Token::Illegal);
    assert_eq!(l.next_token(), Token::Ident(String::from("b")));
    assert_eq!(l.next_token(), Token::Eof);
}
