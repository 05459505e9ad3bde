use sexp_wasm::lexer::{tokenize, Token};

#[test]
fn test_calc() {
    let tokens = tokenize(
        "(defn calc : i32
                   (a :f32 b: i32)
                     (* 3.14 (/ (+ a (- b 1)) 2))",
    )
    .unwrap();
    assert_eq!(
        tokens,
        vec![
            Token::LParen,
            Token::Symbol("defn".to_string()),
            Token::Symbol("calc".to_string()),
            Token::Colon,
            Token::Symbol("i32".to_string()),
            Token::LParen,
            Token::Symbol("a".to_string()),
            Token::Colon,
            Token::Symbol("f32".to_string()),
            Token::Symbol("b".to_string()),
            Token::Colon,
            Token::Symbol("i32".to_string()),
            Token::RParen,
            Token::LParen,
            Token::Asterisk,
            Token::NumberLiteral("3.14".to_string()),
            Token::LParen,
            Token::Slash,
            Token::LParen,
            Token::Plus,
            Token::Symbol("a".to_string()),
            Token::LParen,
            Token::Minus,
            Token::Symbol("b".to_string()),
            Token::NumberLiteral("1".to_string()),
            Token::RParen,
            Token::RParen,
            Token::NumberLiteral("2".to_string()),
            Token::RParen,
            Token::RParen
        ]
    )
}

#[test]
fn test_sub() {
    let tokens = tokenize("(- a 1)").unwrap();
    assert_eq!(
        tokens,
        vec![
            Token::LParen,
            Token::Minus,
            Token::Symbol("a".to_string()),
            Token::NumberLiteral("1".to_string()),
            Token::RParen
        ]
    )
}

#[test]
fn test_brackets_and_commas() {
    let tokens = tokenize("[a: i32, b: f32]").unwrap();
    assert_eq!(
        tokens,
        vec![
            Token::LBracket,
            Token::Symbol("a".to_string()),
            Token::Colon,
            Token::Symbol("i32".to_string()),
            Token::Symbol("b".to_string()),
            Token::Colon,
            Token::Symbol("f32".to_string()),
            Token::RBracket
        ]
    )
}
