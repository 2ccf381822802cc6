//! Lexer coverage: concatenating every token literal reconstructs the input,
//! and token classification matches the scanning rules.

use unilang::syntax::lexer::{Lexer, Token, TokenType};

fn lex_all(input: &str) -> Vec<Token> {
    let mut lexer = Lexer::new(input);
    let mut tokens = Vec::new();
    while let Some(token) = lexer.next_token() {
        tokens.push(token);
    }
    tokens
}

fn assert_covers(input: &str) {
    let tokens = lex_all(input);
    let mut rebuilt = String::new();
    for token in &tokens {
        rebuilt.push_str(&token.span.literal);
    }
    assert_eq!(rebuilt, input, "lexing lost text of {:?}", input);
    assert_eq!(tokens.last().unwrap().kind, TokenType::Eof);
}

#[test]
fn lexing_reconstructs_the_input() {
    assert_covers("");
    assert_covers("let a = 10+30");
    assert_covers("let a = 8 @ 2");
    assert_covers("  12  ");
    assert_covers("alpha**beta");
    assert_covers("(7 + 8) * 9 \n x / y = \\");
    assert_covers("letter let lets");
}

#[test]
fn tokens_carry_exact_spans() {
    let tokens = lex_all("let ab = 12");
    let kinds: Vec<TokenType> = tokens.iter().map(|t| t.kind).collect();
    assert_eq!(
        kinds,
        vec![
            TokenType::Let,
            TokenType::WhiteSpace,
            TokenType::Identifier,
            TokenType::WhiteSpace,
            TokenType::Equal,
            TokenType::WhiteSpace,
            TokenType::Number(12),
            TokenType::Eof,
        ]
    );
    assert_eq!(tokens[2].span.start, 4);
    assert_eq!(tokens[2].span.end, 6);
    assert_eq!(tokens[2].span.literal, "ab");
    assert_eq!(tokens[6].span.start, 9);
    assert_eq!(tokens[6].span.end, 11);
}

#[test]
fn each_whitespace_character_is_one_token() {
    let tokens = lex_all("a   b");
    let kinds: Vec<TokenType> = tokens.iter().map(|t| t.kind).collect();
    assert_eq!(
        kinds,
        vec![
            TokenType::Identifier,
            TokenType::WhiteSpace,
            TokenType::WhiteSpace,
            TokenType::WhiteSpace,
            TokenType::Identifier,
            TokenType::Eof,
        ]
    );
}

#[test]
fn punctuation_is_classified_by_exact_match() {
    let tokens = lex_all("+-*/()=&|^\\~");
    let kinds: Vec<TokenType> = tokens.iter().map(|t| t.kind).collect();
    assert_eq!(
        kinds,
        vec![
            TokenType::Plus,
            TokenType::Minus,
            TokenType::Asterisk,
            TokenType::ForwardSlash,
            TokenType::LeftParenthesis,
            TokenType::RightParenthesis,
            TokenType::Equal,
            TokenType::Ampersand,
            TokenType::Pipe,
            TokenType::Caret,
            TokenType::BackSlash,
            TokenType::BadChar,
            TokenType::Eof,
        ]
    );
}

#[test]
fn double_asterisk_is_one_token() {
    let tokens = lex_all("2**3");
    let kinds: Vec<TokenType> = tokens.iter().map(|t| t.kind).collect();
    assert_eq!(
        kinds,
        vec![
            TokenType::Number(2),
            TokenType::DoubleAsterisk,
            TokenType::Number(3),
            TokenType::Eof,
        ]
    );
    assert_eq!(tokens[1].span.literal, "**");
}

#[test]
fn keyword_needs_exact_match() {
    let tokens = lex_all("lets let");
    assert_eq!(tokens[0].kind, TokenType::Identifier);
    assert_eq!(tokens[2].kind, TokenType::Let);
}

#[test]
fn eof_token_is_handed_out_once() {
    let mut lexer = Lexer::new("a");
    assert_eq!(lexer.next_token().unwrap().kind, TokenType::Identifier);
    assert_eq!(lexer.next_token().unwrap().kind, TokenType::Eof);
    assert!(lexer.next_token().is_none());
    assert!(lexer.next_token().is_none());
}
