use tdx_formula::lexer::Lexer;
use tdx_formula::token::{Token, TokenType};

fn all_tokens(input: &str) -> Vec<Token> {
    let mut lexer = Lexer::new(input);
    let mut tokens = Vec::new();
    while let Some(token) = lexer.next() {
        tokens.push(token);
    }
    tokens
}

fn check_lexing(input: &str, expected_tokens: Vec<TokenType>) {
    let tokens: Vec<TokenType> = all_tokens(input).into_iter().map(|t| t.token_type).collect();
    assert_eq!(tokens, expected_tokens, "Input: \"{}\"", input);
}

fn check_lexing_with_lexemes(input: &str, expected_tokens_data: Vec<(TokenType, &str)>) {
    let tokens: Vec<(TokenType, String)> =
        all_tokens(input).into_iter().map(|t| (t.token_type, t.lexeme)).collect();
    let expected: Vec<(TokenType, String)> = expected_tokens_data
        .into_iter()
        .map(|(tt, s)| (tt, s.to_string()))
        .collect();
    assert_eq!(tokens, expected, "Input: \"{}\"", input);
}

#[test]
fn test_simple_operators_and_punctuation() {
    let input = "+-*/=(),:;";
    let expected = vec![
        TokenType::Plus,
        TokenType::Minus,
        TokenType::Star,
        TokenType::Slash,
        TokenType::Eq,
        TokenType::LParen,
        TokenType::RParen,
        TokenType::Comma,
        TokenType::Colon,
        TokenType::Semicolon,
    ];
    check_lexing(input, expected);
}

#[test]
fn test_multi_char_operators() {
    let input = ":= >= <= <>";
    let expected = vec![
        TokenType::ColonAssign,
        TokenType::GtEq,
        TokenType::LtEq,
        TokenType::NotEq,
    ];
    check_lexing(input, expected);

    let input = "> = < = : =";
    let expected_ambig = vec![
        TokenType::Gt,
        TokenType::Eq,
        TokenType::Lt,
        TokenType::Eq,
        TokenType::Colon,
        TokenType::Eq,
    ];
    check_lexing(input, expected_ambig);
}

#[test]
fn test_identifiers_and_numbers() {
    let input = "VAR1 C ma5 123 45.67";
    let expected = vec![
        (TokenType::Identifier, "VAR1"),
        (TokenType::Identifier, "C"),
        (TokenType::Identifier, "ma5"),
        (TokenType::Number, "123"),
        (TokenType::Number, "45.67"),
    ];
    check_lexing_with_lexemes(input, expected);
}

#[test]
fn test_keywords() {
    let input = "IF Then ELSE and OR not";
    let expected = vec![
        TokenType::If,
        TokenType::Then,
        TokenType::Else,
        TokenType::And,
        TokenType::Or,
        TokenType::Not,
    ];
    check_lexing(input, expected.clone());

    let input_mixed = "If tHeN elSE AnD oR NOt";
    check_lexing(input_mixed, expected);

    let input_ident = "ORDER IFTHEN";
    let expected_ident = vec![
        (TokenType::Identifier, "ORDER"),
        (TokenType::Identifier, "IFTHEN"),
    ];
    check_lexing_with_lexemes(input_ident, expected_ident);
}

#[test]
fn test_comments_and_whitespace() {
    let input = " { This is a comment } C { another } := { nested? No. } 5.0 ; ";
    let expected = vec![
        (TokenType::Identifier, "C"),
        (TokenType::ColonAssign, ":="),
        (TokenType::Number, "5.0"),
        (TokenType::Semicolon, ";"),
    ];
    check_lexing_with_lexemes(input, expected);
}

#[test]
fn test_unclosed_comment() {
    let input = "VAR { unclosed comment";
    let expected = vec![(TokenType::Identifier, "VAR")];
    check_lexing_with_lexemes(input, expected);
}

#[test]
fn test_simple_assignment() {
    let input = "MYVAR := C + 10;";
    let expected = vec![
        (TokenType::Identifier, "MYVAR"),
        (TokenType::ColonAssign, ":="),
        (TokenType::Identifier, "C"),
        (TokenType::Plus, "+"),
        (TokenType::Number, "10"),
        (TokenType::Semicolon, ";"),
    ];
    check_lexing_with_lexemes(input, expected);
}

#[test]
fn test_function_call_lexing() {
    let input = "MA5: MA(CLOSE, 5);";
    let expected = vec![
        (TokenType::Identifier, "MA5"),
        (TokenType::Colon, ":"),
        (TokenType::Identifier, "MA"),
        (TokenType::LParen, "("),
        (TokenType::Identifier, "CLOSE"),
        (TokenType::Comma, ","),
        (TokenType::Number, "5"),
        (TokenType::RParen, ")"),
        (TokenType::Semicolon, ";"),
    ];
    check_lexing_with_lexemes(input, expected);
}

#[test]
fn test_illegal_character() {
    let input = "VAR @ 10";
    let expected = vec![
        (TokenType::Identifier, "VAR"),
        (TokenType::Illegal, "@"),
        (TokenType::Number, "10"),
    ];
    check_lexing_with_lexemes(input, expected);
}

#[test]
fn test_number_starting_with_dot() {
    let input = ".5";
    let expected = vec![(TokenType::Number, ".5")];
    check_lexing_with_lexemes(input, expected);

    let input_dot_end = "5.";
    let expected_dot_end = vec![(TokenType::Number, "5"), (TokenType::Illegal, ".")];
    check_lexing_with_lexemes(input_dot_end, expected_dot_end);

    let input_dot_only = ".";
    let expected_dot_only = vec![(TokenType::Illegal, ".")];
    check_lexing_with_lexemes(input_dot_only, expected_dot_only);

    let input_dot_alpha = ".A";
    let expected_dot_alpha = vec![(TokenType::Illegal, "."), (TokenType::Identifier, "A")];
    check_lexing_with_lexemes(input_dot_alpha, expected_dot_alpha);
}
