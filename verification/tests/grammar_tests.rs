use tdx_formula::ast::{BinaryOperator, Expr, Formula, Statement, UnaryOperator};
use tdx_formula::lexer::Lexer;
use tdx_formula::parser::Parser;
use tdx_formula::token::TokenType;

fn parse(input: &str) -> Result<Formula, String> {
    Parser::new(Lexer::new(input)).parse_formula()
}

fn var(name: &str) -> Box<Expr> {
    Box::new(Expr::Variable(name.to_string()))
}

fn bin(left: Box<Expr>, operator: BinaryOperator, right: Box<Expr>) -> Box<Expr> {
    Box::new(Expr::BinaryOp { left, operator, right })
}

fn assigned(input: &str) -> Expr {
    let formula = parse(input).expect("parses");
    match formula.statements.into_iter().next() {
        Some(Statement::Assignment { value, .. }) => value,
        other => panic!("unexpected statement {:?}", other),
    }
}

#[test]
fn test_same_precedence_groups_left() {
    let expected = bin(bin(var("A"), BinaryOperator::Sub, var("B")), BinaryOperator::Sub, var("C"));
    assert_eq!(assigned("RES := A - B - C;"), *expected);
    let expected = bin(bin(var("A"), BinaryOperator::Div, var("B")), BinaryOperator::Mul, var("C"));
    assert_eq!(assigned("RES := A / B * C;"), *expected);
}

#[test]
fn test_not_scope() {
    let not = |operand: Box<Expr>| Box::new(Expr::UnaryOp { operator: UnaryOperator::Not, operand });
    assert_eq!(
        assigned("RES := NOT A > B;"),
        *not(bin(var("A"), BinaryOperator::Gt, var("B")))
    );
    assert_eq!(
        assigned("RES := NOT A AND B;"),
        *bin(not(var("A")), BinaryOperator::And, var("B"))
    );
}

#[test]
fn test_comparison_binds_looser_than_sum() {
    let expected = bin(
        bin(var("A"), BinaryOperator::Add, var("B")),
        BinaryOperator::GtEq,
        bin(var("C"), BinaryOperator::Mul, var("D")),
    );
    assert_eq!(assigned("RES := A + B >= C * D;"), *expected);
}

#[test]
fn test_error_messages_in_full() {
    assert_eq!(
        parse("X := (A + B;").unwrap_err(),
        "Syntax Error: Expected token RParen, but found Some(Semicolon) at line 1, column 12"
    );
    assert_eq!(
        parse("MA(C, 5").unwrap_err(),
        "Syntax Error: Expected ',' or ')' after function argument, but found None at end of input"
    );
    assert_eq!(
        parse("X := 5 Y := 10").unwrap_err(),
        "Syntax Error: 语句后应为 ';' 或文件结束, 但找到 Some(Identifier) 在 line 1, column 8"
    );
    assert_eq!(
        parse("X := A + * B;").unwrap_err(),
        "Syntax Error: Unexpected token Star (*) found when expecting start of an expression at line 1, column 10"
    );
    assert_eq!(
        parse(") := 1;").unwrap_err(),
        "Syntax Error: Unexpected token RParen ()) at start of statement at line 1, column 1"
    );
    assert_eq!(
        parse("OUT: C, 5;").unwrap_err(),
        "Syntax Error: Expected an Identifier, but found Some(Number) at line 1, column 9"
    );
}

#[test]
fn test_empty_and_semicolon_only_formulas() {
    assert_eq!(parse("").unwrap().statements.len(), 0);
    assert_eq!(parse(" ;; ; {note} ").unwrap().statements.len(), 0);
    assert_eq!(parse(";;X := 1;;Y := 2").unwrap().statements.len(), 2);
}

#[test]
fn test_token_positions() {
    let mut lexer = Lexer::new("A\n  B := 1");
    let a = lexer.next_token();
    assert_eq!((a.token_type, a.line, a.column), (TokenType::Identifier, 1, 1));
    let b = lexer.next_token();
    assert_eq!((b.lexeme.as_str(), b.line, b.column), ("B", 2, 3));
    let assign = lexer.next_token();
    assert_eq!((assign.token_type, assign.line, assign.column), (TokenType::ColonAssign, 2, 5));
}

#[test]
fn test_columns_count_bytes() {
    let mut lexer = Lexer::new("α := 1");
    let alpha = lexer.next_token();
    assert_eq!((alpha.token_type, alpha.lexeme.as_str(), alpha.column), (TokenType::Identifier, "α", 1));
    let assign = lexer.next_token();
    assert_eq!((assign.token_type, assign.column), (TokenType::ColonAssign, 4));
}

#[test]
fn test_unicode_identifiers_and_keywords() {
    let mut lexer = Lexer::new("价格 and");
    let price = lexer.next_token();
    assert_eq!((price.token_type, price.lexeme.as_str()), (TokenType::Identifier, "价格"));
    assert_eq!(lexer.next_token().token_type, TokenType::And);
}

#[test]
fn test_eof_is_repeated() {
    let mut lexer = Lexer::new("X ");
    assert_eq!(lexer.next_token().token_type, TokenType::Identifier);
    let end = lexer.next_token();
    assert_eq!((end.token_type, end.lexeme.as_str(), end.line, end.column), (TokenType::Eof, "", 1, 3));
    let again = lexer.next_token();
    assert_eq!((again.token_type, again.line, again.column), (TokenType::Eof, 1, 3));
    assert!(lexer.next().is_none());
}

#[test]
fn test_clone_keeps_formula() {
    let formula = parse("M5 := MA(C, 5); OUT: -M5 + (1), COLORRED;").unwrap();
    assert_eq!(formula.clone(), formula);
}

#[test]
fn test_statements_before_semicolon_are_kept() {
    let first = parse("X := 1;").unwrap();
    let both = parse("X := 1; OUT: X, COLORRED").unwrap();
    assert_eq!(both.statements.len(), 2);
    assert_eq!(both.statements[0], first.statements[0]);
    assert!(parse("X := 1; OUT: X,").is_err());
}

#[test]
fn test_if_call_parses() {
    match assigned("X := IF(C > O, H, L);") {
        Expr::FunctionCall { name, args } => {
            assert_eq!(name, "IF");
            assert_eq!(args.len(), 3);
        }
        other => panic!("unexpected expression {:?}", other),
    }
    let formula = parse("if(C, 1, 2);").expect("parses");
    match &formula.statements[0] {
        Statement::Output { name: None, expr: Expr::FunctionCall { name, args }, .. } => {
            assert_eq!(name, "if");
            assert_eq!(args.len(), 3);
        }
        other => panic!("unexpected statement {:?}", other),
    }
    assert_eq!(
        parse("X := IF;"),
        Err("Syntax Error: Unexpected token If (IF) found when expecting start of an expression at line 1, column 6"
            .to_string())
    );
    assert_eq!(
        parse("IF C;"),
        Err("Syntax Error: Unexpected token If (IF) at start of statement at line 1, column 1".to_string())
    );
}

#[test]
fn test_whitespace_only_input_lexes_to_eof() {
    let mut lexer = Lexer::new(" \t\r\n");
    assert_eq!(lexer.next_token().token_type, TokenType::Eof);
}

#[test]
fn test_tokens_spell_the_input() {
    let input = "X := MA(C, 5) {five bars}\n+ 1.5;\tY: X > 2 {open";
    let mut lexer = Lexer::new(input);
    let mut text = String::new();
    loop {
        let token = lexer.next_token();
        if token.token_type == TokenType::Eof {
            break;
        }
        assert!(!token.lexeme.is_empty());
        text.push_str(&token.lexeme);
    }
    assert_eq!(text, "X:=MA(C,5)+1.5;Y:X>2");
}

#[test]
fn test_numbers_are_read_as_far_as_they_go() {
    let mut lexer = Lexer::new("1.2.3 1. 7");
    let expected = [
        (TokenType::Number, "1.2"),
        (TokenType::Number, ".3"),
        (TokenType::Number, "1"),
        (TokenType::Illegal, "."),
        (TokenType::Number, "7"),
        (TokenType::Eof, ""),
    ];
    for (kind, lexeme) in expected.iter() {
        let token = lexer.next_token();
        assert_eq!(token.token_type, *kind);
        assert_eq!(token.lexeme, *lexeme);
    }
}

#[test]
fn test_formulas_concatenate() {
    let a = "X := A - B - C;";
    let b = "OUT: X / Y * Z;";
    let fa = parse(a).expect("parses");
    let fb = parse(b).expect("parses");
    let both = parse(&format!("{}{}", a, b)).expect("parses");
    let mut expected = fa.statements.clone();
    expected.extend(fb.statements.clone());
    assert_eq!(both.statements, expected);
    assert_eq!(
        assigned("X := A / B * C;"),
        *bin(bin(var("A"), BinaryOperator::Div, var("B")), BinaryOperator::Mul, var("C"))
    );
    assert_eq!(
        assigned("X := A OR B OR C;"),
        *bin(bin(var("A"), BinaryOperator::Or, var("B")), BinaryOperator::Or, var("C"))
    );
}
