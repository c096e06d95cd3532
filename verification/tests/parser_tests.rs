use tdx_formula::ast::{BinaryOperator, Expr, Formula, LiteralValue, PlotStyle, Statement, UnaryOperator};
use tdx_formula::decimal::Decimal;
use tdx_formula::lexer::Lexer;
use tdx_formula::parser::Parser;

fn check_parsing(input: &str, expected_formula: Formula) {
    let lexer = Lexer::new(input);
    let mut parser = Parser::new(lexer);
    let result = parser.parse_formula();

    match result {
        Ok(parsed_formula) => {
            assert_eq!(parsed_formula, expected_formula, "Input: \"{}\"", input);
        }
        Err(e) => {
            panic!("Parsing failed for input \"{}\": {}", input, e);
        }
    }
}

fn check_parsing_error(input: &str, expected_error_substring: &str) {
    let lexer = Lexer::new(input);
    let mut parser = Parser::new(lexer);
    let result = parser.parse_formula();

    match result {
        Ok(formula) => {
            panic!(
                "Parsing unexpectedly succeeded for input \"{}\". Got: {:?}",
                input, formula
            );
        }
        Err(e) => {
            assert!(
                e.contains(expected_error_substring),
                "Input: \"{}\"\nExpected error containing: \"{}\"\nActual error: \"{}\"",
                input,
                expected_error_substring,
                e
            );
        }
    }
}

fn box_expr(expr: Expr) -> Box<Expr> {
    Box::new(expr)
}

/// A number literal with the value `val` (written as Rust prints it).
fn num(val: f64) -> Expr {
    Expr::Literal(LiteralValue::Number(Decimal::parse(&val.to_string()).unwrap()))
}

fn var(name: &str) -> Expr {
    Expr::Variable(name.to_string())
}

#[test]
fn test_parse_simple_assignment() {
    let input = "MYVAR := 123.45;";
    let expected = Formula {
        statements: vec![Statement::Assignment {
            variable: "MYVAR".to_string(),
            value: num(123.45),
        }],
    };
    check_parsing(input, expected);
}

#[test]
fn test_parse_named_output() {
    let input = "MA5: MA(C, 5), COLORRED, LINETHICK2;";
    let expected = Formula {
        statements: vec![Statement::Output {
            name: Some("MA5".to_string()),
            expr: Expr::FunctionCall {
                name: "MA".to_string(),
                args: vec![var("C"), num(5.0)],
            },
            styles: vec![
                PlotStyle("COLORRED".to_string()),
                PlotStyle("LINETHICK2".to_string()),
            ],
        }],
    };
    check_parsing(input, expected);
}

#[test]
fn test_parse_unnamed_output() {
    let input = "CROSS(MA(C,5), MA(C,10));";
    let expected = Formula {
        statements: vec![Statement::Output {
            name: None,
            expr: Expr::FunctionCall {
                name: "CROSS".to_string(),
                args: vec![
                    Expr::FunctionCall {
                        name: "MA".to_string(),
                        args: vec![var("C"), num(5.0)],
                    },
                    Expr::FunctionCall {
                        name: "MA".to_string(),
                        args: vec![var("C"), num(10.0)],
                    },
                ],
            },
            styles: vec![], // No styles specified
        }],
    };
    check_parsing(input, expected);
}

#[test]
fn test_parse_operator_precedence() {
    // Test: A + B * C -> should be A + (B * C)
    let input = "RES := A + B * C;";
    let expected = Formula {
        statements: vec![Statement::Assignment {
            variable: "RES".to_string(),
            value: Expr::BinaryOp {
                left: box_expr(var("A")),
                operator: BinaryOperator::Add,
                right: box_expr(Expr::BinaryOp {
                    left: box_expr(var("B")),
                    operator: BinaryOperator::Mul,
                    right: box_expr(var("C")),
                }),
            },
        }],
    };
    check_parsing(input, expected);

    // Test: A * B + C -> should be (A * B) + C
    let input2 = "RES := A * B + C;";
    let expected2 = Formula {
        statements: vec![Statement::Assignment {
            variable: "RES".to_string(),
            value: Expr::BinaryOp {
                left: box_expr(Expr::BinaryOp {
                    left: box_expr(var("A")),
                    operator: BinaryOperator::Mul,
                    right: box_expr(var("B")),
                }),
                operator: BinaryOperator::Add,
                right: box_expr(var("C")),
            },
        }],
    };
    check_parsing(input2, expected2);
}

#[test]
fn test_parse_parentheses_grouping() {
    let input = "RES := (A + B) * C;";
    let expected = Formula {
        statements: vec![Statement::Assignment {
            variable: "RES".to_string(),
            value: Expr::BinaryOp {
                left: box_expr(Expr::Grouped(box_expr(Expr::BinaryOp {
                    left: box_expr(var("A")),
                    operator: BinaryOperator::Add,
                    right: box_expr(var("B")),
                }))),
                operator: BinaryOperator::Mul,
                right: box_expr(var("C")),
            },
        }],
    };
    check_parsing(input, expected);
}

#[test]
fn test_parse_unary_minus() {
    // Test: -A + B -> (-A) + B
    let input = "RES := -A + B;";
    let expected = Formula {
        statements: vec![Statement::Assignment {
            variable: "RES".to_string(),
            value: Expr::BinaryOp {
                left: box_expr(Expr::UnaryOp {
                    operator: UnaryOperator::Neg, // Negation
                    operand: box_expr(var("A")),
                }),
                operator: BinaryOperator::Add,
                right: box_expr(var("B")),
            },
        }],
    };
    check_parsing(input, expected);

    // Test: A + -B -> A + (-B) (Unary binds tighter)
    let input2 = "RES := A + -B;";
    let expected2 = Formula {
        statements: vec![Statement::Assignment {
            variable: "RES".to_string(),
            value: Expr::BinaryOp {
                left: box_expr(var("A")),
                operator: BinaryOperator::Add,
                right: box_expr(Expr::UnaryOp {
                    operator: UnaryOperator::Neg,
                    operand: box_expr(var("B")),
                }),
            },
        }],
    };
    check_parsing(input2, expected2);
}

#[test]
fn test_parse_logical_operators() {
    // Test: A > B AND C < D
    let input = "COND := A > B AND C < D;";
    let expected = Formula {
        statements: vec![Statement::Assignment {
            variable: "COND".to_string(),
            value: Expr::BinaryOp {
                left: box_expr(Expr::BinaryOp {
                    left: box_expr(var("A")),
                    operator: BinaryOperator::Gt,
                    right: box_expr(var("B")),
                }),
                operator: BinaryOperator::And,
                right: box_expr(Expr::BinaryOp {
                    left: box_expr(var("C")),
                    operator: BinaryOperator::Lt,
                    right: box_expr(var("D")),
                }),
            },
        }],
    };
    check_parsing(input, expected);

    // Test: A AND B OR C -> (A AND B) OR C (Assuming AND higher precedence or left-assoc)
    // Based on our binding powers (AND: 3,4; OR: 1,2), AND binds tighter.
    let input2 = "COND := A AND B OR C;";
    let expected2 = Formula {
        statements: vec![Statement::Assignment {
            variable: "COND".to_string(),
            value: Expr::BinaryOp {
                left: box_expr(Expr::BinaryOp {
                    left: box_expr(var("A")),
                    operator: BinaryOperator::And,
                    right: box_expr(var("B")),
                }),
                operator: BinaryOperator::Or,
                right: box_expr(var("C")),
            },
        }],
    };
    check_parsing(input2, expected2);
}

#[test]
fn test_parse_multiple_statements() {
    let input =
        "M5 := MA(C, 5); \n MA10: MA(C, 10), COLORRED; {comment} \n OUTPUT: M5 > MA10; ";
    let expected = Formula {
        statements: vec![
            Statement::Assignment {
                variable: "M5".to_string(),
                value: Expr::FunctionCall {
                    name: "MA".to_string(),
                    args: vec![var("C"), num(5.0)],
                },
            },
            Statement::Output {
                name: Some("MA10".to_string()),
                expr: Expr::FunctionCall {
                    name: "MA".to_string(),
                    args: vec![var("C"), num(10.0)],
                },
                styles: vec![PlotStyle("COLORRED".to_string())],
            },
            Statement::Output {
                // Assuming "OUTPUT:" gets parsed as name
                name: Some("OUTPUT".to_string()),
                expr: Expr::BinaryOp {
                    left: box_expr(var("M5")),
                    operator: BinaryOperator::Gt,
                    right: box_expr(var("MA10")), // Assumes parser knows MA10 is a variable now
                                                  // This highlights the need for semantic analysis or an environment
                                                  // later, but the parser should produce this structure.
                },
                styles: vec![],
            },
        ],
    };
    check_parsing(input, expected);
}

// --- Error Handling Tests ---

#[test]
fn test_parse_error_missing_semicolon() {
    let input = "X := 5 Y := 10"; // Missing semicolon
    check_parsing_error(input, "语句后应为 ';' 或文件结束");
}

#[test]
fn test_parse_error_mismatched_paren() {
    let input = "X := (A + B;";
    check_parsing_error(input, "Expected token RParen"); // Error occurs when expecting ')'
}

#[test]
fn test_parse_error_unexpected_token() {
    let input = "X := A + * B;"; // '*' cannot follow '+' directly
    // The exact error might depend on where it's caught, likely expecting start of expression after '+'
    check_parsing_error(input, "Unexpected token Star");
}

#[test]
fn test_parse_error_incomplete_assignment() {
    let input = "X :="; // Missing expression
    check_parsing_error(input, "Unexpected end of input while parsing expression"); // Or similar EOF error
}

#[test]
fn test_parse_error_bad_function_args() {
    // 子测试 1: MA(C, );
    let input = "MA(C, );"; // Missing arg after comma
    check_parsing_error(
        input,
        "Syntax Error: Unexpected ')' after comma in function call arguments",
    );

    // 子测试 2: MA(C, 5 (缺少右括号)
    let input2 = "MA(C, 5"; // Missing closing paren
    check_parsing_error(
        input2,
        "Syntax Error: Expected ',' or ')' after function argument, but found None",
    );
}
