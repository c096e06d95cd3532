use tdx_formula::ast::Formula;
use tdx_formula::builtins::{period_outcome, resolve_function, Builtin, PeriodOutcome};
use tdx_formula::decimal::Decimal;
use tdx_formula::environment::Environment;
use tdx_formula::lexer::Lexer;
use tdx_formula::parser::Parser;
use tdx_formula::plan::{plan_formula, Plan, StatementPlan};
use tdx_formula::windows::{
    bars_since_first, count_in_windows, cross_flags, lagged_index, lengths_agree, window_start,
};

fn parse(input: &str) -> Formula {
    Parser::new(Lexer::new(input)).parse_formula().expect("parses")
}

fn market() -> Vec<String> {
    ["O", "H", "L", "C", "V"].iter().map(|s| s.to_string()).collect()
}

fn single_plan(input: &str) -> Plan {
    let mut plans = plan_formula(&parse(input), &market());
    assert_eq!(plans.len(), 1);
    match plans.remove(0) {
        StatementPlan::Output(_, p, _) => p,
        StatementPlan::Assign(_, p) => p,
    }
}

#[test]
fn test_decimal_canonical_text() {
    assert_eq!(Decimal::parse("45.67").unwrap().text(), "45.67");
    assert_eq!(Decimal::parse("007.500").unwrap().text(), "7.5");
    assert_eq!(Decimal::parse(".5").unwrap().text(), "0.5");
    assert_eq!(Decimal::parse("5.0").unwrap().text(), "5");
    assert_eq!(Decimal::parse("0").unwrap().text(), "0");
    assert_eq!(Decimal::parse("5.0"), Decimal::parse("5"));
    assert_ne!(Decimal::parse("5.01"), Decimal::parse("5.1"));
}

#[test]
fn test_decimal_rejects_other_text() {
    assert!(Decimal::parse("").is_none());
    assert!(Decimal::parse(".").is_none());
    assert!(Decimal::parse("5.").is_none());
    assert!(Decimal::parse("1.2.3").is_none());
    assert!(Decimal::parse("1e5").is_none());
    assert!(Decimal::parse("-1").is_none());
}

#[test]
fn test_resolve_function_ignores_case() {
    assert_eq!(resolve_function("ma"), Ok(Builtin::Ma));
    assert_eq!(resolve_function("Ema"), Ok(Builtin::Ema));
    assert_eq!(resolve_function("BARSCOUNT"), Ok(Builtin::Barscount));
    assert_eq!(
        resolve_function("foo"),
        Err("Runtime Error: Unrecognized function 'FOO'".to_string())
    );
}

#[test]
fn test_arity_messages() {
    assert_eq!(Builtin::Sma.arity(), 3);
    assert_eq!(Builtin::Abs.arity(), 1);
    assert_eq!(Builtin::Ma.arity(), 2);
    assert_eq!(
        Builtin::Average.arity_error(),
        "Runtime Error: SUM function requires 2 arguments."
    );
    assert_eq!(
        Builtin::Between.arity_error(),
        "Runtime Error: BETWEEN function requires 3 arguments (series, lower_bound, upper_bound)."
    );
}

#[test]
fn test_environment_read_after_write() {
    let mut env: Environment<Vec<i32>> = Environment::new();
    env.insert("C".to_string(), vec![1, 2]);
    env.insert("X".to_string(), vec![3]);
    assert_eq!(env.get(&"C".to_string()), Some(&vec![1, 2]));
    env.insert("C".to_string(), vec![9]);
    assert_eq!(env.get(&"C".to_string()), Some(&vec![9]));
    assert_eq!(env.get(&"X".to_string()), Some(&vec![3]));
    assert_eq!(env.get(&"Y".to_string()), None);
    let names = env.names();
    assert!(names.contains(&"X".to_string()));
    assert!(!names.contains(&"Y".to_string()));
}

#[test]
fn test_plan_undefined_variable() {
    match single_plan("OUT: C + Y;") {
        Plan::Binary(left, _, right) => {
            assert!(matches!(*left, Plan::Load(ref n) if n == "C"));
            match *right {
                Plan::Fail(args, message) => {
                    assert!(args.is_empty());
                    assert_eq!(message, "Runtime Error: Undefined variable 'Y'");
                }
                other => panic!("unexpected plan {:?}", other),
            }
        }
        other => panic!("unexpected plan {:?}", other),
    }
}

#[test]
fn test_plan_function_errors() {
    match single_plan("OUT: ma(C);") {
        Plan::Fail(args, message) => {
            assert_eq!(args.len(), 1);
            assert_eq!(message, "Runtime Error: MA function requires 2 arguments.");
        }
        other => panic!("unexpected plan {:?}", other),
    }
    match single_plan("OUT: Foo(C, 1);") {
        Plan::Fail(args, message) => {
            assert_eq!(args.len(), 2);
            assert_eq!(message, "Runtime Error: Unrecognized function 'FOO'");
        }
        other => panic!("unexpected plan {:?}", other),
    }
    assert!(matches!(single_plan("OUT: sma(C, 5, 1);"), Plan::Call(Builtin::Sma, _)));
}

#[test]
fn test_plan_assignment_binds_later_statements() {
    let plans = plan_formula(&parse("OUT0: X; X := C * 2; OUT: X; (X);"), &market());
    assert_eq!(plans.len(), 4);
    assert!(matches!(&plans[0], StatementPlan::Output(n, Plan::Fail(_, m), _)
        if n == "OUT0" && m == "Runtime Error: Undefined variable 'X'"));
    assert!(matches!(&plans[1], StatementPlan::Assign(n, Plan::Binary(..)) if n == "X"));
    assert!(matches!(&plans[2], StatementPlan::Output(n, Plan::Load(v), _) if n == "OUT" && v == "X"));
    assert!(matches!(&plans[3], StatementPlan::Output(n, Plan::Load(v), _)
        if n == "Unnamed Output" && v == "X"));
}

#[test]
fn test_plan_keeps_styles() {
    let plans = plan_formula(&parse("MA5: MA(C, 5), COLORRED, LINETHICK2;"), &market());
    match &plans[0] {
        StatementPlan::Output(name, Plan::Call(Builtin::Ma, args), styles) => {
            assert_eq!(name, "MA5");
            assert_eq!(args.len(), 2);
            let names: Vec<&str> = styles.iter().map(|s| s.0.as_str()).collect();
            assert_eq!(names, vec!["COLORRED", "LINETHICK2"]);
        }
        other => panic!("unexpected plan {:?}", other),
    }
}

#[test]
fn test_window_start() {
    assert_eq!(window_start(3, 5), None);
    assert_eq!(window_start(4, 5), Some(0));
    assert_eq!(window_start(9, 5), Some(5));
    assert_eq!(window_start(0, 1), Some(0));
}

#[test]
fn test_bars_since_first() {
    let flags = vec![false, false, true, true, false, true];
    assert_eq!(bars_since_first(&flags), vec![1, 2, 1, 2, 3, 4]);
    assert_eq!(bars_since_first(&vec![false, false]), vec![1, 2]);
    assert_eq!(bars_since_first(&vec![]), Vec::<usize>::new());
}

#[test]
fn test_count_in_windows() {
    let flags = vec![true, false, true, true, false, true];
    assert_eq!(count_in_windows(&flags, 3), vec![0, 0, 2, 2, 2, 2]);
    assert_eq!(count_in_windows(&flags, 1), vec![1, 0, 1, 1, 0, 1]);
    assert_eq!(count_in_windows(&flags, 6), vec![0, 0, 0, 0, 0, 4]);
}

#[test]
fn test_cross_flags() {
    let above = vec![false, true, true, false, true];
    let at_or_below = vec![true, false, false, true, false];
    assert_eq!(
        cross_flags(&above, &at_or_below, 7),
        vec![false, true, false, false, true, false, false]
    );
    assert_eq!(cross_flags(&vec![true], &vec![false], 5), vec![false]);
    assert_eq!(cross_flags(&vec![], &vec![], 3), Vec::<bool>::new());
}

#[test]
fn test_lagged_index() {
    assert_eq!(lagged_index(5, 2), Some(3));
    assert_eq!(lagged_index(1, 2), None);
    assert_eq!(lagged_index(0, 0), Some(0));
}

#[test]
fn test_period_outcomes() {
    assert_eq!(period_outcome(Builtin::Ma, 0, 10), PeriodOutcome::Unchanged);
    assert_eq!(period_outcome(Builtin::Sum, 11, 10), PeriodOutcome::AllMissing);
    assert_eq!(period_outcome(Builtin::Sum, 10, 10), PeriodOutcome::Windows);
    assert_eq!(period_outcome(Builtin::Count, 0, 10), PeriodOutcome::AllZero);
    assert_eq!(period_outcome(Builtin::Count, 12, 10), PeriodOutcome::AllMissing);
    assert_eq!(period_outcome(Builtin::Hhv, 0, 10), PeriodOutcome::AllMissing);
    assert_eq!(period_outcome(Builtin::Sma, 5, 10), PeriodOutcome::Windows);
    assert_eq!(period_outcome(Builtin::Ref, 0, 10), PeriodOutcome::Windows);
}

#[test]
fn test_lengths_agree() {
    assert!(lengths_agree(&vec![5, 5, 5, 5, 5]));
    assert!(!lengths_agree(&vec![5, 5, 4, 5, 5]));
    assert!(lengths_agree(&vec![]));
}

#[test]
fn test_if_is_a_builtin() {
    assert_eq!(resolve_function("IF"), Ok(Builtin::If));
    assert_eq!(resolve_function("if"), Ok(Builtin::If));
    assert_eq!(Builtin::If.arity(), 3);
    assert!(matches!(single_plan("OUT: IF(C > O, H, L);"), Plan::Call(Builtin::If, _)));
    assert!(matches!(single_plan("if(C > O, 1, 0);"), Plan::Call(Builtin::If, _)));
    match single_plan("OUT: IF(C, H);") {
        Plan::Fail(args, message) => {
            assert_eq!(args.len(), 2);
            assert_eq!(
                message,
                "Runtime Error: IF function requires 3 arguments (condition, value_if_true, value_if_false)."
            );
        }
        other => panic!("unexpected plan {:?}", other),
    }
}
