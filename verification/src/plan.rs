//! Checking a formula before evaluation: every variable reference and
//! function call is resolved, in the order evaluation meets them.
use vstd::prelude::*;
use vstd::string::StringExecFns;
use crate::ast::{
    BinaryOperator, Expr, Formula, LiteralValue, PlotStyle, SpecExpr, SpecStatement, Statement,
    UnaryOperator, copy_styles, lemma_models_len, models, statement_models, style_names,
};
use crate::builtins::{Builtin, arity_msg, resolve_function, spec_arity, spec_resolve_function};
use crate::decimal::{Decimal, SpecDecimal};

verus! {

/// An evaluation plan for an expression.
#[derive(Debug)]
pub enum Plan {
    /// A number, repeated over every bar.
    Constant(Decimal),
    /// The series bound to a variable.
    Load(String),
    Unary(UnaryOperator, Box<Plan>),
    Binary(Box<Plan>, BinaryOperator, Box<Plan>),
    /// A built-in applied to the series of its arguments.
    Call(Builtin, Vec<Plan>),
    /// Evaluate these arguments, then fail with this message.
    Fail(Vec<Plan>, String),
}

/// The mathematical value of a plan.
pub enum SpecPlan {
    Constant(SpecDecimal),
    Load(Seq<char>),
    Unary(UnaryOperator, Box<SpecPlan>),
    Binary(Box<SpecPlan>, BinaryOperator, Box<SpecPlan>),
    Call(Builtin, Seq<SpecPlan>),
    Fail(Seq<SpecPlan>, Seq<char>),
}

/// The plan for one statement: bind a variable, or produce an output line
/// with a name and styles.
#[derive(Debug)]
pub enum StatementPlan {
    Assign(String, Plan),
    Output(String, Plan, Vec<PlotStyle>),
}

pub enum SpecStatementPlan {
    Assign(Seq<char>, SpecPlan),
    Output(Seq<char>, SpecPlan, Seq<Seq<char>>),
}

impl Plan {
    pub open spec fn model(self) -> SpecPlan
        decreases self,
    {
        match self {
            Plan::Constant(d) => SpecPlan::Constant(d@),
            Plan::Load(n) => SpecPlan::Load(n@),
            Plan::Unary(op, p) => SpecPlan::Unary(op, Box::new(p.model())),
            Plan::Binary(l, op, r) => SpecPlan::Binary(Box::new(l.model()), op, Box::new(r.model())),
            Plan::Call(b, args) => SpecPlan::Call(b, plan_models(args@)),
            Plan::Fail(args, m) => SpecPlan::Fail(plan_models(args@), m@),
        }
    }
}

pub open spec fn plan_models(s: Seq<Plan>) -> Seq<SpecPlan>
    decreases s,
{
    if s.len() == 0 {
        Seq::empty()
    } else {
        plan_models(s.drop_last()).push(s.last().model())
    }
}

impl StatementPlan {
    pub open spec fn model(self) -> SpecStatementPlan {
        match self {
            StatementPlan::Assign(n, p) => SpecStatementPlan::Assign(n@, p.model()),
            StatementPlan::Output(n, p, st) => SpecStatementPlan::Output(
                n@,
                p.model(),
                style_names(st@),
            ),
        }
    }
}

pub open spec fn statement_plan_models(s: Seq<StatementPlan>) -> Seq<SpecStatementPlan> {
    s.map_values(|p: StatementPlan| p.model())
}

/// The message for a reference to a variable that is not bound.
pub open spec fn undefined_variable_msg(name: Seq<char>) -> Seq<char> {
    "Runtime Error: Undefined variable '"@ + name + "'"@
}

/// The plan for an expression, given the variables bound when it is
/// evaluated. A variable that is not bound fails; a call evaluates its
/// arguments and then applies the built-in its name resolves to, or fails
/// when the name resolves to none or the built-in takes another number of
/// arguments. Parentheses only group.
pub open spec fn spec_plan(e: SpecExpr, names: Seq<Seq<char>>) -> SpecPlan
    decreases e,
{
    match e {
        SpecExpr::Literal(d) => SpecPlan::Constant(d),
        SpecExpr::Variable(n) => if names.contains(n) {
            SpecPlan::Load(n)
        } else {
            SpecPlan::Fail(Seq::empty(), undefined_variable_msg(n))
        },
        SpecExpr::Unary(op, x) => SpecPlan::Unary(op, Box::new(spec_plan(*x, names))),
        SpecExpr::Binary(l, op, r) => SpecPlan::Binary(
            Box::new(spec_plan(*l, names)),
            op,
            Box::new(spec_plan(*r, names)),
        ),
        SpecExpr::Call(name, args) => {
            let ps = spec_plan_seq(args, names);
            match spec_resolve_function(name) {
                Ok(b) => if args.len() == spec_arity(b) {
                    SpecPlan::Call(b, ps)
                } else {
                    SpecPlan::Fail(ps, arity_msg(b))
                },
                Err(m) => SpecPlan::Fail(ps, m),
            }
        },
        SpecExpr::Grouped(x) => spec_plan(*x, names),
    }
}

/// The plans for the arguments of a call, in order.
pub open spec fn spec_plan_seq(args: Seq<SpecExpr>, names: Seq<Seq<char>>) -> Seq<SpecPlan>
    decreases args,
{
    if args.len() == 0 {
        Seq::empty()
    } else {
        spec_plan_seq(args.drop_last(), names).push(spec_plan(args.last(), names))
    }
}

/// The name of an output line: the one given, or `Unnamed Output`.
pub open spec fn output_name(name: Option<Seq<char>>) -> Seq<char> {
    match name {
        Some(n) => n,
        None => "Unnamed Output"@,
    }
}

/// The plans for statements run in order, given the variables bound before
/// them; each assignment binds its variable for the statements after it.
pub open spec fn spec_plan_statements(sts: Seq<SpecStatement>, names: Seq<Seq<char>>) -> Seq<
    SpecStatementPlan,
>
    decreases sts.len(),
{
    if sts.len() == 0 {
        Seq::empty()
    } else {
        match sts[0] {
            SpecStatement::Assignment(v, e) => seq![
                SpecStatementPlan::Assign(v, spec_plan(e, names)),
            ] + spec_plan_statements(sts.drop_first(), names.push(v)),
            SpecStatement::Output(n, e, st) => seq![
                SpecStatementPlan::Output(output_name(n), spec_plan(e, names), st),
            ] + spec_plan_statements(sts.drop_first(), names),
        }
    }
}

/// The names of a list of variables.
pub open spec fn name_views(names: Seq<String>) -> Seq<Seq<char>> {
    names.map_values(|s: String| s@)
}

fn contains_name(names: &Vec<String>, name: &String) -> (r: bool)
    ensures
        r == name_views(names@).contains(name@),
{
    let mut i: usize = 0;
    while i < names.len()
        invariant
            i <= names.len(),
            forall|j: int| 0 <= j < i ==> names@[j]@ != name@,
        decreases names.len() - i,
    {
        if names[i] == *name {
            assert(name_views(names@)[i as int] == name@);
            return true;
        }
        i = i + 1;
    }
    assert forall|j: int| 0 <= j < name_views(names@).len() implies name_views(names@)[j] != name@ by {
        assert(name_views(names@)[j] == names@[j]@);
    }
    false
}

/// The plan for an expression, given the variables bound when it is
/// evaluated (see `spec_plan`).
#[verifier::loop_isolation(false)]
pub fn plan_expr(e: &Expr, names: &Vec<String>) -> (p: Plan)
    ensures
        p.model() == spec_plan(e.model(), name_views(names@)),
    decreases e,
{
    match e {
        Expr::Literal(LiteralValue::Number(d)) => {
            let c = d.clone();
            assert(c@ == d@);
            Plan::Constant(c)
        },
        Expr::Variable(n) => {
            if contains_name(names, n) {
                Plan::Load(n.clone())
            } else {
                let mut m = String::new();
                m.append("Runtime Error: Undefined variable '");
                m.append(n.as_str());
                m.append("'");
                let p = Plan::Fail(Vec::new(), m);
                assert(plan_models(Seq::<Plan>::empty()) =~= Seq::<SpecPlan>::empty());
                assert(p.model() == spec_plan(e.model(), name_views(names@)));
                p
            }
        },
        Expr::UnaryOp { operator, operand } => Plan::Unary(*operator, Box::new(plan_expr(operand, names))),
        Expr::BinaryOp { left, operator, right } => Plan::Binary(
            Box::new(plan_expr(left, names)),
            *operator,
            Box::new(plan_expr(right, names)),
        ),
        Expr::FunctionCall { name, args } => {
            let mut ps: Vec<Plan> = Vec::new();
            let mut i: usize = 0;
            while i < args.len()
                invariant
                    i <= args.len(),
                    plan_models(ps@) == spec_plan_seq(models(args@.take(i as int)), name_views(names@)),
                decreases args.len() - i,
            {
                proof {
                    let fa = (*e)->FunctionCall_args;
                    assert(fa == *args);
                    assert(decreases_to!(*e => fa));
                    assert(decreases_to!(fa => fa@));
                    assert(decreases_to!(fa@ => fa@[i as int]));
                }
                let p = plan_expr(&args[i], names);
                let ghost before = ps@;
                ps.push(p);
                proof {
                    assert(ps@.drop_last() =~= before);
                    assert(plan_models(ps@) == plan_models(before).push(p.model()));
                    assert(args@.take(i + 1).drop_last() =~= args@.take(i as int));
                    let ms = models(args@.take(i as int));
                    let m = args@[i as int].model();
                    assert(models(args@.take(i + 1)) == ms.push(m));
                    assert(ms.push(m).drop_last() =~= ms);
                    assert(spec_plan_seq(ms.push(m), name_views(names@)) == spec_plan_seq(
                        ms,
                        name_views(names@),
                    ).push(spec_plan(m, name_views(names@))));
                }
                i = i + 1;
            }
            assert(args@.take(args.len() as int) =~= args@);
            proof {
                lemma_models_len(args@);
            }
            match resolve_function(name.as_str()) {
                Ok(b) => {
                    if args.len() == b.arity() {
                        Plan::Call(b, ps)
                    } else {
                        Plan::Fail(ps, b.arity_error())
                    }
                },
                Err(m) => Plan::Fail(ps, m),
            }
        },
        Expr::Grouped(inner) => plan_expr(inner, names),
    }
}

} // verus!

verus! {

/// The plans for the statements of a formula, run in order when the
/// variables `bound` are already bound (see `spec_plan_statements`).
pub fn plan_formula(formula: &Formula, bound: &Vec<String>) -> (plans: Vec<StatementPlan>)
    ensures
        statement_plan_models(plans@) == spec_plan_statements(formula.model(), name_views(bound@)),
{
    let mut names: Vec<String> = bound.clone();
    assert(names@ =~= bound@);
    let ghost all = formula.model();
    let sts = &formula.statements;
    let mut plans: Vec<StatementPlan> = Vec::new();
    let mut i: usize = 0;
    assert(all.skip(0) =~= all);
    while i < sts.len()
        invariant
            i <= sts.len(),
            all == statement_models(sts@),
            all.len() == sts.len(),
            statement_plan_models(plans@) + spec_plan_statements(all.skip(i as int), name_views(names@))
                == spec_plan_statements(all, name_views(bound@)),
        decreases sts.len() - i,
    {
        let ghost rest = all.skip(i as int);
        let ghost before = plans@;
        let ghost before_names = name_views(names@);
        assert(rest[0] == sts@[i as int].model());
        assert(rest.drop_first() =~= all.skip(i + 1));
        match &sts[i] {
            Statement::Assignment { variable, value } => {
                let p = plan_expr(value, &names);
                plans.push(StatementPlan::Assign(variable.clone(), p));
                names.push(variable.clone());
                assert(name_views(names@) =~= before_names.push(variable@));
            },
            Statement::Output { name, expr, styles } => {
                let p = plan_expr(expr, &names);
                let n = match name {
                    Some(n) => n.clone(),
                    None => "Unnamed Output".to_string(),
                };
                plans.push(StatementPlan::Output(n, p, copy_styles(styles)));
            },
        }
        assert(statement_plan_models(plans@) =~= statement_plan_models(before).push(
            plans@.last().model(),
        ));
        assert(statement_plan_models(plans@) + spec_plan_statements(all.skip(i + 1), name_views(names@))
            =~= statement_plan_models(before) + spec_plan_statements(rest, before_names));
        i = i + 1;
    }
    assert(all.skip(sts.len() as int) =~= Seq::<SpecStatement>::empty());
    assert(statement_plan_models(plans@) + Seq::<SpecStatementPlan>::empty() =~= statement_plan_models(plans@));
    plans
}

} // verus!

verus! {

/// Every variable that the plan `p` loads is among `names`.
pub open spec fn loads_bound(p: SpecPlan, names: Seq<Seq<char>>) -> bool
    decreases p,
{
    match p {
        SpecPlan::Constant(_) => true,
        SpecPlan::Load(n) => names.contains(n),
        SpecPlan::Unary(_, x) => loads_bound(*x, names),
        SpecPlan::Binary(l, _, r) => loads_bound(*l, names) && loads_bound(*r, names),
        SpecPlan::Call(_, args) => all_loads_bound(args, names),
        SpecPlan::Fail(args, _) => all_loads_bound(args, names),
    }
}

pub open spec fn all_loads_bound(ps: Seq<SpecPlan>, names: Seq<Seq<char>>) -> bool
    decreases ps,
{
    if ps.len() == 0 {
        true
    } else {
        all_loads_bound(ps.drop_last(), names) && loads_bound(ps.last(), names)
    }
}

/// A plan only loads variables that are bound where it runs: references
/// to any other variable became failures when the plan was made.
pub proof fn lemma_plan_loads_only_bound(e: SpecExpr, names: Seq<Seq<char>>)
    ensures
        loads_bound(spec_plan(e, names), names),
    decreases e,
{
    match e {
        SpecExpr::Literal(_) => {},
        SpecExpr::Variable(_) => {
            assert(all_loads_bound(Seq::<SpecPlan>::empty(), names));
        },
        SpecExpr::Unary(_, x) => lemma_plan_loads_only_bound(*x, names),
        SpecExpr::Binary(l, _, r) => {
            lemma_plan_loads_only_bound(*l, names);
            lemma_plan_loads_only_bound(*r, names);
        },
        SpecExpr::Call(name, args) => {
            lemma_plan_seq_loads_only_bound(args, names);
            let ps = spec_plan_seq(args, names);
            assert(all_loads_bound(ps, names));
            match spec_resolve_function(name) {
                Ok(b) => {
                    if args.len() == spec_arity(b) {
                        assert(spec_plan(e, names) == SpecPlan::Call(b, ps));
                    } else {
                        assert(spec_plan(e, names) == SpecPlan::Fail(ps, arity_msg(b)));
                    }
                },
                Err(m) => {
                    assert(spec_plan(e, names) == SpecPlan::Fail(ps, m));
                },
            }
        },
        SpecExpr::Grouped(x) => lemma_plan_loads_only_bound(*x, names),
    }
}

pub proof fn lemma_plan_seq_loads_only_bound(args: Seq<SpecExpr>, names: Seq<Seq<char>>)
    ensures
        all_loads_bound(spec_plan_seq(args, names), names),
    decreases args,
{
    if args.len() > 0 {
        lemma_plan_seq_loads_only_bound(args.drop_last(), names);
        lemma_plan_loads_only_bound(args.last(), names);
        let ps = spec_plan_seq(args, names);
        assert(ps.drop_last() =~= spec_plan_seq(args.drop_last(), names));
    }
}

/// The variables bound after the first `k` statements: `names`, and the
/// variable of each assignment among them.
pub open spec fn names_after(sts: Seq<SpecStatement>, names: Seq<Seq<char>>, k: int) -> Seq<
    Seq<char>,
>
    decreases k,
{
    if k <= 0 || sts.len() == 0 {
        names
    } else {
        match sts[0] {
            SpecStatement::Assignment(v, _) => names_after(sts.drop_first(), names.push(v), k - 1),
            SpecStatement::Output(..) => names_after(sts.drop_first(), names, k - 1),
        }
    }
}

/// The expression plan of a statement plan.
pub open spec fn statement_expr_plan(p: SpecStatementPlan) -> SpecPlan {
    match p {
        SpecStatementPlan::Assign(_, e) => e,
        SpecStatementPlan::Output(_, e, _) => e,
    }
}

/// When statements run in order, each one only loads variables that are
/// bound by then: the ones bound at the start, or assigned by an earlier
/// statement.
pub proof fn lemma_statements_load_only_bound(
    sts: Seq<SpecStatement>,
    names: Seq<Seq<char>>,
    k: int,
)
    requires
        0 <= k < sts.len(),
    ensures
        spec_plan_statements(sts, names).len() == sts.len(),
        loads_bound(statement_expr_plan(spec_plan_statements(sts, names)[k]), names_after(sts, names, k)),
    decreases sts.len(),
{
    lemma_plan_statements_len(sts, names);
    let rest = sts.drop_first();
    match sts[0] {
        SpecStatement::Assignment(v, e) => {
            if k == 0 {
                lemma_plan_loads_only_bound(e, names);
            } else {
                lemma_statements_load_only_bound(rest, names.push(v), k - 1);
                assert(spec_plan_statements(sts, names)[k] == spec_plan_statements(rest, names.push(v))[k - 1]);
            }
        },
        SpecStatement::Output(_, e, _) => {
            if k == 0 {
                lemma_plan_loads_only_bound(e, names);
            } else {
                lemma_statements_load_only_bound(rest, names, k - 1);
                assert(spec_plan_statements(sts, names)[k] == spec_plan_statements(rest, names)[k - 1]);
            }
        },
    }
}

proof fn lemma_plan_statements_len(sts: Seq<SpecStatement>, names: Seq<Seq<char>>)
    ensures
        spec_plan_statements(sts, names).len() == sts.len(),
    decreases sts.len(),
{
    if sts.len() > 0 {
        match sts[0] {
            SpecStatement::Assignment(v, _) => lemma_plan_statements_len(sts.drop_first(), names.push(v)),
            SpecStatement::Output(..) => lemma_plan_statements_len(sts.drop_first(), names),
        }
    }
}

} // verus!

verus! {

// ---------------------------------------------------------------------------
// Plans apply the operators that the formula is written with.
// ---------------------------------------------------------------------------

/// A plan applies the operators of its expression: the plan of `op x` is
/// `op` applied to the plan of `x`, and the plan of `l op r` is `op` applied
/// to the plans of `l` and `r`, whichever variables are bound.
pub proof fn lemma_plan_applies_the_operators(
    op: UnaryOperator,
    x: SpecExpr,
    l: SpecExpr,
    bop: BinaryOperator,
    r: SpecExpr,
    names: Seq<Seq<char>>,
)
    ensures
        spec_plan(SpecExpr::Unary(op, Box::new(x)), names) matches SpecPlan::Unary(o, p) && o == op
            && *p == spec_plan(x, names),
        spec_plan(SpecExpr::Binary(Box::new(l), bop, Box::new(r)), names) matches SpecPlan::Binary(
            pl,
            o,
            pr,
        ) && o == bop && *pl == spec_plan(l, names) && *pr == spec_plan(r, names),
{
}

/// From text to plan: `- a` is planned as a negation and `NOT a` as a
/// logical not, of the plan of `a`.
pub proof fn lemma_prefix_operators_are_planned(
    p: crate::token::SpecToken,
    a: crate::token::SpecToken,
    names: Seq<Seq<char>>,
)
    requires
        p.kind == crate::token::TokenType::Minus || p.kind == crate::token::TokenType::Not,
        crate::parser_laws::is_name(a),
    ensures
        crate::parser::pexpr(seq![p, a], 0, 0) matches Ok((e, _)) && spec_plan(e, names) matches SpecPlan::Unary(
            o,
            x,
        ) && *x == spec_plan(SpecExpr::Variable(a.lexeme), names) && o == (if p.kind
            == crate::token::TokenType::Minus {
            UnaryOperator::Neg
        } else {
            UnaryOperator::Not
        }),
{
    crate::parser_laws::lemma_prefix_operators(p, a);
}

/// From text to plan: in `a o1 b o2 c`, the operations are planned with the
/// operators that `o1` and `o2` are written for, grouped by the operator
/// table (see `lemma_operator_precedence`).
pub proof fn lemma_infix_operators_are_planned(
    a: crate::token::SpecToken,
    o1: crate::token::SpecToken,
    b: crate::token::SpecToken,
    o2: crate::token::SpecToken,
    c: crate::token::SpecToken,
    names: Seq<Seq<char>>,
)
    requires
        crate::parser_laws::is_name(a),
        crate::parser_laws::is_name(b),
        crate::parser_laws::is_name(c),
        crate::parser_laws::precedence_rank(o1.kind) > 0,
        crate::parser_laws::precedence_rank(o2.kind) > 0,
    ensures
        ({
            let pa = spec_plan(SpecExpr::Variable(a.lexeme), names);
            let pb = spec_plan(SpecExpr::Variable(b.lexeme), names);
            let pc = spec_plan(SpecExpr::Variable(c.lexeme), names);
            let op1 = crate::parser_laws::written_operator(o1.kind);
            let op2 = crate::parser_laws::written_operator(o2.kind);
            crate::parser::pexpr(seq![a, o1, b, o2, c], 0, 0) matches Ok((e, _)) && spec_plan(
                e,
                names,
            ) == if crate::parser_laws::precedence_rank(o2.kind)
                > crate::parser_laws::precedence_rank(o1.kind) {
                SpecPlan::Binary(
                    Box::new(pa),
                    op1,
                    Box::new(SpecPlan::Binary(Box::new(pb), op2, Box::new(pc))),
                )
            } else {
                SpecPlan::Binary(
                    Box::new(SpecPlan::Binary(Box::new(pa), op1, Box::new(pb))),
                    op2,
                    Box::new(pc),
                )
            }
        }),
{
    crate::parser_laws::lemma_operator_precedence(a, o1, b, o2, c);
    let va = SpecExpr::Variable(a.lexeme);
    let vb = SpecExpr::Variable(b.lexeme);
    let vc = SpecExpr::Variable(c.lexeme);
    let op1 = crate::parser_laws::written_operator(o1.kind);
    let op2 = crate::parser_laws::written_operator(o2.kind);
    let bc = SpecExpr::Binary(Box::new(vb), op2, Box::new(vc));
    let ab = SpecExpr::Binary(Box::new(va), op1, Box::new(vb));
    assert(spec_plan(bc, names) == SpecPlan::Binary(
        Box::new(spec_plan(vb, names)),
        op2,
        Box::new(spec_plan(vc, names)),
    ));
    assert(spec_plan(ab, names) == SpecPlan::Binary(
        Box::new(spec_plan(va, names)),
        op1,
        Box::new(spec_plan(vb, names)),
    ));
}

} // verus!
