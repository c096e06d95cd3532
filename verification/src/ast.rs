//! The syntax tree of a formula.
use vstd::prelude::*;
use crate::decimal::{Decimal, SpecDecimal};

verus! {

/// An expression: something that computes a series.
#[derive(Debug, PartialEq)]
pub enum Expr {
    Literal(LiteralValue),
    Variable(String),
    UnaryOp { operator: UnaryOperator, operand: Box<Expr> },
    BinaryOp { left: Box<Expr>, operator: BinaryOperator, right: Box<Expr> },
    FunctionCall { name: String, args: Vec<Expr> },
    Grouped(Box<Expr>),
}

/// A literal: a number, kept as the exact decimal written in the formula.
#[derive(Debug, Clone, PartialEq)]
pub enum LiteralValue {
    Number(Decimal),
}

#[derive(Debug, Clone, Copy, PartialEq, Eq, Hash, Structural)]
pub enum UnaryOperator {
    Not,
    Neg,
}

#[derive(Debug, Clone, Copy, PartialEq, Eq, Hash, Structural)]
pub enum BinaryOperator {
    Add,
    Sub,
    Mul,
    Div,
    Gt,
    Lt,
    GtEq,
    LtEq,
    Eq,
    NotEq,
    And,
    Or,
}

/// A statement: an assignment `NAME := expr`, or an output line
/// `[NAME:] expr [, STYLE ...]`.
#[derive(Debug, PartialEq)]
pub enum Statement {
    Assignment { variable: String, value: Expr },
    Output { name: Option<String>, expr: Expr, styles: Vec<PlotStyle> },
}

/// A plotting style named after an output expression, such as `COLORRED`.
#[derive(Debug, Clone, PartialEq, Eq)]
pub struct PlotStyle(pub String);

/// A formula: its statements in order.
#[derive(Debug, PartialEq)]
pub struct Formula {
    pub statements: Vec<Statement>,
}

/// The mathematical value of an expression.
pub enum SpecExpr {
    Literal(SpecDecimal),
    Variable(Seq<char>),
    Unary(UnaryOperator, Box<SpecExpr>),
    Binary(Box<SpecExpr>, BinaryOperator, Box<SpecExpr>),
    Call(Seq<char>, Seq<SpecExpr>),
    Grouped(Box<SpecExpr>),
}

/// The mathematical value of a statement.
pub enum SpecStatement {
    Assignment(Seq<char>, SpecExpr),
    Output(Option<Seq<char>>, SpecExpr, Seq<Seq<char>>),
}

impl Expr {
    pub open spec fn model(self) -> SpecExpr
        decreases self,
    {
        match self {
            Expr::Literal(LiteralValue::Number(d)) => SpecExpr::Literal(d@),
            Expr::Variable(name) => SpecExpr::Variable(name@),
            Expr::UnaryOp { operator, operand } => SpecExpr::Unary(
                operator,
                Box::new(operand.model()),
            ),
            Expr::BinaryOp { left, operator, right } => SpecExpr::Binary(
                Box::new(left.model()),
                operator,
                Box::new(right.model()),
            ),
            Expr::FunctionCall { name, args } => SpecExpr::Call(name@, models(args@)),
            Expr::Grouped(inner) => SpecExpr::Grouped(Box::new(inner.model())),
        }
    }
}

/// The values of a sequence of expressions.
pub open spec fn models(s: Seq<Expr>) -> Seq<SpecExpr>
    decreases s,
{
    if s.len() == 0 {
        Seq::empty()
    } else {
        models(s.drop_last()).push(s.last().model())
    }
}

/// The names of plotting styles.
pub open spec fn style_names(s: Seq<PlotStyle>) -> Seq<Seq<char>> {
    s.map_values(|p: PlotStyle| p.0@)
}

impl Statement {
    pub open spec fn model(self) -> SpecStatement {
        match self {
            Statement::Assignment { variable, value } => SpecStatement::Assignment(
                variable@,
                value.model(),
            ),
            Statement::Output { name, expr, styles } => SpecStatement::Output(
                match name {
                    Some(n) => Some(n@),
                    None => None,
                },
                expr.model(),
                style_names(styles@),
            ),
        }
    }
}

/// The values of a sequence of statements.
pub open spec fn statement_models(s: Seq<Statement>) -> Seq<SpecStatement> {
    s.map_values(|st: Statement| st.model())
}

impl Formula {
    pub open spec fn model(self) -> Seq<SpecStatement> {
        statement_models(self.statements@)
    }
}

/// A copy of an expression.
pub fn copy_expr(e: &Expr) -> (r: Expr)
    ensures
        r.model() == e.model(),
    decreases e,
{
    match e {
        Expr::Literal(LiteralValue::Number(d)) => Expr::Literal(LiteralValue::Number(d.clone())),
        Expr::Variable(n) => Expr::Variable(n.clone()),
        Expr::UnaryOp { operator, operand } => Expr::UnaryOp {
            operator: *operator,
            operand: Box::new(copy_expr(operand)),
        },
        Expr::BinaryOp { left, operator, right } => Expr::BinaryOp {
            left: Box::new(copy_expr(left)),
            operator: *operator,
            right: Box::new(copy_expr(right)),
        },
        Expr::FunctionCall { name, args } => {
            let mut copied: Vec<Expr> = Vec::new();
            let mut i: usize = 0;
            while i < args.len()
                invariant
                    *e == (Expr::FunctionCall { name: *name, args: *args }),
                    i <= args.len(),
                    models(copied@) == models(args@.take(i as int)),
                decreases args.len() - i,
            {
                proof {
                    let fa = (*e)->FunctionCall_args;
                    assert(fa == *args);
                    assert(decreases_to!(*e => fa));
                    assert(decreases_to!(fa => fa@));
                    assert(decreases_to!(fa@ => fa@[i as int]));
                }
                let c = copy_expr(&args[i]);
                let ghost before = copied@;
                copied.push(c);
                proof {
                    lemma_models_push(before, c);
                    assert(args@.take(i + 1).drop_last() =~= args@.take(i as int));
                }
                i = i + 1;
            }
            assert(args@.take(args.len() as int) =~= args@);
            Expr::FunctionCall { name: name.clone(), args: copied }
        },
        Expr::Grouped(inner) => Expr::Grouped(Box::new(copy_expr(inner))),
    }
}

impl Clone for Expr {
    fn clone(&self) -> (r: Self)
        ensures
            r.model() == self.model(),
    {
        copy_expr(self)
    }
}

/// A copy of a list of plotting styles.
pub fn copy_styles(styles: &Vec<PlotStyle>) -> (r: Vec<PlotStyle>)
    ensures
        style_names(r@) == style_names(styles@),
{
    let mut r: Vec<PlotStyle> = Vec::new();
    let mut i: usize = 0;
    while i < styles.len()
        invariant
            i <= styles.len(),
            style_names(r@) == style_names(styles@.take(i as int)),
        decreases styles.len() - i,
    {
        let ghost before = r@;
        r.push(PlotStyle(styles[i].0.clone()));
        assert(style_names(r@) =~= style_names(before).push(styles@[i as int].0@));
        assert(style_names(styles@.take(i + 1)) =~= style_names(styles@.take(i as int)).push(
            styles@[i as int].0@,
        ));
        i = i + 1;
    }
    assert(styles@.take(styles.len() as int) =~= styles@);
    r
}

impl Clone for Statement {
    fn clone(&self) -> (r: Self)
        ensures
            r.model() == self.model(),
    {
        match self {
            Statement::Assignment { variable, value } => Statement::Assignment {
                variable: variable.clone(),
                value: value.clone(),
            },
            Statement::Output { name, expr, styles } => Statement::Output {
                name: match name {
                    Some(n) => Some(n.clone()),
                    None => None,
                },
                expr: expr.clone(),
                styles: copy_styles(styles),
            },
        }
    }
}

impl Clone for Formula {
    fn clone(&self) -> (r: Self)
        ensures
            r.model() == self.model(),
    {
        let mut statements: Vec<Statement> = Vec::new();
        let mut i: usize = 0;
        while i < self.statements.len()
            invariant
                i <= self.statements.len(),
                statement_models(statements@) == statement_models(self.statements@.take(i as int)),
            decreases self.statements.len() - i,
        {
            let ghost before = statements@;
            let c = self.statements[i].clone();
            statements.push(c);
            assert(statement_models(statements@) =~= statement_models(before).push(c.model()));
            assert(statement_models(self.statements@.take(i + 1)) =~= statement_models(
                self.statements@.take(i as int),
            ).push(self.statements@[i as int].model()));
            i = i + 1;
        }
        assert(self.statements@.take(self.statements.len() as int) =~= self.statements@);
        Formula { statements }
    }
}

pub proof fn lemma_models_push(s: Seq<Expr>, e: Expr)
    ensures
        models(s.push(e)) == models(s).push(e.model()),
        models(s).len() == s.len(),
{
    assert(s.push(e).drop_last() =~= s);
    lemma_models_len(s);
}

pub proof fn lemma_models_len(s: Seq<Expr>)
    ensures
        models(s).len() == s.len(),
    decreases s.len(),
{
    if s.len() > 0 {
        lemma_models_len(s.drop_last());
    }
}

} // verus!
