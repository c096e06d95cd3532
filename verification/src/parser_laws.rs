//! Laws of the grammar: how operators group, and what the parser can rely
//! on from the lexer.
use vstd::prelude::*;
use crate::ast::{BinaryOperator, SpecExpr, SpecStatement, UnaryOperator};
use crate::decimal::{lemma_number_text_parses, spec_parse_decimal};
use crate::lexer::{lemma_next_token_facts, spec_next_token, spec_tokens};
use crate::parser::{
    binary_op_of, cur_tok, infix_power, kind_is, pargs, pcall, pexpr, pformula, pinfix, pprefix,
    prefix_power, pstatement, pstyles, spec_parse_formula,
    skip_semicolons, starts_expression, statement_start_msg, unary_op_of,
    end_in_expression_msg, unexpected_in_expression_msg,
};
use crate::token::{SpecToken, TokenType};

verus! {

/// Every `Number` token that the lexer returns has a value, so the parser
/// never reports an invalid number for input that came through the lexer.
pub proof fn lemma_lexed_numbers_have_values(s: Seq<char>, p: int)
    requires
        0 <= p <= s.len(),
    ensures
        forall|i: int|
            0 <= i < spec_tokens(s, p).len() && (#[trigger] spec_tokens(s, p)[i]).kind
                == TokenType::Number ==> spec_parse_decimal(spec_tokens(s, p)[i].lexeme).is_some(),
    decreases s.len() - p,
{
    let (t, e) = spec_next_token(s, p);
    lemma_next_token_facts(s, p);
    if t.kind != TokenType::Eof {
        lemma_lexed_numbers_have_values(s, e);
        let rest = spec_tokens(s, e);
        assert(spec_tokens(s, p) == seq![t] + rest);
        assert forall|i: int|
            0 <= i < spec_tokens(s, p).len() && (#[trigger] spec_tokens(s, p)[i]).kind
                == TokenType::Number implies spec_parse_decimal(
            spec_tokens(s, p)[i].lexeme,
        ).is_some() by {
            if i == 0 {
                lemma_number_text_parses(t.lexeme);
            } else {
                assert(spec_tokens(s, p)[i] == rest[i - 1]);
            }
        }
    }
}

/// A token that stands for a variable operand.
pub open spec fn is_name(t: SpecToken) -> bool {
    t.kind == TokenType::Identifier
}

/// A token that stands for an infix operator.
pub open spec fn is_infix(t: SpecToken) -> bool {
    infix_power(t.kind).is_some()
}

/// The left binding power of an infix operator token.
pub open spec fn left_power(t: SpecToken) -> int {
    infix_power(t.kind).unwrap().0
}

pub open spec fn var(t: SpecToken) -> SpecExpr {
    SpecExpr::Variable(t.lexeme)
}

pub open spec fn bin(l: SpecExpr, op: SpecToken, r: SpecExpr) -> SpecExpr {
    SpecExpr::Binary(Box::new(l), binary_op_of(op.kind), Box::new(r))
}

/// Precedence and associativity: in `a o1 b o2 c`, the second operator
/// takes `b` as its left operand when it binds more tightly than the first,
/// and otherwise the first operator's expression becomes its left operand;
/// so operators of the same precedence group from the left.
pub proof fn lemma_two_operators_group_by_precedence(
    a: SpecToken,
    o1: SpecToken,
    b: SpecToken,
    o2: SpecToken,
    c: SpecToken,
)
    requires
        is_name(a),
        is_infix(o1),
        is_name(b),
        is_infix(o2),
        is_name(c),
    ensures
        pexpr(seq![a, o1, b, o2, c], 0, 0) == Ok::<(SpecExpr, int), Seq<char>>(
            (
                if left_power(o2) > left_power(o1) {
                    bin(var(a), o1, bin(var(b), o2, var(c)))
                } else {
                    bin(bin(var(a), o1, var(b)), o2, var(c))
                },
                5,
            ),
        ),
{
    let toks = seq![a, o1, b, o2, c];
    let (l1, r1) = infix_power(o1.kind).unwrap();
    let (l2, r2) = infix_power(o2.kind).unwrap();
    assert(r1 == l1 + 1 && r2 == l2 + 1);
    assert(toks[0] == a && toks[1] == o1 && toks[2] == b && toks[3] == o2 && toks[4] == c);
    assert(!kind_is(toks, 1, TokenType::LParen));
    assert(!kind_is(toks, 3, TokenType::LParen));
    assert(pprefix(toks, 0) == Ok::<(SpecExpr, int), Seq<char>>((var(a), 1)));
    assert(pprefix(toks, 2) == Ok::<(SpecExpr, int), Seq<char>>((var(b), 3)));
    assert(pprefix(toks, 4) == Ok::<(SpecExpr, int), Seq<char>>((var(c), 5)));
    assert(cur_tok(toks, 5) == None::<SpecToken>);
    assert(pexpr(toks, 4, r2) == Ok::<(SpecExpr, int), Seq<char>>((var(c), 5)));
    assert(pexpr(toks, 4, r1) == Ok::<(SpecExpr, int), Seq<char>>((var(c), 5)));
    if l2 < r1 {
        assert(pinfix(toks, 3, r1, var(b)) == Ok::<(SpecExpr, int), Seq<char>>((var(b), 3)));
        assert(pexpr(toks, 2, r1) == Ok::<(SpecExpr, int), Seq<char>>((var(b), 3)));
        let ab = bin(var(a), o1, var(b));
        assert(pinfix(toks, 5, 0, bin(ab, o2, var(c))) == Ok::<(SpecExpr, int), Seq<char>>(
            (bin(ab, o2, var(c)), 5),
        ));
        assert(pinfix(toks, 3, 0, ab) == Ok::<(SpecExpr, int), Seq<char>>(
            (bin(ab, o2, var(c)), 5),
        ));
        assert(pinfix(toks, 1, 0, var(a)) == Ok::<(SpecExpr, int), Seq<char>>(
            (bin(ab, o2, var(c)), 5),
        ));
    } else {
        let bc = bin(var(b), o2, var(c));
        assert(pinfix(toks, 5, r1, bc) == Ok::<(SpecExpr, int), Seq<char>>((bc, 5)));
        assert(pinfix(toks, 3, r1, var(b)) == Ok::<(SpecExpr, int), Seq<char>>((bc, 5)));
        assert(pexpr(toks, 2, r1) == Ok::<(SpecExpr, int), Seq<char>>((bc, 5)));
        let abc = bin(var(a), o1, bc);
        assert(pinfix(toks, 5, 0, abc) == Ok::<(SpecExpr, int), Seq<char>>((abc, 5)));
        assert(pinfix(toks, 1, 0, var(a)) == Ok::<(SpecExpr, int), Seq<char>>((abc, 5)));
    }
}

} // verus!

verus! {

/// A prefix operator (`-` or `NOT`) in `p a o b` takes `a o b` as its
/// operand when `o` binds at least as tightly as the prefix operator, and
/// only `a` otherwise. So `-` (binding power 11) applies to `a` alone before
/// any infix operator, while `NOT` (5) applies to a whole comparison or sum
/// but not across `AND`/`OR`.
pub proof fn lemma_prefix_operator_scope(p: SpecToken, a: SpecToken, o: SpecToken, b: SpecToken)
    requires
        p.kind == TokenType::Minus || p.kind == TokenType::Not,
        is_name(a),
        is_infix(o),
        is_name(b),
    ensures
        pexpr(seq![p, a, o, b], 0, 0) == Ok::<(SpecExpr, int), Seq<char>>(
            (
                if left_power(o) >= prefix_power(p.kind) {
                    SpecExpr::Unary(unary_op_of(p.kind), Box::new(bin(var(a), o, var(b))))
                } else {
                    bin(SpecExpr::Unary(unary_op_of(p.kind), Box::new(var(a))), o, var(b))
                },
                4,
            ),
        ),
{
    let toks = seq![p, a, o, b];
    let (l, r) = infix_power(o.kind).unwrap();
    let pp = prefix_power(p.kind);
    assert(toks[0] == p && toks[1] == a && toks[2] == o && toks[3] == b);
    assert(!kind_is(toks, 2, TokenType::LParen));
    assert(pprefix(toks, 1) == Ok::<(SpecExpr, int), Seq<char>>((var(a), 2)));
    assert(pprefix(toks, 3) == Ok::<(SpecExpr, int), Seq<char>>((var(b), 4)));
    assert(cur_tok(toks, 4) == None::<SpecToken>);
    assert(pexpr(toks, 3, r) == Ok::<(SpecExpr, int), Seq<char>>((var(b), 4)));
    if l >= pp {
        let ab = bin(var(a), o, var(b));
        assert(pinfix(toks, 4, pp, ab) == Ok::<(SpecExpr, int), Seq<char>>((ab, 4)));
        assert(pinfix(toks, 2, pp, var(a)) == Ok::<(SpecExpr, int), Seq<char>>((ab, 4)));
        assert(pexpr(toks, 1, pp) == Ok::<(SpecExpr, int), Seq<char>>((ab, 4)));
        let u = SpecExpr::Unary(unary_op_of(p.kind), Box::new(ab));
        assert(pprefix(toks, 0) == Ok::<(SpecExpr, int), Seq<char>>((u, 4)));
        assert(pinfix(toks, 4, 0, u) == Ok::<(SpecExpr, int), Seq<char>>((u, 4)));
    } else {
        assert(pinfix(toks, 2, pp, var(a)) == Ok::<(SpecExpr, int), Seq<char>>((var(a), 2)));
        assert(pexpr(toks, 1, pp) == Ok::<(SpecExpr, int), Seq<char>>((var(a), 2)));
        let u = SpecExpr::Unary(unary_op_of(p.kind), Box::new(var(a)));
        assert(pprefix(toks, 0) == Ok::<(SpecExpr, int), Seq<char>>((u, 2)));
        let ub = bin(u, o, var(b));
        assert(pinfix(toks, 4, 0, ub) == Ok::<(SpecExpr, int), Seq<char>>((ub, 4)));
        assert(pinfix(toks, 2, 0, u) == Ok::<(SpecExpr, int), Seq<char>>((ub, 4)));
    }
}

/// Parentheses override precedence: in `(a o1 b) o2 c` the parenthesised
/// expression is the left operand of `o2`, whatever the two operators are.
pub proof fn lemma_parentheses_group(
    lp: SpecToken,
    a: SpecToken,
    o1: SpecToken,
    b: SpecToken,
    rp: SpecToken,
    o2: SpecToken,
    c: SpecToken,
)
    requires
        lp.kind == TokenType::LParen,
        is_name(a),
        is_infix(o1),
        is_name(b),
        rp.kind == TokenType::RParen,
        is_infix(o2),
        is_name(c),
    ensures
        pexpr(seq![lp, a, o1, b, rp, o2, c], 0, 0) == Ok::<(SpecExpr, int), Seq<char>>(
            (bin(SpecExpr::Grouped(Box::new(bin(var(a), o1, var(b)))), o2, var(c)), 7),
        ),
{
    let toks = seq![lp, a, o1, b, rp, o2, c];
    let (l1, r1) = infix_power(o1.kind).unwrap();
    let (l2, r2) = infix_power(o2.kind).unwrap();
    assert(toks[0] == lp && toks[1] == a && toks[2] == o1 && toks[3] == b && toks[4] == rp
        && toks[5] == o2 && toks[6] == c);
    assert(!kind_is(toks, 2, TokenType::LParen));
    assert(!kind_is(toks, 4, TokenType::LParen));
    assert(!kind_is(toks, 7, TokenType::LParen));
    assert(pprefix(toks, 1) == Ok::<(SpecExpr, int), Seq<char>>((var(a), 2)));
    assert(pprefix(toks, 3) == Ok::<(SpecExpr, int), Seq<char>>((var(b), 4)));
    assert(pprefix(toks, 6) == Ok::<(SpecExpr, int), Seq<char>>((var(c), 7)));
    assert(pinfix(toks, 4, r1, var(b)) == Ok::<(SpecExpr, int), Seq<char>>((var(b), 4)));
    assert(pexpr(toks, 3, r1) == Ok::<(SpecExpr, int), Seq<char>>((var(b), 4)));
    let ab = bin(var(a), o1, var(b));
    assert(pinfix(toks, 4, 0, ab) == Ok::<(SpecExpr, int), Seq<char>>((ab, 4)));
    assert(pinfix(toks, 2, 0, var(a)) == Ok::<(SpecExpr, int), Seq<char>>((ab, 4)));
    assert(pexpr(toks, 1, 0) == Ok::<(SpecExpr, int), Seq<char>>((ab, 4)));
    let g = SpecExpr::Grouped(Box::new(ab));
    assert(pprefix(toks, 0) == Ok::<(SpecExpr, int), Seq<char>>((g, 5)));
    assert(cur_tok(toks, 7) == None::<SpecToken>);
    assert(pexpr(toks, 6, r2) == Ok::<(SpecExpr, int), Seq<char>>((var(c), 7)));
    let gc = bin(g, o2, var(c));
    assert(pinfix(toks, 7, 0, gc) == Ok::<(SpecExpr, int), Seq<char>>((gc, 7)));
    assert(pinfix(toks, 5, 0, g) == Ok::<(SpecExpr, int), Seq<char>>((gc, 7)));
}

} // verus!

verus! {

/// Semicolons before a statement are skipped: parsing from before them or
/// from after them gives the same formula or the same error.
pub proof fn lemma_leading_semicolons_are_skipped(
    toks: Seq<SpecToken>,
    p: int,
    acc: Seq<crate::ast::SpecStatement>,
)
    requires
        0 <= p <= toks.len(),
    ensures
        pformula(toks, p, acc) == pformula(toks, skip_semicolons(toks, p), acc),
    decreases toks.len() - p,
{
    if kind_is(toks, p, TokenType::Semicolon) {
        lemma_leading_semicolons_are_skipped(toks, p + 1, acc);
        let q = skip_semicolons(toks, p + 1);
        lemma_skip_semicolons_bounds(toks, p + 1);
        if q < toks.len() {
            assert(skip_semicolons(toks, q) == q);
        }
    }
}

proof fn lemma_skip_semicolons_bounds(toks: Seq<SpecToken>, p: int)
    requires
        0 <= p <= toks.len(),
    ensures
        p <= skip_semicolons(toks, p) <= toks.len(),
        !kind_is(toks, skip_semicolons(toks, p), TokenType::Semicolon),
    decreases toks.len() - p,
{
    if kind_is(toks, p, TokenType::Semicolon) {
        lemma_skip_semicolons_bounds(toks, p + 1);
    }
}

} // verus!

verus! {

// ---------------------------------------------------------------------------
// What a successful parse consumes.
// ---------------------------------------------------------------------------

/// No token in `toks[from..to]` is a `;`.
pub open spec fn no_semicolon(toks: Seq<SpecToken>, from: int, to: int) -> bool {
    forall|i: int| from <= i < to ==> (#[trigger] toks[i]).kind != TokenType::Semicolon
}

/// A successful expression parse moves forward, stays within the tokens and
/// consumes no `;`.
pub proof fn lemma_pexpr_consumes(toks: Seq<SpecToken>, pos: int, min: int)
    requires
        0 <= pos <= toks.len(),
    ensures
        pexpr(toks, pos, min) matches Ok((_, r)) ==> pos < r <= toks.len() && no_semicolon(
            toks,
            pos,
            r,
        ),
    decreases toks.len() - pos, 3int,
{
    lemma_pprefix_consumes(toks, pos);
    if let Ok((left, p1)) = pprefix(toks, pos) {
        if pos < p1 <= toks.len() {
            lemma_pinfix_consumes(toks, p1, min, left);
        }
    }
}

/// The infix operators after an operand never move backward, stay within
/// the tokens and consume no `;`.
pub proof fn lemma_pinfix_consumes(toks: Seq<SpecToken>, pos: int, min: int, left: SpecExpr)
    requires
        0 <= pos <= toks.len(),
    ensures
        pinfix(toks, pos, min, left) matches Ok((_, r)) ==> pos <= r <= toks.len() && no_semicolon(
            toks,
            pos,
            r,
        ),
    decreases toks.len() - pos, 0int,
{
    if let Some(t) = cur_tok(toks, pos) {
        if let Some((l, rb)) = infix_power(t.kind) {
            if l >= min {
                lemma_pexpr_consumes(toks, pos + 1, rb);
                if let Ok((right, p2)) = pexpr(toks, pos + 1, rb) {
                    if pos + 1 < p2 <= toks.len() {
                        lemma_pinfix_consumes(
                            toks,
                            p2,
                            min,
                            SpecExpr::Binary(Box::new(left), binary_op_of(t.kind), Box::new(right)),
                        );
                    }
                }
            }
        }
    }
}

/// A successful prefix parse moves forward, stays within the tokens and
/// consumes no `;`.
pub proof fn lemma_pprefix_consumes(toks: Seq<SpecToken>, pos: int)
    requires
        0 <= pos <= toks.len(),
    ensures
        pprefix(toks, pos) matches Ok((_, r)) ==> pos < r <= toks.len() && no_semicolon(
            toks,
            pos,
            r,
        ),
    decreases toks.len() - pos, 2int,
{
    if let Some(t) = cur_tok(toks, pos) {
        if t.kind == TokenType::Identifier || t.kind == TokenType::If {
            if kind_is(toks, pos + 1, TokenType::LParen) {
                lemma_pcall_consumes(toks, pos);
            }
        } else if t.kind == TokenType::LParen {
            lemma_pexpr_consumes(toks, pos + 1, 0);
        } else if t.kind == TokenType::Minus || t.kind == TokenType::Not {
            lemma_pexpr_consumes(toks, pos + 1, prefix_power(t.kind));
        }
    }
}

/// A successful function call parse takes at least a name, `(` and `)`, and
/// consumes no `;`.
pub proof fn lemma_pcall_consumes(toks: Seq<SpecToken>, pos: int)
    requires
        0 <= pos <= toks.len(),
        kind_is(toks, pos, TokenType::Identifier) || kind_is(toks, pos, TokenType::If),
        kind_is(toks, pos + 1, TokenType::LParen),
    ensures
        pcall(toks, pos) matches Ok((_, r)) ==> pos + 3 <= r <= toks.len() && no_semicolon(
            toks,
            pos,
            r,
        ),
    decreases toks.len() - pos, 1int,
{
    if !kind_is(toks, pos + 2, TokenType::RParen) {
        lemma_pargs_consumes(toks, pos + 2, Seq::empty());
    }
}

/// Successful argument parsing takes at least an argument and `)`, and
/// consumes no `;`.
pub proof fn lemma_pargs_consumes(toks: Seq<SpecToken>, pos: int, acc: Seq<SpecExpr>)
    requires
        0 <= pos <= toks.len(),
    ensures
        pargs(toks, pos, acc) matches Ok((_, r)) ==> pos + 2 <= r <= toks.len() && no_semicolon(
            toks,
            pos,
            r,
        ),
    decreases toks.len() - pos, 4int,
{
    lemma_pexpr_consumes(toks, pos, 0);
    if let Ok((a, p1)) = pexpr(toks, pos, 0) {
        if pos < p1 <= toks.len() {
            if kind_is(toks, p1, TokenType::Comma) && !kind_is(toks, p1 + 1, TokenType::RParen) {
                lemma_pargs_consumes(toks, p1 + 1, acc.push(a));
            }
        }
    }
}

} // verus!

verus! {

// ---------------------------------------------------------------------------
// Tokens after a complete parse do not change it.
// ---------------------------------------------------------------------------

/// `t2` begins with all the tokens of `t1`.
pub open spec fn extends(t2: Seq<SpecToken>, t1: Seq<SpecToken>) -> bool {
    t1.len() <= t2.len() && forall|i: int| 0 <= i < t1.len() ==> #[trigger] t2[i] == t1[i]
}

proof fn lemma_pexpr_extends(t1: Seq<SpecToken>, t2: Seq<SpecToken>, pos: int, min: int)
    requires
        0 <= pos <= t1.len(),
        extends(t2, t1),
        pexpr(t1, pos, min) matches Ok((_, r)) && r < t1.len(),
    ensures
        pexpr(t2, pos, min) == pexpr(t1, pos, min),
    decreases t1.len() - pos, 3int,
{
    lemma_pprefix_consumes(t1, pos);
    let (left, p1) = pprefix(t1, pos)->Ok_0;
    lemma_pinfix_consumes(t1, p1, min, left);
    lemma_pprefix_extends(t1, t2, pos);
    lemma_pinfix_extends(t1, t2, p1, min, left);
}

proof fn lemma_pinfix_extends(
    t1: Seq<SpecToken>,
    t2: Seq<SpecToken>,
    pos: int,
    min: int,
    left: SpecExpr,
)
    requires
        0 <= pos <= t1.len(),
        extends(t2, t1),
        pinfix(t1, pos, min, left) matches Ok((_, r)) && r < t1.len(),
    ensures
        pinfix(t2, pos, min, left) == pinfix(t1, pos, min, left),
    decreases t1.len() - pos, 0int,
{
    lemma_pinfix_consumes(t1, pos, min, left);
    assert(pos < t1.len());
    assert(cur_tok(t2, pos) == cur_tok(t1, pos));
    let t = t1[pos];
    if let Some((l, rb)) = infix_power(t.kind) {
        if l >= min {
            lemma_pexpr_consumes(t1, pos + 1, rb);
            let (right, p2) = pexpr(t1, pos + 1, rb)->Ok_0;
            let next = SpecExpr::Binary(Box::new(left), binary_op_of(t.kind), Box::new(right));
            lemma_pinfix_consumes(t1, p2, min, next);
            lemma_pexpr_extends(t1, t2, pos + 1, rb);
            lemma_pinfix_extends(t1, t2, p2, min, next);
        }
    }
}

proof fn lemma_pprefix_extends(t1: Seq<SpecToken>, t2: Seq<SpecToken>, pos: int)
    requires
        0 <= pos <= t1.len(),
        extends(t2, t1),
        pprefix(t1, pos) matches Ok((_, r)) && r < t1.len(),
    ensures
        pprefix(t2, pos) == pprefix(t1, pos),
    decreases t1.len() - pos, 2int,
{
    lemma_pprefix_consumes(t1, pos);
    let t = t1[pos];
    assert(cur_tok(t2, pos) == cur_tok(t1, pos));
    if t.kind == TokenType::Identifier || t.kind == TokenType::If {
        assert(kind_is(t2, pos + 1, TokenType::LParen) == kind_is(t1, pos + 1, TokenType::LParen));
        if kind_is(t1, pos + 1, TokenType::LParen) {
            lemma_pcall_extends(t1, t2, pos);
        }
    } else if t.kind == TokenType::LParen {
        lemma_pexpr_consumes(t1, pos + 1, 0);
        let (inner, p2) = pexpr(t1, pos + 1, 0)->Ok_0;
        lemma_pexpr_extends(t1, t2, pos + 1, 0);
        assert(kind_is(t2, p2, TokenType::RParen) == kind_is(t1, p2, TokenType::RParen));
    } else if t.kind == TokenType::Minus || t.kind == TokenType::Not {
        lemma_pexpr_extends(t1, t2, pos + 1, prefix_power(t.kind));
    }
}

proof fn lemma_pcall_extends(t1: Seq<SpecToken>, t2: Seq<SpecToken>, pos: int)
    requires
        0 <= pos <= t1.len(),
        extends(t2, t1),
        kind_is(t1, pos, TokenType::Identifier) || kind_is(t1, pos, TokenType::If),
        kind_is(t1, pos + 1, TokenType::LParen),
        pcall(t1, pos) matches Ok((_, r)) && r < t1.len(),
    ensures
        pcall(t2, pos) == pcall(t1, pos),
    decreases t1.len() - pos, 1int,
{
    lemma_pcall_consumes(t1, pos);
    assert(t2[pos] == t1[pos]);
    assert(kind_is(t2, pos + 2, TokenType::RParen) == kind_is(t1, pos + 2, TokenType::RParen));
    if !kind_is(t1, pos + 2, TokenType::RParen) {
        lemma_pargs_extends(t1, t2, pos + 2, Seq::empty());
    }
}

proof fn lemma_pargs_extends(t1: Seq<SpecToken>, t2: Seq<SpecToken>, pos: int, acc: Seq<SpecExpr>)
    requires
        0 <= pos <= t1.len(),
        extends(t2, t1),
        pargs(t1, pos, acc) matches Ok((_, r)) && r < t1.len(),
    ensures
        pargs(t2, pos, acc) == pargs(t1, pos, acc),
    decreases t1.len() - pos, 4int,
{
    lemma_pargs_consumes(t1, pos, acc);
    lemma_pexpr_consumes(t1, pos, 0);
    let (a, p1) = pexpr(t1, pos, 0)->Ok_0;
    lemma_pexpr_extends(t1, t2, pos, 0);
    assert(kind_is(t2, p1, TokenType::Comma) == kind_is(t1, p1, TokenType::Comma));
    assert(kind_is(t2, p1, TokenType::RParen) == kind_is(t1, p1, TokenType::RParen));
    if kind_is(t1, p1, TokenType::Comma) {
        lemma_pargs_consumes(t1, p1 + 1, acc.push(a));
        assert(kind_is(t2, p1 + 1, TokenType::RParen) == kind_is(t1, p1 + 1, TokenType::RParen));
        if !kind_is(t1, p1 + 1, TokenType::RParen) {
            lemma_pargs_extends(t1, t2, p1 + 1, acc.push(a));
        }
    }
}

} // verus!

verus! {

proof fn lemma_pstyles_consumes(toks: Seq<SpecToken>, pos: int, acc: Seq<Seq<char>>)
    requires
        0 <= pos <= toks.len(),
    ensures
        pstyles(toks, pos, acc) matches Ok((_, r)) ==> pos <= r <= toks.len() && no_semicolon(
            toks,
            pos,
            r,
        ),
    decreases toks.len() - pos,
{
    if kind_is(toks, pos, TokenType::Comma) && kind_is(toks, pos + 1, TokenType::Identifier) {
        lemma_pstyles_consumes(toks, pos + 2, acc.push(toks[pos + 1].lexeme));
    }
}

proof fn lemma_pstyles_extends(
    t1: Seq<SpecToken>,
    t2: Seq<SpecToken>,
    pos: int,
    acc: Seq<Seq<char>>,
)
    requires
        0 <= pos <= t1.len(),
        extends(t2, t1),
        pstyles(t1, pos, acc) matches Ok((_, r)) && r < t1.len(),
    ensures
        pstyles(t2, pos, acc) == pstyles(t1, pos, acc),
    decreases t1.len() - pos,
{
    lemma_pstyles_consumes(t1, pos, acc);
    assert(kind_is(t2, pos, TokenType::Comma) == kind_is(t1, pos, TokenType::Comma));
    if kind_is(t1, pos, TokenType::Comma) && kind_is(t1, pos + 1, TokenType::Identifier) {
        lemma_pstyles_consumes(t1, pos + 2, acc.push(t1[pos + 1].lexeme));
        assert(t2[pos + 1] == t1[pos + 1]);
        lemma_pstyles_extends(t1, t2, pos + 2, acc.push(t1[pos + 1].lexeme));
    } else if kind_is(t1, pos, TokenType::Comma) {
        assert(pos + 1 < t1.len());
        assert(t2[pos + 1] == t1[pos + 1]);
    }
}

/// A successful statement parse moves forward, stays within the tokens and
/// consumes no `;`.
pub proof fn lemma_pstatement_consumes(toks: Seq<SpecToken>, pos: int)
    requires
        0 <= pos <= toks.len(),
    ensures
        pstatement(toks, pos) matches Ok((_, r)) ==> pos < r <= toks.len() && no_semicolon(
            toks,
            pos,
            r,
        ),
{
    if pos < toks.len() {
        if kind_is(toks, pos, TokenType::Identifier) && (kind_is(toks, pos + 1, TokenType::ColonAssign)
            || kind_is(toks, pos + 1, TokenType::Colon)) {
            lemma_pexpr_consumes(toks, pos + 2, 0);
            if let Ok((e, p)) = pexpr(toks, pos + 2, 0) {
                lemma_pstyles_consumes(toks, p, Seq::empty());
            }
        } else {
            lemma_pexpr_consumes(toks, pos, 0);
            if let Ok((e, p)) = pexpr(toks, pos, 0) {
                lemma_pstyles_consumes(toks, p, Seq::empty());
            }
        }
    }
}

proof fn lemma_pstatement_extends(t1: Seq<SpecToken>, t2: Seq<SpecToken>, pos: int)
    requires
        0 <= pos <= t1.len(),
        extends(t2, t1),
        pstatement(t1, pos) matches Ok((_, r)) && r < t1.len(),
    ensures
        pstatement(t2, pos) == pstatement(t1, pos),
{
    lemma_pstatement_consumes(t1, pos);
    assert(t2[pos] == t1[pos]);
    assert(kind_is(t2, pos, TokenType::Identifier) == kind_is(t1, pos, TokenType::Identifier));
    if kind_is(t1, pos, TokenType::Identifier) && (kind_is(t1, pos + 1, TokenType::ColonAssign)
        || kind_is(t1, pos + 1, TokenType::Colon)) {
        assert(t2[pos + 1] == t1[pos + 1]);
        lemma_pexpr_consumes(t1, pos + 2, 0);
        let (e, p) = pexpr(t1, pos + 2, 0)->Ok_0;
        lemma_pstyles_consumes(t1, p, Seq::empty());
        lemma_pexpr_extends(t1, t2, pos + 2, 0);
        if kind_is(t1, pos + 1, TokenType::Colon) {
            lemma_pstyles_extends(t1, t2, p, Seq::empty());
        }
    } else {
        if kind_is(t1, pos, TokenType::Identifier) {
            assert(t2[pos + 1] == t1[pos + 1]);
        }
        lemma_pexpr_consumes(t1, pos, 0);
        let (e, p) = pexpr(t1, pos, 0)->Ok_0;
        lemma_pstyles_consumes(t1, p, Seq::empty());
        lemma_pexpr_extends(t1, t2, pos, 0);
        lemma_pstyles_extends(t1, t2, p, Seq::empty());
    }
}

} // verus!

verus! {

proof fn lemma_skip_semicolons_through(t: Seq<SpecToken>, pos: int, k: int)
    requires
        0 <= pos <= k <= t.len(),
        forall|i: int| pos <= i < k ==> (#[trigger] t[i]).kind == TokenType::Semicolon,
    ensures
        skip_semicolons(t, pos) == skip_semicolons(t, k),
    decreases k - pos,
{
    if pos < k {
        lemma_skip_semicolons_through(t, pos + 1, k);
    }
}

proof fn lemma_skip_semicolons_prefix(t1: Seq<SpecToken>, t2: Seq<SpecToken>, pos: int)
    requires
        0 <= pos <= t1.len(),
        extends(t2, t1),
    ensures
        skip_semicolons(t1, pos) < t1.len() ==> skip_semicolons(t2, pos) == skip_semicolons(
            t1,
            pos,
        ),
        skip_semicolons(t1, pos) >= t1.len() ==> forall|i: int|
            pos <= i < t1.len() ==> (#[trigger] t1[i]).kind == TokenType::Semicolon,
    decreases t1.len() - pos,
{
    if pos < t1.len() {
        assert(t2[pos] == t1[pos]);
        if t1[pos].kind == TokenType::Semicolon {
            lemma_skip_semicolons_prefix(t1, t2, pos + 1);
        }
    }
}

proof fn lemma_formula_prefix(
    a: Seq<SpecToken>,
    b: Seq<SpecToken>,
    pos: int,
    acc: Seq<crate::ast::SpecStatement>,
    sa: Seq<crate::ast::SpecStatement>,
)
    requires
        0 <= pos <= a.len(),
        a.len() > 0,
        a.last().kind == TokenType::Semicolon,
        pformula(a, pos, acc) == Ok::<Seq<crate::ast::SpecStatement>, Seq<char>>(sa),
    ensures
        pformula(a + b, pos, acc) == pformula(a + b, a.len() as int, sa),
    decreases a.len() - pos,
{
    let t = a + b;
    assert(extends(t, a));
    if pos == a.len() {
        assert(sa == acc);
    } else {
        let q = skip_semicolons(a, pos);
        lemma_skip_semicolons_prefix(a, t, pos);
        lemma_skip_semicolons_bounds(a, pos);
        lemma_leading_semicolons_are_skipped(t, pos, acc);
        if q >= a.len() {
            assert(sa == acc);
            lemma_skip_semicolons_through(t, pos, a.len() as int);
            lemma_leading_semicolons_are_skipped(t, a.len() as int, acc);
        } else {
            lemma_pstatement_consumes(a, q);
            let (st, p1) = pstatement(a, q)->Ok_0;
            if p1 >= a.len() {
                assert(a[a.len() - 1].kind != TokenType::Semicolon);
            } else {
                lemma_pstatement_extends(a, t, q);
                assert(t[p1] == a[p1]);
                lemma_skip_semicolons_bounds(t, pos);
                assert(skip_semicolons(t, skip_semicolons(t, pos)) == skip_semicolons(t, pos));
                lemma_formula_prefix(a, b, p1 + 1, acc.push(st), sa);
            }
        }
    }
}

/// What comes after a `;` does not change the statements before it: when
/// the tokens `a` end with `;` and parse as the statements `sa`, the tokens
/// `a + b` parse as `sa` followed by whatever `b` parses as from there
/// (the statements of `b`, or the first error in them).
pub proof fn lemma_statements_before_semicolon_are_kept(
    a: Seq<SpecToken>,
    b: Seq<SpecToken>,
    sa: Seq<crate::ast::SpecStatement>,
)
    requires
        a.len() > 0,
        a.last().kind == TokenType::Semicolon,
        spec_parse_formula(a) == Ok::<Seq<crate::ast::SpecStatement>, Seq<char>>(sa),
    ensures
        spec_parse_formula(a + b) == pformula(a + b, a.len() as int, sa),
{
    lemma_formula_prefix(a, b, 0, Seq::empty(), sa);
}

} // verus!

verus! {

// ---------------------------------------------------------------------------
// What starts an expression, and what starts a statement.
// ---------------------------------------------------------------------------

/// An expression cannot start at the end of the input, nor with a token
/// other than a number, a name, `(`, `-`, `NOT` or `IF (`: there the parser
/// reports an unexpected end of input, or the unexpected token with its
/// kind, its text and where it is.
pub proof fn lemma_prefix_errors(toks: Seq<SpecToken>, pos: int)
    requires
        0 <= pos <= toks.len(),
    ensures
        pos == toks.len() ==> pprefix(toks, pos) == Err::<(SpecExpr, int), Seq<char>>(
            end_in_expression_msg(),
        ),
        pos < toks.len() && !starts_expression(toks, pos) ==> pprefix(toks, pos) == Err::<
            (SpecExpr, int),
            Seq<char>,
        >(unexpected_in_expression_msg(toks[pos])),
{
}

/// How a statement is told apart by its first tokens: a name and `:=` make
/// an assignment, a name and `:` a named output, any other start of an
/// expression an unnamed output; any other first token is reported as an
/// unexpected token at the start of a statement.
pub proof fn lemma_statement_dispatch(toks: Seq<SpecToken>, pos: int)
    requires
        0 <= pos < toks.len(),
    ensures
        pstatement(toks, pos) matches Ok((st, _)) ==> {
            &&& (st is Assignment) == (kind_is(toks, pos, TokenType::Identifier) && kind_is(
                toks,
                pos + 1,
                TokenType::ColonAssign,
            ))
            &&& (st matches SpecStatement::Output(Some(_), _, _)) == (kind_is(
                toks,
                pos,
                TokenType::Identifier,
            ) && kind_is(toks, pos + 1, TokenType::Colon))
            &&& (st matches SpecStatement::Output(None, _, _)) ==> starts_expression(toks, pos)
        },
        !(kind_is(toks, pos, TokenType::Identifier) && (kind_is(toks, pos + 1, TokenType::ColonAssign)
            || kind_is(toks, pos + 1, TokenType::Colon))) && !starts_expression(toks, pos)
            ==> pstatement(toks, pos) == Err::<(SpecStatement, int), Seq<char>>(
            statement_start_msg(toks[pos]),
        ),
{
}

} // verus!

verus! {

// ---------------------------------------------------------------------------
// The operator table: which operator each token is, and how tightly it binds.
// ---------------------------------------------------------------------------

/// How tightly each infix operator binds, from loosest to tightest: `OR`;
/// `AND`; the comparisons `=`, `<>`, `<`, `>`, `<=`, `>=`; `+` and `-`;
/// `*` and `/`. Other tokens are no infix operators (0).
pub open spec fn precedence_rank(k: TokenType) -> int {
    match k {
        TokenType::Or => 1,
        TokenType::And => 2,
        TokenType::Eq | TokenType::NotEq | TokenType::Lt | TokenType::Gt | TokenType::LtEq
        | TokenType::GtEq => 3,
        TokenType::Plus | TokenType::Minus => 4,
        TokenType::Star | TokenType::Slash => 5,
        _ => 0,
    }
}

/// The operation each infix operator token is written for.
pub open spec fn written_operator(k: TokenType) -> BinaryOperator {
    match k {
        TokenType::Plus => BinaryOperator::Add,
        TokenType::Minus => BinaryOperator::Sub,
        TokenType::Star => BinaryOperator::Mul,
        TokenType::Slash => BinaryOperator::Div,
        TokenType::Gt => BinaryOperator::Gt,
        TokenType::Lt => BinaryOperator::Lt,
        TokenType::GtEq => BinaryOperator::GtEq,
        TokenType::LtEq => BinaryOperator::LtEq,
        TokenType::Eq => BinaryOperator::Eq,
        TokenType::NotEq => BinaryOperator::NotEq,
        TokenType::And => BinaryOperator::And,
        _ => BinaryOperator::Or,
    }
}

/// The parser's binding powers follow the operator table: an operator of
/// higher rank binds more tightly, and each token stands for its operation.
pub proof fn lemma_binding_powers_follow_the_table(k: TokenType)
    requires
        precedence_rank(k) > 0,
    ensures
        infix_power(k) == Some((2 * precedence_rank(k) - 1, 2 * precedence_rank(k))),
        binary_op_of(k) == written_operator(k),
{
}

/// Operator precedence: in `a o1 b o2 c` (names `a`, `b`, `c`), `o2` takes
/// `b` as its left operand when it ranks higher than `o1` in the operator
/// table, so `A - B * C` is `A - (B * C)` and `A OR B AND C` is
/// `A OR (B AND C)`; otherwise the first operation is `o2`'s left operand,
/// so `A - B - C` is `(A - B) - C` and `A * B - C` is `(A * B) - C`.
pub proof fn lemma_operator_precedence(
    a: SpecToken,
    o1: SpecToken,
    b: SpecToken,
    o2: SpecToken,
    c: SpecToken,
)
    requires
        is_name(a),
        is_name(b),
        is_name(c),
        precedence_rank(o1.kind) > 0,
        precedence_rank(o2.kind) > 0,
    ensures
        ({
            let va = SpecExpr::Variable(a.lexeme);
            let vb = SpecExpr::Variable(b.lexeme);
            let vc = SpecExpr::Variable(c.lexeme);
            let op1 = written_operator(o1.kind);
            let op2 = written_operator(o2.kind);
            pexpr(seq![a, o1, b, o2, c], 0, 0) == Ok::<(SpecExpr, int), Seq<char>>(
                (
                    if precedence_rank(o2.kind) > precedence_rank(o1.kind) {
                        SpecExpr::Binary(
                            Box::new(va),
                            op1,
                            Box::new(SpecExpr::Binary(Box::new(vb), op2, Box::new(vc))),
                        )
                    } else {
                        SpecExpr::Binary(
                            Box::new(SpecExpr::Binary(Box::new(va), op1, Box::new(vb))),
                            op2,
                            Box::new(vc),
                        )
                    },
                    5,
                ),
            )
        }),
{
    lemma_binding_powers_follow_the_table(o1.kind);
    lemma_binding_powers_follow_the_table(o2.kind);
    lemma_two_operators_group_by_precedence(a, o1, b, o2, c);
}

/// Prefix operators: `-` negates and `NOT` negates a condition; in `p a`
/// (a name `a`), the operation applies to `a`.
pub proof fn lemma_prefix_operators(p: SpecToken, a: SpecToken)
    requires
        p.kind == TokenType::Minus || p.kind == TokenType::Not,
        is_name(a),
    ensures
        pexpr(seq![p, a], 0, 0) == Ok::<(SpecExpr, int), Seq<char>>(
            (
                SpecExpr::Unary(
                    if p.kind == TokenType::Minus {
                        UnaryOperator::Neg
                    } else {
                        UnaryOperator::Not
                    },
                    Box::new(SpecExpr::Variable(a.lexeme)),
                ),
                2,
            ),
        ),
{
    let toks = seq![p, a];
    assert(toks[0] == p && toks[1] == a);
    assert(!kind_is(toks, 2, TokenType::LParen));
    assert(pprefix(toks, 1) == Ok::<(SpecExpr, int), Seq<char>>((SpecExpr::Variable(a.lexeme), 2)));
    assert(pinfix(toks, 2, prefix_power(p.kind), SpecExpr::Variable(a.lexeme)) == Ok::<
        (SpecExpr, int),
        Seq<char>,
    >((SpecExpr::Variable(a.lexeme), 2)));
    assert(pexpr(toks, 1, prefix_power(p.kind)) == Ok::<(SpecExpr, int), Seq<char>>(
        (SpecExpr::Variable(a.lexeme), 2),
    ));
    let u = SpecExpr::Unary(unary_op_of(p.kind), Box::new(SpecExpr::Variable(a.lexeme)));
    assert(pprefix(toks, 0) == Ok::<(SpecExpr, int), Seq<char>>((u, 2)));
    assert(pinfix(toks, 2, 0, u) == Ok::<(SpecExpr, int), Seq<char>>((u, 2)));
}

/// The reach of prefix operators, by the operator table: `-` applies to the
/// operand right after it, before any infix operator (`- A * B` is
/// `(-A) * B`); `NOT` applies to a whole comparison or arithmetic expression
/// (`NOT A > B` is `NOT (A > B)`) but not across `AND` and `OR`
/// (`NOT A AND B` is `(NOT A) AND B`).
pub proof fn lemma_prefix_operator_reach(p: SpecToken, a: SpecToken, o: SpecToken, b: SpecToken)
    requires
        p.kind == TokenType::Minus || p.kind == TokenType::Not,
        is_name(a),
        precedence_rank(o.kind) > 0,
        is_name(b),
    ensures
        ({
            let va = SpecExpr::Variable(a.lexeme);
            let vb = SpecExpr::Variable(b.lexeme);
            let op = written_operator(o.kind);
            let u = if p.kind == TokenType::Minus {
                UnaryOperator::Neg
            } else {
                UnaryOperator::Not
            };
            pexpr(seq![p, a, o, b], 0, 0) == Ok::<(SpecExpr, int), Seq<char>>(
                (
                    if p.kind == TokenType::Not && precedence_rank(o.kind) >= 3 {
                        SpecExpr::Unary(
                            u,
                            Box::new(SpecExpr::Binary(Box::new(va), op, Box::new(vb))),
                        )
                    } else {
                        SpecExpr::Binary(
                            Box::new(SpecExpr::Unary(u, Box::new(va))),
                            op,
                            Box::new(vb),
                        )
                    },
                    4,
                ),
            )
        }),
{
    lemma_binding_powers_follow_the_table(o.kind);
    lemma_prefix_operator_scope(p, a, o, b);
}

} // verus!
