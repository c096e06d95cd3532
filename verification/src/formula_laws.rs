//! Laws of whole formulas: statements written one after another parse one
//! after another.
use vstd::prelude::*;
use crate::ast::{SpecExpr, SpecStatement};
use crate::lexer::spec_tokens;
use crate::lexer_laws::{ends_with_semicolon, lemma_tokens_after, lemma_tokens_before};
use crate::parser::{
    spec_parse_formula, cur_tok, infix_power, kind_is, pargs, pcall, pexpr, pformula, pinfix, pprefix, pstatement,
    pstyles, skip_semicolons, starts_expression,
};
use crate::token::{SpecToken, TokenType};

verus! {

// ---------------------------------------------------------------------------
// The parse of tokens depends on their kinds and text, not on where they are.
// ---------------------------------------------------------------------------

/// From index `d` on, `t1` holds the tokens of `t2`: the same kinds and the
/// same text, whatever their lines and columns.
pub open spec fn holds_at(t1: Seq<SpecToken>, t2: Seq<SpecToken>, d: int) -> bool {
    &&& 0 <= d
    &&& t1.len() == t2.len() + d
    &&& forall|i: int|
        0 <= i < t2.len() ==> t1[i + d].kind == (#[trigger] t2[i]).kind && t1[i + d].lexeme
            == t2[i].lexeme
}

proof fn lemma_token_at(t1: Seq<SpecToken>, t2: Seq<SpecToken>, d: int, pos: int)
    requires
        holds_at(t1, t2, d),
        0 <= pos,
    ensures
        forall|k: TokenType| #[trigger] kind_is(t1, pos + d, k) == kind_is(t2, pos, k),
        (cur_tok(t1, pos + d) is Some) == (cur_tok(t2, pos) is Some),
        pos < t2.len() ==> t1[pos + d].kind == t2[pos].kind && t1[pos + d].lexeme
            == t2[pos].lexeme,
{
    if pos < t2.len() {
        assert(t1[pos + d].kind == t2[pos].kind);
    }
}

proof fn lemma_pexpr_shift(t1: Seq<SpecToken>, t2: Seq<SpecToken>, d: int, pos: int, min: int)
    requires
        holds_at(t1, t2, d),
        0 <= pos <= t2.len(),
        pexpr(t2, pos, min) is Ok,
    ensures
        pexpr(t1, pos + d, min) == Ok::<(SpecExpr, int), Seq<char>>(
            (pexpr(t2, pos, min)->Ok_0.0, pexpr(t2, pos, min)->Ok_0.1 + d),
        ),
    decreases t2.len() - pos, 3int,
{
    let (left, p1) = pprefix(t2, pos)->Ok_0;
    lemma_pprefix_shift(t1, t2, d, pos);
    lemma_pinfix_shift(t1, t2, d, p1, min, left);
}

proof fn lemma_pinfix_shift(
    t1: Seq<SpecToken>,
    t2: Seq<SpecToken>,
    d: int,
    pos: int,
    min: int,
    left: SpecExpr,
)
    requires
        holds_at(t1, t2, d),
        0 <= pos <= t2.len(),
        pinfix(t2, pos, min, left) is Ok,
    ensures
        pinfix(t1, pos + d, min, left) == Ok::<(SpecExpr, int), Seq<char>>(
            (pinfix(t2, pos, min, left)->Ok_0.0, pinfix(t2, pos, min, left)->Ok_0.1 + d),
        ),
    decreases t2.len() - pos, 0int,
{
    lemma_token_at(t1, t2, d, pos);
    if pos < t2.len() {
        let t = t2[pos];
        if let Some((l, r)) = infix_power(t.kind) {
            if l >= min {
                let (right, p2) = pexpr(t2, pos + 1, r)->Ok_0;
                lemma_pexpr_shift(t1, t2, d, pos + 1, r);
                let next = SpecExpr::Binary(
                    Box::new(left),
                    crate::parser::binary_op_of(t.kind),
                    Box::new(right),
                );
                lemma_pinfix_shift(t1, t2, d, p2, min, next);
            }
        }
    }
}

proof fn lemma_pprefix_shift(t1: Seq<SpecToken>, t2: Seq<SpecToken>, d: int, pos: int)
    requires
        holds_at(t1, t2, d),
        0 <= pos <= t2.len(),
        pprefix(t2, pos) is Ok,
    ensures
        pprefix(t1, pos + d) == Ok::<(SpecExpr, int), Seq<char>>(
            (pprefix(t2, pos)->Ok_0.0, pprefix(t2, pos)->Ok_0.1 + d),
        ),
    decreases t2.len() - pos, 2int,
{
    lemma_token_at(t1, t2, d, pos);
    lemma_token_at(t1, t2, d, pos + 1);
    let t = t2[pos];
    if t.kind == TokenType::Identifier || t.kind == TokenType::If {
        if kind_is(t2, pos + 1, TokenType::LParen) {
            lemma_pcall_shift(t1, t2, d, pos);
        }
    } else if t.kind == TokenType::LParen {
        let (inner, p2) = pexpr(t2, pos + 1, 0)->Ok_0;
        lemma_pexpr_shift(t1, t2, d, pos + 1, 0);
        crate::parser_laws::lemma_pexpr_consumes(t2, pos + 1, 0);
        lemma_token_at(t1, t2, d, p2);
    } else if t.kind == TokenType::Minus || t.kind == TokenType::Not {
        lemma_pexpr_shift(t1, t2, d, pos + 1, crate::parser::prefix_power(t.kind));
    }
}

proof fn lemma_pcall_shift(t1: Seq<SpecToken>, t2: Seq<SpecToken>, d: int, pos: int)
    requires
        holds_at(t1, t2, d),
        0 <= pos <= t2.len(),
        pcall(t2, pos) is Ok,
    ensures
        pcall(t1, pos + d) == Ok::<(SpecExpr, int), Seq<char>>(
            (pcall(t2, pos)->Ok_0.0, pcall(t2, pos)->Ok_0.1 + d),
        ),
    decreases t2.len() - pos, 1int,
{
    lemma_token_at(t1, t2, d, pos);
    lemma_token_at(t1, t2, d, pos + 2);
    if !kind_is(t2, pos + 2, TokenType::RParen) {
        lemma_pargs_shift(t1, t2, d, pos + 2, Seq::empty());
    }
}

proof fn lemma_pargs_shift(
    t1: Seq<SpecToken>,
    t2: Seq<SpecToken>,
    d: int,
    pos: int,
    acc: Seq<SpecExpr>,
)
    requires
        holds_at(t1, t2, d),
        0 <= pos <= t2.len(),
        pargs(t2, pos, acc) is Ok,
    ensures
        pargs(t1, pos + d, acc) == Ok::<(Seq<SpecExpr>, int), Seq<char>>(
            (pargs(t2, pos, acc)->Ok_0.0, pargs(t2, pos, acc)->Ok_0.1 + d),
        ),
    decreases t2.len() - pos, 4int,
{
    let (a, p1) = pexpr(t2, pos, 0)->Ok_0;
    lemma_pexpr_shift(t1, t2, d, pos, 0);
    lemma_token_at(t1, t2, d, p1);
    lemma_token_at(t1, t2, d, p1 + 1);
    if kind_is(t2, p1, TokenType::Comma) && !kind_is(t2, p1 + 1, TokenType::RParen) {
        lemma_pargs_shift(t1, t2, d, p1 + 1, acc.push(a));
    }
}

proof fn lemma_pstyles_shift(
    t1: Seq<SpecToken>,
    t2: Seq<SpecToken>,
    d: int,
    pos: int,
    acc: Seq<Seq<char>>,
)
    requires
        holds_at(t1, t2, d),
        0 <= pos <= t2.len(),
        pstyles(t2, pos, acc) is Ok,
    ensures
        pstyles(t1, pos + d, acc) == Ok::<(Seq<Seq<char>>, int), Seq<char>>(
            (pstyles(t2, pos, acc)->Ok_0.0, pstyles(t2, pos, acc)->Ok_0.1 + d),
        ),
    decreases t2.len() - pos,
{
    lemma_token_at(t1, t2, d, pos);
    lemma_token_at(t1, t2, d, pos + 1);
    if kind_is(t2, pos, TokenType::Comma) && kind_is(t2, pos + 1, TokenType::Identifier) {
        lemma_pstyles_shift(t1, t2, d, pos + 2, acc.push(t2[pos + 1].lexeme));
    }
}

proof fn lemma_pstatement_shift(t1: Seq<SpecToken>, t2: Seq<SpecToken>, d: int, pos: int)
    requires
        holds_at(t1, t2, d),
        0 <= pos <= t2.len(),
        pstatement(t2, pos) is Ok,
    ensures
        pstatement(t1, pos + d) == Ok::<(SpecStatement, int), Seq<char>>(
            (pstatement(t2, pos)->Ok_0.0, pstatement(t2, pos)->Ok_0.1 + d),
        ),
{
    lemma_token_at(t1, t2, d, pos);
    lemma_token_at(t1, t2, d, pos + 1);
    assert(starts_expression(t1, pos + d) == starts_expression(t2, pos));
    if kind_is(t2, pos, TokenType::Identifier) && (kind_is(t2, pos + 1, TokenType::ColonAssign)
        || kind_is(t2, pos + 1, TokenType::Colon)) {
        let (e, p) = pexpr(t2, pos + 2, 0)->Ok_0;
        crate::parser_laws::lemma_pexpr_consumes(t2, pos + 2, 0);
        lemma_pexpr_shift(t1, t2, d, pos + 2, 0);
        if kind_is(t2, pos + 1, TokenType::Colon) {
            lemma_pstyles_shift(t1, t2, d, p, Seq::empty());
        }
    } else {
        let (e, p) = pexpr(t2, pos, 0)->Ok_0;
        crate::parser_laws::lemma_pexpr_consumes(t2, pos, 0);
        lemma_pexpr_shift(t1, t2, d, pos, 0);
        lemma_pstyles_shift(t1, t2, d, p, Seq::empty());
    }
}

proof fn lemma_skip_semicolons_shift(t1: Seq<SpecToken>, t2: Seq<SpecToken>, d: int, pos: int)
    requires
        holds_at(t1, t2, d),
        0 <= pos <= t2.len(),
    ensures
        skip_semicolons(t1, pos + d) == skip_semicolons(t2, pos) + d,
        pos <= skip_semicolons(t2, pos) <= t2.len(),
    decreases t2.len() - pos,
{
    lemma_token_at(t1, t2, d, pos);
    if kind_is(t2, pos, TokenType::Semicolon) {
        lemma_skip_semicolons_shift(t1, t2, d, pos + 1);
    }
}

/// Where statements are parsed does not change them: when `t1` holds the
/// tokens of `t2` from `d` on, a successful parse of `t2` from `pos` is also
/// the parse of `t1` from `pos + d`.
pub proof fn lemma_pformula_shift(
    t1: Seq<SpecToken>,
    t2: Seq<SpecToken>,
    d: int,
    pos: int,
    acc: Seq<SpecStatement>,
)
    requires
        holds_at(t1, t2, d),
        0 <= pos <= t2.len(),
        pformula(t2, pos, acc) is Ok,
    ensures
        pformula(t1, pos + d, acc) == pformula(t2, pos, acc),
    decreases t2.len() - pos,
{
    if pos < t2.len() {
        lemma_skip_semicolons_shift(t1, t2, d, pos);
        let q = skip_semicolons(t2, pos);
        if q < t2.len() {
            let (st, p1) = pstatement(t2, q)->Ok_0;
            lemma_pstatement_shift(t1, t2, d, q);
            lemma_token_at(t1, t2, d, p1);
            if kind_is(t2, p1, TokenType::Semicolon) {
                lemma_pformula_shift(t1, t2, d, p1 + 1, acc.push(st));
            }
        }
    }
}

/// Statements parsed so far stay in front: parsing with the statements
/// `pre` already read gives `pre` followed by what parsing without them
/// gives.
pub proof fn lemma_pformula_prepends(
    t: Seq<SpecToken>,
    pos: int,
    pre: Seq<SpecStatement>,
    acc: Seq<SpecStatement>,
)
    requires
        pformula(t, pos, acc) is Ok,
    ensures
        pformula(t, pos, pre + acc) == Ok::<Seq<SpecStatement>, Seq<char>>(
            pre + pformula(t, pos, acc)->Ok_0,
        ),
    decreases t.len() - pos,
{
    if 0 <= pos < t.len() {
        let q = skip_semicolons(t, pos);
        if q < t.len() {
            let (st, p1) = pstatement(t, q)->Ok_0;
            assert((pre + acc).push(st) =~= pre + acc.push(st));
            if kind_is(t, p1, TokenType::Semicolon) && pos <= q < p1 <= t.len() {
                lemma_pformula_prepends(t, p1 + 1, pre, acc.push(st));
            }
        }
    }
}

/// Statements split by `;` parse independently and keep their order: when
/// the text `a` ends with a `;` that is read as a `;` token (not one inside a
/// comment) and parses as the statements `fa`, and the text `b` parses as
/// `fb`, then `a` followed by `b` parses as `fa` followed by `fb`.
pub proof fn lemma_formulas_concatenate(
    a: Seq<char>,
    b: Seq<char>,
    fa: Seq<SpecStatement>,
    fb: Seq<SpecStatement>,
)
    requires
        a.len() > 0,
        a[a.len() - 1] == ';',
        ends_with_semicolon(a, 0),
        spec_parse_formula(spec_tokens(a, 0)) == Ok::<Seq<SpecStatement>, Seq<char>>(fa),
        spec_parse_formula(spec_tokens(b, 0)) == Ok::<Seq<SpecStatement>, Seq<char>>(fb),
    ensures
        spec_parse_formula(spec_tokens(a + b, 0)) == Ok::<Seq<SpecStatement>, Seq<char>>(fa + fb),
{
    let ta = spec_tokens(a, 0);
    let tb = spec_tokens(b, 0);
    let rest = spec_tokens(a + b, a.len() as int);
    let t = spec_tokens(a + b, 0);
    lemma_tokens_before(a, b, 0);
    lemma_tokens_after(a, b, 0);
    assert(t == ta + rest);
    assert(holds_at(t, tb, ta.len() as int)) by {
        assert forall|i: int| 0 <= i < tb.len() implies t[i + ta.len()].kind == (
        #[trigger] tb[i]).kind && t[i + ta.len()].lexeme == tb[i].lexeme by {
            assert(t[i + ta.len()] == rest[i]);
        }
    }
    crate::parser_laws::lemma_statements_before_semicolon_are_kept(ta, rest, fa);
    lemma_pformula_prepends(tb, 0, fa, Seq::empty());
    assert(fa + Seq::<SpecStatement>::empty() =~= fa);
    lemma_pformula_shift(t, tb, ta.len() as int, 0, fa);
}

} // verus!
