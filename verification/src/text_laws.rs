//! Laws over formula text: how written operators group once the text is
//! lexed and parsed.
use vstd::prelude::*;
use crate::ast::SpecExpr;
use crate::chars::{all_ascii, ascii_upper_text, uppercase_text};
use crate::parser::{binary_op_of, infix_power, pexpr};
use crate::parser_laws::{
    lemma_binding_powers_follow_the_table, lemma_two_operators_group_by_precedence,
    precedence_rank, written_operator,
};
use crate::lexer::{
    ident_end, keyword_kind, scan, single_char_kind, skip_ws, spec_is_identifier_char,
    spec_is_identifier_start, spec_next_token, spec_tokens, lemma_whitespace_is_skipped,
};
use crate::token::{SpecToken, TokenType};

verus! {

/// Text that the lexer reads as one identifier that is not a keyword: an
/// identifier start, then identifier characters.
pub open spec fn is_name_text(w: Seq<char>) -> bool {
    &&& w.len() > 0
    &&& spec_is_identifier_start(w[0])
    &&& forall|i: int| 0 <= i < w.len() ==> spec_is_identifier_char(#[trigger] w[i])
    &&& keyword_kind(uppercase_text(w)) == TokenType::Identifier
}

proof fn lemma_ident_end_at(s: Seq<char>, p: int, e: int)
    requires
        0 <= p <= e <= s.len(),
        forall|i: int| p <= i < e ==> spec_is_identifier_char(#[trigger] s[i]),
        e == s.len() || s[e] == ' ',
    ensures
        ident_end(s, p) == e,
    decreases e - p,
{
    if p < e {
        lemma_ident_end_at(s, p + 1, e);
    }
}

/// A word written at `p` and followed by a space or the end of the input is
/// read as one identifier token, or as the keyword that it names.
proof fn lemma_lex_word(s: Seq<char>, p: int, w: Seq<char>)
    requires
        0 <= p,
        p + w.len() <= s.len(),
        s.subrange(p, p + w.len()) == w,
        p + w.len() == s.len() || s[p + w.len()] == ' ',
        w.len() > 0,
        spec_is_identifier_start(w[0]),
        forall|i: int| 0 <= i < w.len() ==> spec_is_identifier_char(#[trigger] w[i]),
    ensures
        spec_next_token(s, p).0.kind == keyword_kind(uppercase_text(w)),
        spec_next_token(s, p).0.lexeme == w,
        spec_next_token(s, p).1 == p + w.len(),
{
    let e = p + w.len();
    assert(s[p] == w[0]);
    assert(skip_ws(s, p) == p);
    assert forall|i: int| p + 1 <= i < e implies spec_is_identifier_char(#[trigger] s[i]) by {
        assert(s[i] == w[i - p]);
    }
    lemma_ident_end_at(s, p + 1, e);
    assert(scan(s, p) == (keyword_kind(uppercase_text(s.subrange(p, e))), e));
}

/// How an infix operator is written.
pub open spec fn op_text(k: TokenType) -> Seq<char> {
    match k {
        TokenType::Plus => "+"@,
        TokenType::Minus => "-"@,
        TokenType::Star => "*"@,
        TokenType::Slash => "/"@,
        TokenType::Gt => ">"@,
        TokenType::Lt => "<"@,
        TokenType::GtEq => ">="@,
        TokenType::LtEq => "<="@,
        TokenType::Eq => "="@,
        TokenType::NotEq => "<>"@,
        TokenType::And => "AND"@,
        _ => "OR"@,
    }
}

/// An operator written at `p` and followed by a space or the end of the
/// input is read as that operator's token.
proof fn lemma_lex_operator(s: Seq<char>, p: int, k: TokenType)
    requires
        infix_power(k).is_some(),
        0 <= p,
        p + op_text(k).len() <= s.len(),
        s.subrange(p, p + op_text(k).len()) == op_text(k),
        p + op_text(k).len() == s.len() || s[p + op_text(k).len()] == ' ',
    ensures
        spec_next_token(s, p).0.kind == k,
        spec_next_token(s, p).0.lexeme == op_text(k),
        spec_next_token(s, p).1 == p + op_text(k).len(),
{
    let w = op_text(k);
    reveal_strlit("+");
    reveal_strlit("-");
    reveal_strlit("*");
    reveal_strlit("/");
    reveal_strlit(">");
    reveal_strlit("<");
    reveal_strlit(">=");
    reveal_strlit("<=");
    reveal_strlit("=");
    reveal_strlit("<>");
    reveal_strlit("AND");
    reveal_strlit("OR");
    assert(s[p] == w[0]);
    if k == TokenType::And || k == TokenType::Or {
        reveal_strlit("IF");
        reveal_strlit("THEN");
        reveal_strlit("ELSE");
        assert(all_ascii(w));
        assert(ascii_upper_text(w) =~= w);
        lemma_lex_word(s, p, w);
    } else {
        assert(skip_ws(s, p) == p);
        if w.len() == 2 {
            assert(s[p + 1] == w[1]);
        }
        assert(s.subrange(p, p + w.len()) == w);
    }
}

/// `x o1 y o2 z`, written with single spaces between the parts.
pub open spec fn two_operator_text(
    x: Seq<char>,
    k1: TokenType,
    y: Seq<char>,
    k2: TokenType,
    z: Seq<char>,
) -> Seq<char> {
    x + " "@ + op_text(k1) + " "@ + y + " "@ + op_text(k2) + " "@ + z
}

/// `l k r` as an expression.
pub open spec fn binary(l: SpecExpr, k: TokenType, r: SpecExpr) -> SpecExpr {
    SpecExpr::Binary(Box::new(l), binary_op_of(k), Box::new(r))
}

proof fn lemma_concat_pieces(a: Seq<char>, b: Seq<char>)
    ensures
        (a + b).subrange(0, a.len() as int) == a,
        (a + b).subrange(a.len() as int, (a.len() + b.len()) as int) == b,
        forall|i: int, j: int|
            0 <= i <= j <= a.len() ==> #[trigger] (a + b).subrange(i, j) == a.subrange(i, j),
{
    assert((a + b).subrange(0, a.len() as int) =~= a);
    assert((a + b).subrange(a.len() as int, (a.len() + b.len()) as int) =~= b);
    assert forall|i: int, j: int| 0 <= i <= j <= a.len() implies #[trigger] (a + b).subrange(
        i,
        j,
    ) == a.subrange(i, j) by {
        assert((a + b).subrange(i, j) =~= a.subrange(i, j));
    }
}

/// Each part of `x o1 y o2 z` sits where its length says.
proof fn lemma_text_parts(x: Seq<char>, w1: Seq<char>, y: Seq<char>, w2: Seq<char>, z: Seq<char>)
    ensures
        laid_out(x + " "@ + w1 + " "@ + y + " "@ + w2 + " "@ + z, x, w1, y, w2, z),
{
    reveal_strlit(" ");
    let sp = " "@;
    let p1 = x + sp;
    let p2 = p1 + w1;
    let p3 = p2 + sp;
    let p4 = p3 + y;
    let p5 = p4 + sp;
    let p6 = p5 + w2;
    let p7 = p6 + sp;
    lemma_concat_pieces(x, sp);
    lemma_concat_pieces(p1, w1);
    lemma_concat_pieces(p2, sp);
    lemma_concat_pieces(p3, y);
    lemma_concat_pieces(p4, sp);
    lemma_concat_pieces(p5, w2);
    lemma_concat_pieces(p6, sp);
    lemma_concat_pieces(p7, z);
}

proof fn lemma_tokens_step(s: Seq<char>, p: int, q: int)
    requires
        0 <= p <= q <= s.len(),
        spec_next_token(s, p) == spec_next_token(s, q),
        spec_next_token(s, q).0.kind != TokenType::Eof,
    ensures
        spec_tokens(s, p) == seq![spec_next_token(s, q).0] + spec_tokens(
            s,
            spec_next_token(s, q).1,
        ),
{
}

/// The text `s` holds `x`, `o1`, `y`, `o2` and `z`, with single spaces
/// between them.
pub open spec fn laid_out(s: Seq<char>, x: Seq<char>, w1: Seq<char>, y: Seq<char>, w2: Seq<char>, z: Seq<char>) -> bool {
    let sp = " "@;
    let n1 = x.len() as int;
    let a1 = n1 + 1;
    let b1 = a1 + w1.len();
    let a2 = b1 + 1;
    let b2 = a2 + y.len();
    let a3 = b2 + 1;
    let b3 = a3 + w2.len();
    let a4 = b3 + 1;
    &&& s.len() == a4 + z.len()
    &&& s.subrange(0, n1) == x
    &&& s.subrange(n1, a1) == sp
    &&& s.subrange(a1, b1) == w1
    &&& s.subrange(b1, a2) == sp
    &&& s.subrange(a2, b2) == y
    &&& s.subrange(b2, a3) == sp
    &&& s.subrange(a3, b3) == w2
    &&& s.subrange(b3, a4) == sp
    &&& s.subrange(a4, a4 + z.len()) == z
}

/// The tokens of a text laid out as `x o1 y o2 z`: the three names and the
/// two operators.
proof fn lemma_laid_out_tokens(
    s: Seq<char>,
    x: Seq<char>,
    k1: TokenType,
    y: Seq<char>,
    k2: TokenType,
    z: Seq<char>,
)
    requires
        is_name_text(x),
        is_name_text(y),
        is_name_text(z),
        infix_power(k1).is_some(),
        infix_power(k2).is_some(),
        laid_out(s, x, op_text(k1), y, op_text(k2), z),
    ensures
        ({
            let toks = spec_tokens(s, 0);
            &&& toks.len() == 5
            &&& toks[0].kind == TokenType::Identifier && toks[0].lexeme == x
            &&& toks[1].kind == k1
            &&& toks[2].kind == TokenType::Identifier && toks[2].lexeme == y
            &&& toks[3].kind == k2
            &&& toks[4].kind == TokenType::Identifier && toks[4].lexeme == z
        }),
{
    reveal_strlit(" ");
    let w1 = op_text(k1);
    let w2 = op_text(k2);
    let n1 = x.len() as int;
    let a1 = n1 + 1;
    let b1 = a1 + w1.len();
    let a2 = b1 + 1;
    let b2 = a2 + y.len();
    let a3 = b2 + 1;
    let b3 = a3 + w2.len();
    let a4 = b3 + 1;
    let n = s.len() as int;
    assert(s[n1] == s.subrange(n1, a1)[0]);
    assert(s[b1] == s.subrange(b1, a2)[0]);
    assert(s[b2] == s.subrange(b2, a3)[0]);
    assert(s[b3] == s.subrange(b3, a4)[0]);
    lemma_lex_word(s, 0, x);
    lemma_lex_operator(s, a1, k1);
    lemma_lex_word(s, a2, y);
    lemma_lex_operator(s, a3, k2);
    lemma_lex_word(s, a4, z);
    lemma_whitespace_is_skipped(s, n1, a1);
    lemma_whitespace_is_skipped(s, b1, a2);
    lemma_whitespace_is_skipped(s, b2, a3);
    lemma_whitespace_is_skipped(s, b3, a4);
    let t0 = spec_next_token(s, 0).0;
    let t1 = spec_next_token(s, a1).0;
    let t2 = spec_next_token(s, a2).0;
    let t3 = spec_next_token(s, a3).0;
    let t4 = spec_next_token(s, a4).0;
    assert(spec_tokens(s, n) =~= Seq::<SpecToken>::empty());
    lemma_tokens_step(s, b3, a4);
    lemma_tokens_step(s, b2, a3);
    lemma_tokens_step(s, b1, a2);
    lemma_tokens_step(s, n1, a1);
    lemma_tokens_step(s, 0, 0);
    assert(spec_tokens(s, 0) =~= seq![t0, t1, t2, t3, t4]);
}

/// Precedence and associativity in formula text: `x o1 y o2 z`, for names
/// `x`, `y`, `z` and infix operators `o1`, `o2`, parses as `x o1 (y o2 z)`
/// when `o2` binds more tightly than `o1`, and as `(x o1 y) o2 z` otherwise;
/// so operators of one precedence group from the left (`A - B - C` is
/// `(A - B) - C`, `A / B * C` is `(A / B) * C`).
pub proof fn lemma_text_operators_group_by_precedence(
    x: Seq<char>,
    k1: TokenType,
    y: Seq<char>,
    k2: TokenType,
    z: Seq<char>,
)
    requires
        is_name_text(x),
        is_name_text(y),
        is_name_text(z),
        infix_power(k1).is_some(),
        infix_power(k2).is_some(),
    ensures
        ({
            let toks = spec_tokens(two_operator_text(x, k1, y, k2, z), 0);
            let vx = SpecExpr::Variable(x);
            let vy = SpecExpr::Variable(y);
            let vz = SpecExpr::Variable(z);
            pexpr(toks, 0, 0) == Ok::<(SpecExpr, int), Seq<char>>(
                (
                    if infix_power(k2).unwrap().0 > infix_power(k1).unwrap().0 {
                        binary(vx, k1, binary(vy, k2, vz))
                    } else {
                        binary(binary(vx, k1, vy), k2, vz)
                    },
                    5,
                ),
            )
        }),
{
    let s = two_operator_text(x, k1, y, k2, z);
    lemma_text_parts(x, op_text(k1), y, op_text(k2), z);
    lemma_laid_out_tokens(s, x, k1, y, k2, z);
    let toks = spec_tokens(s, 0);
    assert(toks =~= seq![toks[0], toks[1], toks[2], toks[3], toks[4]]);
    lemma_two_operators_group_by_precedence(toks[0], toks[1], toks[2], toks[3], toks[4]);
}

/// Operator precedence in formula text, by the operator table: for names
/// `x`, `y`, `z`, the text `x o1 y o2 z` parses as `x o1 (y o2 z)` when `o2`
/// ranks higher than `o1` (`A - B * C` is `A - (B * C)`), and as
/// `(x o1 y) o2 z` otherwise (`A - B + C` is `(A - B) + C`).
pub proof fn lemma_text_operator_precedence(
    x: Seq<char>,
    k1: TokenType,
    y: Seq<char>,
    k2: TokenType,
    z: Seq<char>,
)
    requires
        is_name_text(x),
        is_name_text(y),
        is_name_text(z),
        precedence_rank(k1) > 0,
        precedence_rank(k2) > 0,
    ensures
        ({
            let toks = spec_tokens(two_operator_text(x, k1, y, k2, z), 0);
            let vx = SpecExpr::Variable(x);
            let vy = SpecExpr::Variable(y);
            let vz = SpecExpr::Variable(z);
            let op1 = written_operator(k1);
            let op2 = written_operator(k2);
            pexpr(toks, 0, 0) == Ok::<(SpecExpr, int), Seq<char>>(
                (
                    if precedence_rank(k2) > precedence_rank(k1) {
                        SpecExpr::Binary(
                            Box::new(vx),
                            op1,
                            Box::new(SpecExpr::Binary(Box::new(vy), op2, Box::new(vz))),
                        )
                    } else {
                        SpecExpr::Binary(
                            Box::new(SpecExpr::Binary(Box::new(vx), op1, Box::new(vy))),
                            op2,
                            Box::new(vz),
                        )
                    },
                    5,
                ),
            )
        }),
{
    lemma_binding_powers_follow_the_table(k1);
    lemma_binding_powers_follow_the_table(k2);
    lemma_text_operators_group_by_precedence(x, k1, y, k2, z);
}

} // verus!
