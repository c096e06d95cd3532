//! The parser: turns tokens into a formula, with Pratt parsing of
//! expressions.
use vstd::prelude::*;
use vstd::string::StringExecFns;
use crate::ast::{
    BinaryOperator, Expr, Formula, LiteralValue, PlotStyle, SpecExpr, SpecStatement, Statement,
    UnaryOperator, models, lemma_models_push, lemma_models_len, statement_models, style_names,
};
use crate::decimal::{Decimal, spec_parse_decimal};
use crate::diagnostics::{
    found_text, kind_name, known_location_text, line_column_text, location_text, push_found_text, push_line_column_text,
    push_location_text, token_kind_name,
};
use crate::lexer::{Lexer, lemma_next_token_facts, spec_tokens};
use crate::token::{SpecToken, Token, TokenType, opt_token_view};

verus! {

// ---------------------------------------------------------------------------
// Specification: the parse of a token sequence.
// ---------------------------------------------------------------------------

/// The outcome of parsing part of the tokens: a value and the position after
/// it, or an error message.
pub type SpecParse<T> = Result<(T, int), Seq<char>>;

/// The token at `pos`, if any.
pub open spec fn cur_tok(toks: Seq<SpecToken>, pos: int) -> Option<SpecToken> {
    if 0 <= pos < toks.len() {
        Some(toks[pos])
    } else {
        None
    }
}

/// The token at `pos` exists and has kind `k`.
pub open spec fn kind_is(toks: Seq<SpecToken>, pos: int, k: TokenType) -> bool {
    0 <= pos < toks.len() && toks[pos].kind == k
}

/// Left and right binding power of an infix operator token.
pub open spec fn infix_power(k: TokenType) -> Option<(int, int)> {
    match k {
        TokenType::Or => Some((1, 2)),
        TokenType::And => Some((3, 4)),
        TokenType::Eq | TokenType::NotEq | TokenType::Lt | TokenType::Gt | TokenType::LtEq
        | TokenType::GtEq => Some((5, 6)),
        TokenType::Plus | TokenType::Minus => Some((7, 8)),
        TokenType::Star | TokenType::Slash => Some((9, 10)),
        _ => None,
    }
}

/// Right binding power of a prefix operator token (`NOT` and `-`).
pub open spec fn prefix_power(k: TokenType) -> int {
    if k == TokenType::Not {
        5
    } else {
        11
    }
}

/// The binary operator an infix operator token stands for.
pub open spec fn binary_op_of(k: TokenType) -> BinaryOperator {
    match k {
        TokenType::Plus => BinaryOperator::Add,
        TokenType::Minus => BinaryOperator::Sub,
        TokenType::Star => BinaryOperator::Mul,
        TokenType::Slash => BinaryOperator::Div,
        TokenType::Gt => BinaryOperator::Gt,
        TokenType::Lt => BinaryOperator::Lt,
        TokenType::GtEq => BinaryOperator::GtEq,
        TokenType::LtEq => BinaryOperator::LtEq,
        TokenType::Eq => BinaryOperator::Eq,
        TokenType::NotEq => BinaryOperator::NotEq,
        TokenType::And => BinaryOperator::And,
        _ => BinaryOperator::Or,
    }
}

/// The unary operator a prefix operator token stands for.
pub open spec fn unary_op_of(k: TokenType) -> UnaryOperator {
    if k == TokenType::Not {
        UnaryOperator::Not
    } else {
        UnaryOperator::Neg
    }
}

pub open spec fn expected_token_msg(k: TokenType, cur: Option<SpecToken>) -> Seq<char> {
    "Syntax Error: Expected token "@ + kind_name(k) + ", but found "@ + found_text(cur) + " at "@
        + location_text(cur)
}

pub open spec fn expected_identifier_msg(cur: Option<SpecToken>) -> Seq<char> {
    "Syntax Error: Expected an Identifier, but found "@ + found_text(cur) + " at "@ + location_text(
        cur,
    )
}

pub open spec fn after_statement_msg(cur: Option<SpecToken>) -> Seq<char> {
    "Syntax Error: 语句后应为 ';' 或文件结束, 但找到 "@ + found_text(cur) + " 在 "@ + location_text(cur)
}

pub open spec fn statement_start_msg(t: SpecToken) -> Seq<char> {
    "Syntax Error: Unexpected token "@ + kind_name(t.kind) + " ("@ + t.lexeme
        + ") at start of statement at "@ + line_column_text(t)
}

pub open spec fn end_in_expression_msg() -> Seq<char> {
    "Syntax Error: Unexpected end of input while parsing expression at end of input"@
}

pub open spec fn bad_number_msg(t: SpecToken) -> Seq<char> {
    "Syntax Error: Invalid number format '"@ + t.lexeme + "' at "@ + line_column_text(t) + ": "@
        + if t.lexeme.len() == 0 {
        "cannot parse float from empty string"@
    } else {
        "invalid float literal"@
    }
}

pub open spec fn unexpected_in_expression_msg(t: SpecToken) -> Seq<char> {
    "Syntax Error: Unexpected token "@ + kind_name(t.kind) + " ("@ + t.lexeme
        + ") found when expecting start of an expression at "@ + line_column_text(t)
}

pub open spec fn trailing_comma_msg(cur: Option<SpecToken>) -> Seq<char> {
    "Syntax Error: Unexpected ')' after comma in function call arguments at "@ + location_text(cur)
}

/// The message for a token that the parser took for a binary (or else a
/// unary) operator but that stands for none.
pub open spec fn unrecognized_operator_msg(k: TokenType, binary: bool, cur: Option<SpecToken>) -> Seq<
    char,
> {
    "Internal Error: Token "@ + kind_name(k) + if binary {
        " is not a recognized binary operator at "@
    } else {
        " is not a recognized unary operator at "@
    } + known_location_text(cur)
}

pub open spec fn argument_separator_msg(cur: Option<SpecToken>) -> Seq<char> {
    "Syntax Error: Expected ',' or ')' after function argument, but found "@ + found_text(cur)
        + " at "@ + location_text(cur)
}

/// An expression from `pos`: a prefix part, then infix operators whose left
/// binding power is at least `min`.
///
/// The grammar functions check that positions stay within the tokens and
/// that every step moves forward; those checks only make the recursion
/// well-founded, as a successful step always moves forward (see
/// `parser_laws`), so their empty-message errors never occur.
pub open spec fn pexpr(toks: Seq<SpecToken>, pos: int, min: int) -> SpecParse<SpecExpr>
    decreases toks.len() - pos, 3int,
{
    if pos < 0 || pos > toks.len() {
        Err(Seq::empty())
    } else {
        match pprefix(toks, pos) {
            Err(m) => Err(m),
            Ok((left, p1)) => if pos < p1 <= toks.len() {
                pinfix(toks, p1, min, left)
            } else {
                Err(Seq::empty())
            },
        }
    }
}

/// The infix operators that follow `left` at `pos`, as long as their left
/// binding power is at least `min`; each takes as its right operand the
/// expression whose operators bind tighter than its right binding power.
pub open spec fn pinfix(toks: Seq<SpecToken>, pos: int, min: int, left: SpecExpr) -> SpecParse<
    SpecExpr,
>
    decreases toks.len() - pos, 0int,
{
    if pos < 0 || pos > toks.len() {
        Err(Seq::empty())
    } else {
        match cur_tok(toks, pos) {
            None => Ok((left, pos)),
            Some(t) => match infix_power(t.kind) {
                None => Ok((left, pos)),
                Some((l, r)) => if l < min {
                    Ok((left, pos))
                } else {
                    match pexpr(toks, pos + 1, r) {
                        Err(m) => Err(m),
                        Ok((right, p2)) => if pos + 1 < p2 <= toks.len() {
                            pinfix(
                                toks,
                                p2,
                                min,
                                SpecExpr::Binary(Box::new(left), binary_op_of(t.kind), Box::new(right)),
                            )
                        } else {
                            Err(Seq::empty())
                        },
                    }
                },
            },
        }
    }
}

/// The prefix part of an expression at `pos`: a number, a variable, a
/// function call (a name, or the keyword `IF`, followed by `(`), a
/// parenthesised expression, or `-`/`NOT` and an operand.
pub open spec fn pprefix(toks: Seq<SpecToken>, pos: int) -> SpecParse<SpecExpr>
    decreases toks.len() - pos, 2int,
{
    if pos < 0 || pos > toks.len() {
        Err(Seq::empty())
    } else {
        match cur_tok(toks, pos) {
            None => Err(end_in_expression_msg()),
            Some(t) => if t.kind == TokenType::Number {
                match spec_parse_decimal(t.lexeme) {
                    Some(d) => Ok((SpecExpr::Literal(d), pos + 1)),
                    None => Err(bad_number_msg(t)),
                }
            } else if t.kind == TokenType::Identifier || t.kind == TokenType::If {
                if kind_is(toks, pos + 1, TokenType::LParen) {
                    pcall(toks, pos)
                } else if t.kind == TokenType::If {
                    Err(unexpected_in_expression_msg(t))
                } else {
                    Ok((SpecExpr::Variable(t.lexeme), pos + 1))
                }
            } else if t.kind == TokenType::LParen {
                match pexpr(toks, pos + 1, 0) {
                    Err(m) => Err(m),
                    Ok((inner, p2)) => if kind_is(toks, p2, TokenType::RParen) {
                        Ok((SpecExpr::Grouped(Box::new(inner)), p2 + 1))
                    } else {
                        Err(expected_token_msg(TokenType::RParen, cur_tok(toks, p2)))
                    },
                }
            } else if t.kind == TokenType::Minus || t.kind == TokenType::Not {
                match pexpr(toks, pos + 1, prefix_power(t.kind)) {
                    Err(m) => Err(m),
                    Ok((operand, p2)) => Ok(
                        (SpecExpr::Unary(unary_op_of(t.kind), Box::new(operand)), p2),
                    ),
                }
            } else {
                Err(unexpected_in_expression_msg(t))
            },
        }
    }
}

/// A function call whose name (an identifier, or the keyword `IF` as it was
/// written) is at `pos` and whose `(` follows it.
pub open spec fn pcall(toks: Seq<SpecToken>, pos: int) -> SpecParse<SpecExpr>
    decreases toks.len() - pos, 1int,
{
    if pos < 0 || pos + 2 > toks.len() {
        Err(Seq::empty())
    } else {
        let name = toks[pos].lexeme;
        if kind_is(toks, pos + 2, TokenType::RParen) {
            Ok((SpecExpr::Call(name, Seq::empty()), pos + 3))
        } else {
            match pargs(toks, pos + 2, Seq::empty()) {
                Err(m) => Err(m),
                Ok((args, p)) => Ok((SpecExpr::Call(name, args), p)),
            }
        }
    }
}

/// The arguments of a call from `pos` on, after the arguments `acc`: an
/// expression, then `,` and more arguments, or `)`.
pub open spec fn pargs(toks: Seq<SpecToken>, pos: int, acc: Seq<SpecExpr>) -> SpecParse<
    Seq<SpecExpr>,
>
    decreases toks.len() - pos, 4int,
{
    if pos < 0 || pos > toks.len() {
        Err(Seq::empty())
    } else {
        match pexpr(toks, pos, 0) {
            Err(m) => Err(m),
            Ok((a, p1)) => if pos < p1 <= toks.len() {
                if kind_is(toks, p1, TokenType::Comma) {
                    if kind_is(toks, p1 + 1, TokenType::RParen) {
                        Err(trailing_comma_msg(cur_tok(toks, p1 + 1)))
                    } else {
                        pargs(toks, p1 + 1, acc.push(a))
                    }
                } else if kind_is(toks, p1, TokenType::RParen) {
                    Ok((acc.push(a), p1 + 1))
                } else {
                    Err(argument_separator_msg(cur_tok(toks, p1)))
                }
            } else {
                Err(Seq::empty())
            },
        }
    }
}

/// The plotting styles from `pos` on, after the styles `acc`: each a `,`
/// and an identifier.
pub open spec fn pstyles(toks: Seq<SpecToken>, pos: int, acc: Seq<Seq<char>>) -> SpecParse<
    Seq<Seq<char>>,
>
    decreases toks.len() - pos,
{
    if pos < 0 || pos > toks.len() {
        Err(Seq::empty())
    } else if kind_is(toks, pos, TokenType::Comma) {
        if kind_is(toks, pos + 1, TokenType::Identifier) {
            pstyles(toks, pos + 2, acc.push(toks[pos + 1].lexeme))
        } else {
            Err(expected_identifier_msg(cur_tok(toks, pos + 1)))
        }
    } else {
        Ok((acc, pos))
    }
}

/// The token at `pos` can start an expression statement: a number, a
/// name, `(`, `-`, `NOT`, or `IF` followed by `(`.
pub open spec fn starts_expression(toks: Seq<SpecToken>, pos: int) -> bool {
    let k = toks[pos].kind;
    k == TokenType::Number || k == TokenType::Identifier || k == TokenType::LParen || k
        == TokenType::Minus || k == TokenType::Not || (k == TokenType::If && kind_is(
        toks,
        pos + 1,
        TokenType::LParen,
    ))
}

/// A statement at `pos`: `NAME := expr`, `NAME : expr styles`, or
/// `expr styles`.
pub open spec fn pstatement(toks: Seq<SpecToken>, pos: int) -> SpecParse<SpecStatement> {
    if pos < 0 || pos >= toks.len() {
        Err(Seq::empty())
    } else if kind_is(toks, pos, TokenType::Identifier) && kind_is(
        toks,
        pos + 1,
        TokenType::ColonAssign,
    ) {
        match pexpr(toks, pos + 2, 0) {
            Err(m) => Err(m),
            Ok((v, p)) => Ok((SpecStatement::Assignment(toks[pos].lexeme, v), p)),
        }
    } else if kind_is(toks, pos, TokenType::Identifier) && kind_is(toks, pos + 1, TokenType::Colon) {
        match pexpr(toks, pos + 2, 0) {
            Err(m) => Err(m),
            Ok((e, p)) => match pstyles(toks, p, Seq::empty()) {
                Err(m) => Err(m),
                Ok((st, p3)) => Ok((SpecStatement::Output(Some(toks[pos].lexeme), e, st), p3)),
            },
        }
    } else if starts_expression(toks, pos) {
        match pexpr(toks, pos, 0) {
            Err(m) => Err(m),
            Ok((e, p)) => match pstyles(toks, p, Seq::empty()) {
                Err(m) => Err(m),
                Ok((st, p3)) => Ok((SpecStatement::Output(None, e, st), p3)),
            },
        }
    } else {
        Err(statement_start_msg(toks[pos]))
    }
}

/// First position at or after `pos` that is not a `;`.
pub open spec fn skip_semicolons(toks: Seq<SpecToken>, pos: int) -> int
    decreases toks.len() - pos,
{
    if kind_is(toks, pos, TokenType::Semicolon) {
        skip_semicolons(toks, pos + 1)
    } else {
        pos
    }
}

/// The statements from `pos` on, after the statements `acc`: statements
/// separated by `;`, with any number of `;` before each.
pub open spec fn pformula(toks: Seq<SpecToken>, pos: int, acc: Seq<SpecStatement>) -> Result<
    Seq<SpecStatement>,
    Seq<char>,
>
    decreases toks.len() - pos,
{
    if pos < 0 || pos >= toks.len() {
        Ok(acc)
    } else {
        let q = skip_semicolons(toks, pos);
        if q >= toks.len() {
            Ok(acc)
        } else {
            match pstatement(toks, q) {
                Err(m) => Err(m),
                Ok((st, p1)) => if pos <= q < p1 <= toks.len() {
                    if kind_is(toks, p1, TokenType::Semicolon) {
                        pformula(toks, p1 + 1, acc.push(st))
                    } else if p1 >= toks.len() {
                        Ok(acc.push(st))
                    } else {
                        Err(after_statement_msg(cur_tok(toks, p1)))
                    }
                } else {
                    Err(Seq::empty())
                },
            }
        }
    }
}

/// The formula that a token sequence denotes, or the error message for it.
pub open spec fn spec_parse_formula(toks: Seq<SpecToken>) -> Result<Seq<SpecStatement>, Seq<char>> {
    pformula(toks, 0, Seq::empty())
}

} // verus!

verus! {

// ---------------------------------------------------------------------------
// The parser.
// ---------------------------------------------------------------------------

/// A parser over the tokens of a lexer, with a cursor on the current token.
pub struct Parser {
    tokens: Vec<Token>,
    pos: usize,
}

/// The values of a sequence of tokens.
pub open spec fn token_views(ts: Seq<Token>) -> Seq<SpecToken> {
    ts.map_values(|t: Token| t@)
}

/// Left and right binding power of an infix operator token.
fn infix_binding_power(token_type: TokenType) -> (r: Option<(u8, u8)>)
    ensures
        match r {
            Some((l, rr)) => infix_power(token_type) == Some((l as int, rr as int)),
            None => infix_power(token_type).is_none(),
        },
{
    match token_type {
        TokenType::Or => Some((1, 2)),
        TokenType::And => Some((3, 4)),
        TokenType::Eq | TokenType::NotEq | TokenType::Lt | TokenType::Gt | TokenType::LtEq
        | TokenType::GtEq => Some((5, 6)),
        TokenType::Plus | TokenType::Minus => Some((7, 8)),
        TokenType::Star | TokenType::Slash => Some((9, 10)),
        _ => None,
    }
}

/// Right binding power of a prefix operator token (`NOT` and `-`).
fn prefix_binding_power(token_type: TokenType) -> (r: Option<((), u8)>)
    ensures
        r.is_some() == (token_type == TokenType::Not || token_type == TokenType::Minus),
        r.is_some() ==> r.unwrap().1 as int == prefix_power(token_type),
{
    match token_type {
        TokenType::Not => Some(((), 5)),
        TokenType::Minus => Some(((), 11)),
        _ => None,
    }
}

impl Parser {
    /// The tokens being parsed.
    pub closed spec fn toks(&self) -> Seq<SpecToken> {
        token_views(self.tokens@)
    }

    /// Index of the current token (the number of tokens at the end).
    pub closed spec fn position(&self) -> int {
        self.pos as int
    }

    pub closed spec fn wf(&self) -> bool {
        self.pos <= self.tokens.len()
    }

    /// A parser over all the tokens that `lexer` returns before `Eof`, with
    /// its cursor on the first of them.
    pub fn new(lexer: Lexer) -> (parser: Self)
        requires
            lexer.wf(),
        ensures
            parser.wf(),
            parser.toks() == spec_tokens(lexer.source(), lexer.cursor()),
            parser.position() == 0,
    {
        let mut lexer = lexer;
        let ghost s = lexer.source();
        let ghost p0 = lexer.cursor();
        proof {
            lexer.lemma_cursor_in_bounds();
        }
        let mut tokens: Vec<Token> = Vec::new();
        loop
            invariant
                lexer.wf(),
                lexer.source() == s,
                0 <= lexer.cursor() <= s.len(),
                token_views(tokens@) + spec_tokens(s, lexer.cursor()) == spec_tokens(s, p0),
            ensures
                token_views(tokens@) == spec_tokens(s, p0),
            decreases s.len() - lexer.cursor(),
        {
            let ghost before = tokens@;
            let ghost c = lexer.cursor();
            proof {
                lemma_next_token_facts(s, c);
            }
            match lexer.next() {
                Some(t) => {
                    tokens.push(t);
                    proof {
                        lexer.lemma_cursor_in_bounds();
                        assert(token_views(tokens@) =~= token_views(before).push(t@));
                        assert(token_views(tokens@) + spec_tokens(s, lexer.cursor())
                            =~= token_views(before) + spec_tokens(s, c));
                    }
                },
                None => {
                    assert(token_views(tokens@) =~= token_views(tokens@) + spec_tokens(s, c));
                    break;
                },
            }
        }
        Parser { tokens, pos: 0 }
    }

    /// Moves to the next token (staying at the end once there).
    fn advance(&mut self)
        requires
            old(self).wf(),
        ensures
            final(self).wf(),
            final(self).tokens == old(self).tokens,
            final(self).pos == if old(self).pos < old(self).tokens.len() {
                old(self).pos + 1
            } else {
                old(self).pos as int
            },
    {
        if self.pos < self.tokens.len() {
            self.pos = self.pos + 1;
        }
    }

    /// The current token, if any.
    fn current(&self) -> (r: Option<&Token>)
        requires
            self.wf(),
        ensures
            opt_token_view(r) == cur_tok(self.toks(), self.pos as int),
    {
        if self.pos < self.tokens.len() {
            Some(&self.tokens[self.pos])
        } else {
            None
        }
    }

    /// The kind of the token after the current one, if any.
    fn peek_type(&self) -> (r: Option<TokenType>)
        requires
            self.wf(),
        ensures
            r == match cur_tok(self.toks(), self.pos + 1) {
                Some(t) => Some(t.kind),
                None => None::<TokenType>,
            },
    {
        if self.pos < self.tokens.len() && self.pos + 1 < self.tokens.len() {
            Some(self.tokens[self.pos + 1].token_type)
        } else {
            None
        }
    }

    /// The kind of the current token, if any.
    fn current_type(&self) -> (r: Option<TokenType>)
        requires
            self.wf(),
        ensures
            r == match cur_tok(self.toks(), self.pos as int) {
                Some(t) => Some(t.kind),
                None => None::<TokenType>,
            },
    {
        if self.pos < self.tokens.len() {
            Some(self.tokens[self.pos].token_type)
        } else {
            None
        }
    }

    /// Whether the current token has kind `expected_type`.
    fn check(&self, expected_type: TokenType) -> (r: bool)
        requires
            self.wf(),
        ensures
            r == kind_is(self.toks(), self.pos as int, expected_type),
    {
        match self.current_type() {
            Some(t) => t == expected_type,
            None => false,
        }
    }

    /// Whether the token after the current one has kind `expected_type`.
    fn check_peek(&self, expected_type: TokenType) -> (r: bool)
        requires
            self.wf(),
        ensures
            r == kind_is(self.toks(), self.pos + 1, expected_type),
    {
        match self.peek_type() {
            Some(t) => t == expected_type,
            None => false,
        }
    }

    fn expected_token_error(&self, expected_type: TokenType) -> (m: String)
        requires
            self.wf(),
        ensures
            m@ == expected_token_msg(expected_type, cur_tok(self.toks(), self.pos as int)),
    {
        let mut m = String::new();
        m.append("Syntax Error: Expected token ");
        m.append(token_kind_name(expected_type));
        m.append(", but found ");
        push_found_text(&mut m, self.current());
        m.append(" at ");
        push_location_text(&mut m, self.current());
        m
    }

    /// Consumes the current token if it has kind `expected_type`, else
    /// reports what was found instead.
    fn expect(&mut self, expected_type: TokenType) -> (r: Result<(), String>)
        requires
            old(self).wf(),
        ensures
            final(self).wf(),
            final(self).tokens == old(self).tokens,
            r.is_ok() == kind_is(old(self).toks(), old(self).pos as int, expected_type),
            r.is_ok() ==> final(self).pos == old(self).pos + 1,
            r matches Err(m) ==> m@ == expected_token_msg(
                expected_type,
                cur_tok(old(self).toks(), old(self).pos as int),
            ),
    {
        if self.check(expected_type) {
            self.advance();
            Ok(())
        } else {
            Err(self.expected_token_error(expected_type))
        }
    }

    /// Consumes the current token if it is an identifier and returns its
    /// text, else reports what was found instead.
    fn expect_identifier(&mut self) -> (r: Result<String, String>)
        requires
            old(self).wf(),
        ensures
            final(self).wf(),
            final(self).tokens == old(self).tokens,
            r.is_ok() == kind_is(old(self).toks(), old(self).pos as int, TokenType::Identifier),
            r matches Ok(name) ==> final(self).pos == old(self).pos + 1 && name@ == old(
                self,
            ).toks()[old(self).pos as int].lexeme,
            r matches Err(m) ==> m@ == expected_identifier_msg(
                cur_tok(old(self).toks(), old(self).pos as int),
            ),
    {
        if self.check(TokenType::Identifier) {
            let name = self.tokens[self.pos].lexeme.clone();
            self.advance();
            Ok(name)
        } else {
            let mut m = String::new();
            m.append("Syntax Error: Expected an Identifier, but found ");
            push_found_text(&mut m, self.current());
            m.append(" at ");
            push_location_text(&mut m, self.current());
            Err(m)
        }
    }
}

} // verus!

verus! {

impl Parser {
    fn token_to_binary_operator(&self, token_type: TokenType) -> (r: Result<BinaryOperator, String>)
        requires
            self.wf(),
        ensures
            match r {
                Ok(op) => infix_power(token_type).is_some() && op == binary_op_of(token_type),
                Err(m) => infix_power(token_type).is_none() && m@ == unrecognized_operator_msg(
                    token_type,
                    true,
                    cur_tok(self.toks(), self.pos as int),
                ),
            },
    {
        match token_type {
            TokenType::Plus => Ok(BinaryOperator::Add),
            TokenType::Minus => Ok(BinaryOperator::Sub),
            TokenType::Star => Ok(BinaryOperator::Mul),
            TokenType::Slash => Ok(BinaryOperator::Div),
            TokenType::Gt => Ok(BinaryOperator::Gt),
            TokenType::Lt => Ok(BinaryOperator::Lt),
            TokenType::GtEq => Ok(BinaryOperator::GtEq),
            TokenType::LtEq => Ok(BinaryOperator::LtEq),
            TokenType::Eq => Ok(BinaryOperator::Eq),
            TokenType::NotEq => Ok(BinaryOperator::NotEq),
            TokenType::And => Ok(BinaryOperator::And),
            TokenType::Or => Ok(BinaryOperator::Or),
            _ => {
                let mut m = String::new();
                m.append("Internal Error: Token ");
                m.append(token_kind_name(token_type));
                m.append(" is not a recognized binary operator at ");
                self.push_known_location(&mut m);
                Err(m)
            },
        }
    }

    fn token_to_unary_operator(&self, token_type: TokenType) -> (r: Result<UnaryOperator, String>)
        requires
            self.wf(),
        ensures
            match r {
                Ok(op) => (token_type == TokenType::Not || token_type == TokenType::Minus) && op
                    == unary_op_of(token_type),
                Err(m) => !(token_type == TokenType::Not || token_type == TokenType::Minus) && m@
                    == unrecognized_operator_msg(
                    token_type,
                    false,
                    cur_tok(self.toks(), self.pos as int),
                ),
            },
    {
        match token_type {
            TokenType::Not => Ok(UnaryOperator::Not),
            TokenType::Minus => Ok(UnaryOperator::Neg),
            _ => {
                let mut m = String::new();
                m.append("Internal Error: Token ");
                m.append(token_kind_name(token_type));
                m.append(" is not a recognized unary operator at ");
                self.push_known_location(&mut m);
                Err(m)
            },
        }
    }

    /// Appends where the current token is, or `unknown location`.
    fn push_known_location(&self, m: &mut String)
        requires
            self.wf(),
        ensures
            final(m)@ == old(m)@ + known_location_text(cur_tok(self.toks(), self.pos as int)),
    {
        match self.current() {
            Some(t) => push_line_column_text(m, t),
            None => {
                m.append("unknown location");
            },
        }
    }

    /// Parses an expression whose infix operators have a left binding power
    /// of at least `min_precedence`.
    fn parse_expression(&mut self, min_precedence: u8) -> (r: Result<Expr, String>)
        requires
            old(self).wf(),
        ensures
            final(self).wf(),
            final(self).tokens == old(self).tokens,
            match r {
                Ok(e) => pexpr(old(self).toks(), old(self).pos as int, min_precedence as int) == Ok::<
                    (SpecExpr, int),
                    Seq<char>,
                >((e.model(), final(self).pos as int)) && old(self).pos < final(self).pos,
                Err(m) => pexpr(old(self).toks(), old(self).pos as int, min_precedence as int)
                    == Err::<(SpecExpr, int), Seq<char>>(m@),
            },
        decreases old(self).tokens.len() - old(self).pos, 3int,
    {
        let ghost toks = self.toks();
        let ghost p0 = self.pos as int;
        let ghost min = min_precedence as int;
        let mut left = match self.parse_prefix() {
            Ok(e) => e,
            Err(m) => {
                return Err(m);
            },
        };
        let ghost tokens0 = self.tokens;
        loop
            invariant
                self.wf(),
                self.tokens == tokens0,
                tokens0 == old(self).tokens,
                p0 == old(self).pos,
                min == min_precedence as int,
                toks == self.toks(),
                p0 < self.pos,
                pinfix(toks, self.pos as int, min, left.model()) == pexpr(toks, p0, min),
            ensures
                self.wf(),
                self.tokens == tokens0,
                p0 < self.pos,
                pexpr(toks, p0, min) == Ok::<(SpecExpr, int), Seq<char>>(
                    (left.model(), self.pos as int),
                ),
            decreases self.tokens.len() - self.pos,
        {
            let kind = match self.current_type() {
                Some(k) => k,
                None => {
                    break;
                },
            };
            let (left_bp, right_bp) = match infix_binding_power(kind) {
                Some(bp) => bp,
                None => {
                    break;
                },
            };
            if left_bp < min_precedence {
                break;
            }
            self.advance();
            let operator = match self.token_to_binary_operator(kind) {
                Ok(op) => op,
                Err(m) => {
                    return Err(m);
                },
            };
            let right = match self.parse_expression(right_bp) {
                Ok(e) => e,
                Err(m) => {
                    return Err(m);
                },
            };
            left = Expr::BinaryOp { left: Box::new(left), operator, right: Box::new(right) };
        }
        Ok(left)
    }

    /// Parses the prefix part of an expression.
    fn parse_prefix(&mut self) -> (r: Result<Expr, String>)
        requires
            old(self).wf(),
        ensures
            final(self).wf(),
            final(self).tokens == old(self).tokens,
            match r {
                Ok(e) => pprefix(old(self).toks(), old(self).pos as int) == Ok::<
                    (SpecExpr, int),
                    Seq<char>,
                >((e.model(), final(self).pos as int)) && old(self).pos < final(self).pos,
                Err(m) => pprefix(old(self).toks(), old(self).pos as int) == Err::<
                    (SpecExpr, int),
                    Seq<char>,
                >(m@),
            },
        decreases old(self).tokens.len() - old(self).pos, 2int,
    {
        let ghost toks = self.toks();
        let ghost p0 = self.pos as int;
        if self.pos >= self.tokens.len() {
            let mut m = String::new();
            m.append("Syntax Error: Unexpected end of input while parsing expression at end of input");
            return Err(m);
        }
        let kind = self.tokens[self.pos].token_type;
        let lexeme = self.tokens[self.pos].lexeme.clone();
        if kind == TokenType::Number {
            match Decimal::parse(lexeme.as_str()) {
                Some(d) => {
                    self.advance();
                    Ok(Expr::Literal(LiteralValue::Number(d)))
                },
                None => {
                    let mut m = String::new();
                    m.append("Syntax Error: Invalid number format '");
                    m.append(lexeme.as_str());
                    m.append("' at ");
                    push_line_column_text(&mut m, &self.tokens[self.pos]);
                    m.append(": ");
                    if lexeme.as_str().is_empty() {
                        m.append("cannot parse float from empty string");
                    } else {
                        m.append("invalid float literal");
                    }
                    self.advance();
                    Err(m)
                },
            }
        } else if kind == TokenType::Identifier {
            if self.check_peek(TokenType::LParen) {
                self.parse_function_call()
            } else {
                self.advance();
                Ok(Expr::Variable(lexeme))
            }
        } else if kind == TokenType::If && self.check_peek(TokenType::LParen) {
            self.parse_function_call()
        } else if kind == TokenType::LParen {
            self.advance();
            let inner = match self.parse_expression(0) {
                Ok(e) => e,
                Err(m) => {
                    return Err(m);
                },
            };
            match self.expect(TokenType::RParen) {
                Ok(()) => {},
                Err(m) => {
                    return Err(m);
                },
            }
            Ok(Expr::Grouped(Box::new(inner)))
        } else if kind == TokenType::Minus || kind == TokenType::Not {
            self.advance();
            let operator = match self.token_to_unary_operator(kind) {
                Ok(op) => op,
                Err(m) => {
                    return Err(m);
                },
            };
            let right_bp = match prefix_binding_power(kind) {
                Some((_, bp)) => bp,
                None => {
                    let mut m = String::new();
                    m.append("Internal Error: No binding power defined for prefix operator ");
                    m.append(token_kind_name(kind));
                    return Err(m);
                },
            };
            let operand = match self.parse_expression(right_bp) {
                Ok(e) => e,
                Err(m) => {
                    return Err(m);
                },
            };
            Ok(Expr::UnaryOp { operator, operand: Box::new(operand) })
        } else {
            let mut m = String::new();
            m.append("Syntax Error: Unexpected token ");
            m.append(token_kind_name(kind));
            m.append(" (");
            m.append(lexeme.as_str());
            m.append(") found when expecting start of an expression at ");
            push_line_column_text(&mut m, &self.tokens[self.pos]);
            Err(m)
        }
    }

    /// Parses a function call: its name, `(`, its arguments separated by
    /// `,`, and `)`.
    fn parse_function_call(&mut self) -> (r: Result<Expr, String>)
        requires
            old(self).wf(),
            kind_is(old(self).toks(), old(self).pos as int, TokenType::Identifier) || kind_is(
                old(self).toks(),
                old(self).pos as int,
                TokenType::If,
            ),
            kind_is(old(self).toks(), old(self).pos + 1, TokenType::LParen),
        ensures
            final(self).wf(),
            final(self).tokens == old(self).tokens,
            match r {
                Ok(e) => pcall(old(self).toks(), old(self).pos as int) == Ok::<
                    (SpecExpr, int),
                    Seq<char>,
                >((e.model(), final(self).pos as int)) && old(self).pos < final(self).pos,
                Err(m) => pcall(old(self).toks(), old(self).pos as int) == Err::<
                    (SpecExpr, int),
                    Seq<char>,
                >(m@),
            },
        decreases old(self).tokens.len() - old(self).pos, 1int,
    {
        let ghost toks = self.toks();
        let ghost p0 = self.pos as int;
        let func_name = if self.check(TokenType::If) {
            let name = self.tokens[self.pos].lexeme.clone();
            self.advance();
            name
        } else {
            match self.expect_identifier() {
                Ok(name) => name,
                Err(m) => {
                    return Err(m);
                },
            }
        };
        match self.expect(TokenType::LParen) {
            Ok(()) => {},
            Err(m) => {
                return Err(m);
            },
        }
        let mut args: Vec<Expr> = Vec::new();
        proof {
            lemma_models_len(args@);
            assert(models(args@) =~= Seq::<SpecExpr>::empty());
        }
        let ghost a0 = self.pos as int;
        let ghost tokens0 = self.tokens;
        if !self.check(TokenType::RParen) {
            loop
                invariant_except_break
                    pargs(toks, self.pos as int, models(args@)) == pargs(toks, a0, Seq::empty()),
                invariant
                    self.wf(),
                    self.tokens == tokens0,
                    tokens0 == old(self).tokens,
                    p0 == old(self).pos,
                    toks == self.toks(),
                    a0 <= self.pos,
                    a0 == p0 + 2,
                    a0 <= toks.len(),
                    !kind_is(toks, a0, TokenType::RParen),
                ensures
                    self.wf(),
                    self.tokens == tokens0,
                    a0 < self.pos,
                    kind_is(toks, self.pos as int, TokenType::RParen),
                    pargs(toks, a0, Seq::empty()) == Ok::<(Seq<SpecExpr>, int), Seq<char>>(
                        (models(args@), self.pos + 1),
                    ),
                decreases self.tokens.len() - self.pos,
            {
                let arg_expr = match self.parse_expression(0) {
                    Ok(e) => e,
                    Err(m) => {
                        return Err(m);
                    },
                };
                let ghost old_args = args@;
                args.push(arg_expr);
                proof {
                    lemma_models_push(old_args, arg_expr);
                }
                if self.check(TokenType::Comma) {
                    self.advance();
                    if self.check(TokenType::RParen) {
                        let mut m = String::new();
                        m.append("Syntax Error: Unexpected ')' after comma in function call arguments at ");
                        push_location_text(&mut m, self.current());
                        return Err(m);
                    }
                } else if self.check(TokenType::RParen) {
                    break;
                } else {
                    let mut m = String::new();
                    m.append("Syntax Error: Expected ',' or ')' after function argument, but found ");
                    push_found_text(&mut m, self.current());
                    m.append(" at ");
                    push_location_text(&mut m, self.current());
                    return Err(m);
                }
            }
        }
        match self.expect(TokenType::RParen) {
            Ok(()) => {},
            Err(m) => {
                return Err(m);
            },
        }
        Ok(Expr::FunctionCall { name: func_name, args })
    }
}

} // verus!

verus! {

impl Parser {
    /// Parses the plotting styles after an output expression: each a `,` and
    /// an identifier.
    fn parse_plot_styles(&mut self) -> (r: Result<Vec<PlotStyle>, String>)
        requires
            old(self).wf(),
        ensures
            final(self).wf(),
            final(self).tokens == old(self).tokens,
            match r {
                Ok(st) => pstyles(old(self).toks(), old(self).pos as int, Seq::empty()) == Ok::<
                    (Seq<Seq<char>>, int),
                    Seq<char>,
                >((style_names(st@), final(self).pos as int)) && old(self).pos <= final(self).pos,
                Err(m) => pstyles(old(self).toks(), old(self).pos as int, Seq::empty()) == Err::<
                    (Seq<Seq<char>>, int),
                    Seq<char>,
                >(m@),
            },
    {
        let ghost toks = self.toks();
        let ghost p0 = self.pos as int;
        let mut styles: Vec<PlotStyle> = Vec::new();
        assert(style_names(styles@) =~= Seq::<Seq<char>>::empty());
        while self.check(TokenType::Comma)
            invariant
                self.wf(),
                self.tokens == old(self).tokens,
                toks == self.toks(),
                p0 == old(self).pos,
                p0 <= self.pos,
                pstyles(toks, self.pos as int, style_names(styles@)) == pstyles(
                    toks,
                    p0,
                    Seq::empty(),
                ),
            decreases self.tokens.len() - self.pos,
        {
            self.advance();
            let style_name = match self.expect_identifier() {
                Ok(name) => name,
                Err(m) => {
                    return Err(m);
                },
            };
            let ghost old_styles = styles@;
            styles.push(PlotStyle(style_name));
            assert(style_names(styles@) =~= style_names(old_styles).push(style_name@));
        }
        Ok(styles)
    }

    /// Parses `NAME := expr`.
    fn parse_assignment_statement(&mut self) -> (r: Result<Statement, String>)
        requires
            old(self).wf(),
            kind_is(old(self).toks(), old(self).pos as int, TokenType::Identifier),
            kind_is(old(self).toks(), old(self).pos + 1, TokenType::ColonAssign),
        ensures
            final(self).wf(),
            final(self).tokens == old(self).tokens,
            match r {
                Ok(st) => pstatement(old(self).toks(), old(self).pos as int) == Ok::<
                    (SpecStatement, int),
                    Seq<char>,
                >((st.model(), final(self).pos as int)) && old(self).pos < final(self).pos,
                Err(m) => pstatement(old(self).toks(), old(self).pos as int) == Err::<
                    (SpecStatement, int),
                    Seq<char>,
                >(m@),
            },
    {
        let variable_name = match self.expect_identifier() {
            Ok(name) => name,
            Err(m) => {
                return Err(m);
            },
        };
        match self.expect(TokenType::ColonAssign) {
            Ok(()) => {},
            Err(m) => {
                return Err(m);
            },
        }
        let value_expr = match self.parse_expression(0) {
            Ok(e) => e,
            Err(m) => {
                return Err(m);
            },
        };
        Ok(Statement::Assignment { variable: variable_name, value: value_expr })
    }

    /// Parses `NAME : expr styles`.
    fn parse_output_statement_with_name(&mut self) -> (r: Result<Statement, String>)
        requires
            old(self).wf(),
            kind_is(old(self).toks(), old(self).pos as int, TokenType::Identifier),
            kind_is(old(self).toks(), old(self).pos + 1, TokenType::Colon),
        ensures
            final(self).wf(),
            final(self).tokens == old(self).tokens,
            match r {
                Ok(st) => pstatement(old(self).toks(), old(self).pos as int) == Ok::<
                    (SpecStatement, int),
                    Seq<char>,
                >((st.model(), final(self).pos as int)) && old(self).pos < final(self).pos,
                Err(m) => pstatement(old(self).toks(), old(self).pos as int) == Err::<
                    (SpecStatement, int),
                    Seq<char>,
                >(m@),
            },
    {
        let output_name = match self.expect_identifier() {
            Ok(name) => name,
            Err(m) => {
                return Err(m);
            },
        };
        match self.expect(TokenType::Colon) {
            Ok(()) => {},
            Err(m) => {
                return Err(m);
            },
        }
        let expr = match self.parse_expression(0) {
            Ok(e) => e,
            Err(m) => {
                return Err(m);
            },
        };
        let styles = match self.parse_plot_styles() {
            Ok(st) => st,
            Err(m) => {
                return Err(m);
            },
        };
        Ok(Statement::Output { name: Some(output_name), expr, styles })
    }

    /// Parses `expr styles`.
    fn parse_unnamed_output_statement(&mut self) -> (r: Result<Statement, String>)
        requires
            old(self).wf(),
            old(self).pos < old(self).tokens.len(),
            !(kind_is(old(self).toks(), old(self).pos as int, TokenType::Identifier) && kind_is(
                old(self).toks(),
                old(self).pos + 1,
                TokenType::ColonAssign,
            )),
            !(kind_is(old(self).toks(), old(self).pos as int, TokenType::Identifier) && kind_is(
                old(self).toks(),
                old(self).pos + 1,
                TokenType::Colon,
            )),
            starts_expression(old(self).toks(), old(self).pos as int),
        ensures
            final(self).wf(),
            final(self).tokens == old(self).tokens,
            match r {
                Ok(st) => pstatement(old(self).toks(), old(self).pos as int) == Ok::<
                    (SpecStatement, int),
                    Seq<char>,
                >((st.model(), final(self).pos as int)) && old(self).pos < final(self).pos,
                Err(m) => pstatement(old(self).toks(), old(self).pos as int) == Err::<
                    (SpecStatement, int),
                    Seq<char>,
                >(m@),
            },
    {
        let expr = match self.parse_expression(0) {
            Ok(e) => e,
            Err(m) => {
                return Err(m);
            },
        };
        let styles = match self.parse_plot_styles() {
            Ok(st) => st,
            Err(m) => {
                return Err(m);
            },
        };
        Ok(Statement::Output { name: None, expr, styles })
    }

    /// Parses one statement.
    fn parse_statement(&mut self) -> (r: Result<Statement, String>)
        requires
            old(self).wf(),
            old(self).pos < old(self).tokens.len(),
        ensures
            final(self).wf(),
            final(self).tokens == old(self).tokens,
            match r {
                Ok(st) => pstatement(old(self).toks(), old(self).pos as int) == Ok::<
                    (SpecStatement, int),
                    Seq<char>,
                >((st.model(), final(self).pos as int)) && old(self).pos < final(self).pos,
                Err(m) => pstatement(old(self).toks(), old(self).pos as int) == Err::<
                    (SpecStatement, int),
                    Seq<char>,
                >(m@),
            },
    {
        if self.check(TokenType::Identifier) && self.check_peek(TokenType::ColonAssign) {
            self.parse_assignment_statement()
        } else if self.check(TokenType::Identifier) && self.check_peek(TokenType::Colon) {
            self.parse_output_statement_with_name()
        } else {
            let kind = self.tokens[self.pos].token_type;
            let starts = match kind {
                TokenType::Number | TokenType::Identifier | TokenType::LParen | TokenType::Minus
                | TokenType::Not => true,
                TokenType::If => self.check_peek(TokenType::LParen),
                _ => false,
            };
            if starts {
                self.parse_unnamed_output_statement()
            } else {
                let t = &self.tokens[self.pos];
                let mut m = String::new();
                m.append("Syntax Error: Unexpected token ");
                m.append(token_kind_name(kind));
                m.append(" (");
                m.append(t.lexeme.as_str());
                m.append(") at start of statement at ");
                push_line_column_text(&mut m, t);
                Err(m)
            }
        }
    }

    /// Parses the whole formula: statements separated by `;`, with any
    /// number of `;` before each. An error message tells what was expected,
    /// what was found, and where.
    pub fn parse_formula(&mut self) -> (r: Result<Formula, String>)
        requires
            old(self).wf(),
        ensures
            final(self).wf(),
            final(self).toks() == old(self).toks(),
            match r {
                Ok(f) => pformula(old(self).toks(), old(self).position(), Seq::empty()) == Ok::<
                    Seq<SpecStatement>,
                    Seq<char>,
                >(f.model()),
                Err(m) => pformula(old(self).toks(), old(self).position(), Seq::empty()) == Err::<
                    Seq<SpecStatement>,
                    Seq<char>,
                >(m@),
            },
    {
        let ghost toks = self.toks();
        let ghost p0 = self.pos as int;
        let mut statements: Vec<Statement> = Vec::new();
        assert(statement_models(statements@) =~= Seq::<SpecStatement>::empty());
        loop
            invariant
                self.wf(),
                self.tokens == old(self).tokens,
                toks == self.toks(),
                p0 == old(self).pos,
                pformula(toks, self.pos as int, statement_models(statements@)) == pformula(
                    toks,
                    p0,
                    Seq::empty(),
                ),
            ensures
                self.wf(),
                self.tokens == old(self).tokens,
                pformula(toks, p0, Seq::empty()) == Ok::<Seq<SpecStatement>, Seq<char>>(
                    statement_models(statements@),
                ),
            decreases self.tokens.len() - self.pos,
        {
            if self.pos >= self.tokens.len() {
                break;
            }
            let ghost start = self.pos as int;
            while self.check(TokenType::Semicolon)
                invariant
                    self.wf(),
                    self.tokens == old(self).tokens,
                    toks == self.toks(),
                    start <= self.pos,
                    skip_semicolons(toks, self.pos as int) == skip_semicolons(toks, start),
                ensures
                    self.wf(),
                    self.tokens == old(self).tokens,
                    toks == self.toks(),
                    start <= self.pos,
                    skip_semicolons(toks, self.pos as int) == skip_semicolons(toks, start),
                    !kind_is(toks, self.pos as int, TokenType::Semicolon),
                decreases self.tokens.len() - self.pos,
            {
                self.advance();
                if self.pos >= self.tokens.len() {
                    break;
                }
            }
            if self.pos >= self.tokens.len() {
                break;
            }
            assert(!kind_is(toks, self.pos as int, TokenType::Semicolon));
            assert(skip_semicolons(toks, self.pos as int) == self.pos as int);
            assert(skip_semicolons(toks, start) == self.pos as int);
            let stmt = match self.parse_statement() {
                Ok(st) => st,
                Err(m) => {
                    return Err(m);
                },
            };
            let ghost old_statements = statements@;
            statements.push(stmt);
            assert(statement_models(statements@) =~= statement_models(old_statements).push(
                stmt.model(),
            ));
            if self.check(TokenType::Semicolon) {
                self.advance();
            } else if self.pos >= self.tokens.len() {
            } else {
                let mut m = String::new();
                m.append("Syntax Error: 语句后应为 ';' 或文件结束, 但找到 ");
                push_found_text(&mut m, self.current());
                m.append(" 在 ");
                push_location_text(&mut m, self.current());
                return Err(m);
            }
        }
        Ok(Formula { statements })
    }
}

} // verus!
