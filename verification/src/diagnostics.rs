//! Text of the parser's error messages.
use vstd::prelude::*;
use vstd::string::StringExecFns;
use crate::token::{SpecToken, Token, TokenType, opt_token_view};

verus! {

/// The name of a token kind, as `{:?}` prints it.
pub open spec fn kind_name(k: TokenType) -> Seq<char> {
    match k {
        TokenType::LParen => "LParen"@,
        TokenType::RParen => "RParen"@,
        TokenType::Comma => "Comma"@,
        TokenType::Semicolon => "Semicolon"@,
        TokenType::Plus => "Plus"@,
        TokenType::Minus => "Minus"@,
        TokenType::Star => "Star"@,
        TokenType::Slash => "Slash"@,
        TokenType::Colon => "Colon"@,
        TokenType::Gt => "Gt"@,
        TokenType::Lt => "Lt"@,
        TokenType::Eq => "Eq"@,
        TokenType::ColonAssign => "ColonAssign"@,
        TokenType::GtEq => "GtEq"@,
        TokenType::LtEq => "LtEq"@,
        TokenType::NotEq => "NotEq"@,
        TokenType::Identifier => "Identifier"@,
        TokenType::Number => "Number"@,
        TokenType::String => "String"@,
        TokenType::If => "If"@,
        TokenType::Then => "Then"@,
        TokenType::Else => "Else"@,
        TokenType::And => "And"@,
        TokenType::Or => "Or"@,
        TokenType::Not => "Not"@,
        TokenType::Illegal => "Illegal"@,
        TokenType::Eof => "Eof"@,
    }
}

pub fn token_kind_name(k: TokenType) -> (r: &'static str)
    ensures
        r@ == kind_name(k),
{
    match k {
        TokenType::LParen => "LParen",
        TokenType::RParen => "RParen",
        TokenType::Comma => "Comma",
        TokenType::Semicolon => "Semicolon",
        TokenType::Plus => "Plus",
        TokenType::Minus => "Minus",
        TokenType::Star => "Star",
        TokenType::Slash => "Slash",
        TokenType::Colon => "Colon",
        TokenType::Gt => "Gt",
        TokenType::Lt => "Lt",
        TokenType::Eq => "Eq",
        TokenType::ColonAssign => "ColonAssign",
        TokenType::GtEq => "GtEq",
        TokenType::LtEq => "LtEq",
        TokenType::NotEq => "NotEq",
        TokenType::Identifier => "Identifier",
        TokenType::Number => "Number",
        TokenType::String => "String",
        TokenType::If => "If",
        TokenType::Then => "Then",
        TokenType::Else => "Else",
        TokenType::And => "And",
        TokenType::Or => "Or",
        TokenType::Not => "Not",
        TokenType::Illegal => "Illegal",
        TokenType::Eof => "Eof",
    }
}

/// The decimal digits of a natural number.
pub open spec fn nat_text(n: nat) -> Seq<char>
    decreases n,
{
    if n < 10 {
        seq![(n + '0' as int) as char]
    } else {
        nat_text(n / 10) + seq![((n % 10) + '0' as int) as char]
    }
}

/// Appends the decimal digits of `n` to `s`.
pub fn push_nat_text(s: &mut String, n: usize)
    ensures
        final(s)@ == old(s)@ + nat_text(n as nat),
    decreases n,
{
    if n >= 10 {
        push_nat_text(s, n / 10);
    }
    let d = (n % 10) as u32;
    let c = char_from_digit(d);
    crate::chars::push_char(s, c);
}

fn char_from_digit(d: u32) -> (c: char)
    requires
        d < 10,
    ensures
        c == (d + '0' as int) as char,
{
    match d {
        0 => '0',
        1 => '1',
        2 => '2',
        3 => '3',
        4 => '4',
        5 => '5',
        6 => '6',
        7 => '7',
        8 => '8',
        _ => '9',
    }
}

/// `{:?}` of the current token's kind: `Some(Kind)`, or `None` at the end.
pub open spec fn found_text(cur: Option<SpecToken>) -> Seq<char> {
    match cur {
        Some(t) => "Some("@ + kind_name(t.kind) + ")"@,
        None => "None"@,
    }
}

/// Where the current token is: `line L, column C`, or `end of input`.
pub open spec fn location_text(cur: Option<SpecToken>) -> Seq<char> {
    match cur {
        Some(t) => line_column_text(t),
        None => "end of input"@,
    }
}

/// Where the current token is, for an internal error: `line L, column C`,
/// or `unknown location` past the last token.
pub open spec fn known_location_text(cur: Option<SpecToken>) -> Seq<char> {
    match cur {
        Some(t) => line_column_text(t),
        None => "unknown location"@,
    }
}

/// `line L, column C` for a token.
pub open spec fn line_column_text(t: SpecToken) -> Seq<char> {
    "line "@ + nat_text(t.line as nat) + ", column "@ + nat_text(t.column as nat)
}

pub fn push_found_text(s: &mut String, cur: Option<&Token>)
    ensures
        final(s)@ == old(s)@ + found_text(opt_token_view(cur)),
{
    match cur {
        Some(t) => {
            s.append("Some(");
            s.append(token_kind_name(t.token_type));
            s.append(")");
        },
        None => {
            s.append("None");
        },
    }
}

pub fn push_location_text(s: &mut String, cur: Option<&Token>)
    ensures
        final(s)@ == old(s)@ + location_text(opt_token_view(cur)),
{
    match cur {
        Some(t) => push_line_column_text(s, t),
        None => {
            s.append("end of input");
        },
    }
}

pub fn push_line_column_text(s: &mut String, t: &Token)
    ensures
        final(s)@ == old(s)@ + line_column_text(t@),
{
    s.append("line ");
    push_nat_text(s, t.line);
    s.append(", column ");
    push_nat_text(s, t.column);
}

} // verus!
