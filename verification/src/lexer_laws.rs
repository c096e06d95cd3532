//! Laws of the lexer over a whole input: what the tokens spell out, and
//! where each of them stands.
use vstd::prelude::*;
use crate::chars::{all_digits, spec_is_ascii_digit, spec_is_whitespace, utf8_len};
use crate::lexer::{
    comment_end, count_newlines, digits_end, ident_end, lemma_comment_end_bounds,
    lemma_ident_end_bounds, lemma_next_token_facts, lemma_skip_ws_bounds, line_start, number_end,
    scan, single_char_kind, skip_ws, spec_is_identifier_char, spec_is_identifier_start,
    spec_next_token, spec_tokens,
};
use crate::decimal::is_number_text;
use crate::token::{SpecToken, TokenType};

verus! {

/// The input from `p` on, with whitespace and `{ ... }` comments left out.
pub open spec fn stripped(s: Seq<char>, p: int) -> Seq<char>
    decreases s.len() - p,
{
    if p < 0 || p >= s.len() {
        Seq::empty()
    } else if spec_is_whitespace(s[p]) {
        stripped(s, p + 1)
    } else if s[p] == '{' {
        proof {
            lemma_comment_end_bounds(s, p + 1);
        }
        stripped(s, comment_end(s, p + 1))
    } else {
        seq![s[p]] + stripped(s, p + 1)
    }
}

/// The lexemes of a sequence of tokens, one after the other.
pub open spec fn lexemes(ts: Seq<SpecToken>) -> Seq<char>
    decreases ts.len(),
{
    if ts.len() == 0 {
        Seq::empty()
    } else {
        ts[0].lexeme + lexemes(ts.skip(1))
    }
}

/// A character that can stand inside a token: neither whitespace nor `{`.
pub open spec fn plain(c: char) -> bool {
    !spec_is_whitespace(c) && c != '{'
}

proof fn lemma_stripped_skips_whitespace(s: Seq<char>, p: int)
    requires
        0 <= p <= s.len(),
    ensures
        stripped(s, p) == stripped(s, skip_ws(s, p)),
    decreases s.len() - p,
{
    if p < s.len() && spec_is_whitespace(s[p]) {
        lemma_stripped_skips_whitespace(s, p + 1);
    }
}

proof fn lemma_stripped_keeps_plain(s: Seq<char>, q: int, e: int)
    requires
        0 <= q <= e <= s.len(),
        forall|i: int| q <= i < e ==> plain(#[trigger] s[i]),
    ensures
        stripped(s, q) == s.subrange(q, e) + stripped(s, e),
    decreases e - q,
{
    if q < e {
        assert(plain(s[q]));
        lemma_stripped_keeps_plain(s, q + 1, e);
        assert(s.subrange(q, e) =~= seq![s[q]] + s.subrange(q + 1, e));
    } else {
        assert(s.subrange(q, e) =~= Seq::<char>::empty());
    }
}

proof fn lemma_identifier_is_plain(s: Seq<char>, p: int)
    requires
        0 <= p <= s.len(),
    ensures
        forall|i: int| p <= i < ident_end(s, p) ==> plain(#[trigger] s[i]),
    decreases s.len() - p,
{
    if p < s.len() && spec_is_identifier_char(s[p]) {
        lemma_identifier_is_plain(s, p + 1);
    }
}

proof fn lemma_digits_are_plain(s: Seq<char>, p: int, seen_dot: bool)
    requires
        0 <= p <= s.len(),
    ensures
        p <= digits_end(s, p, seen_dot) <= s.len(),
        forall|i: int| p <= i < digits_end(s, p, seen_dot) ==> plain(#[trigger] s[i]),
    decreases s.len() - p,
{
    if p < s.len() && spec_is_ascii_digit(s[p]) {
        lemma_digits_are_plain(s, p + 1, seen_dot);
    } else if 0 <= p && p + 1 < s.len() && s[p] == '.' && !seen_dot && spec_is_ascii_digit(
        s[p + 1],
    ) {
        lemma_digits_are_plain(s, p + 1, true);
    }
}

proof fn lemma_scan_is_plain(s: Seq<char>, q: int)
    requires
        0 <= q < s.len(),
        plain(s[q]),
    ensures
        q < scan(s, q).1 <= s.len(),
        forall|i: int| q <= i < scan(s, q).1 ==> plain(#[trigger] s[i]),
{
    let c = s[q];
    if single_char_kind(c).is_some() || c == ':' || c == '>' || c == '<' {
    } else if spec_is_identifier_start(c) {
        lemma_ident_end_bounds(s, q + 1);
        lemma_identifier_is_plain(s, q + 1);
    } else if spec_is_ascii_digit(c) || (c == '.' && q + 1 < s.len() && spec_is_ascii_digit(
        s[q + 1],
    )) {
        lemma_digits_are_plain(s, q + 1, c == '.');
        assert(number_end(s, q) == digits_end(s, q + 1, c == '.'));
    }
}

/// What the tokens spell out: from any cursor, the lexemes of the tokens
/// the lexer returns before `Eof`, one after the other, are the rest of the
/// input with its whitespace and comments left out. (Each lexeme is
/// non-empty, and after the last one the lexer returns `Eof` for good: see
/// `lemma_next_token_facts` and `lemma_eof_is_stable`.)
pub proof fn lemma_tokens_spell_the_input(s: Seq<char>, p: int)
    requires
        0 <= p <= s.len(),
    ensures
        lexemes(spec_tokens(s, p)) == stripped(s, p),
    decreases s.len() - p,
{
    lemma_skip_ws_bounds(s, p);
    lemma_stripped_skips_whitespace(s, p);
    let q = skip_ws(s, p);
    if q >= s.len() {
        assert(spec_tokens(s, p) =~= Seq::<SpecToken>::empty());
    } else if s[q] == '{' {
        let e = comment_end(s, q + 1);
        lemma_comment_end_bounds(s, q + 1);
        assert(spec_next_token(s, p) == spec_next_token(s, e));
        lemma_tokens_spell_the_input(s, e);
        assert(spec_tokens(s, p) == spec_tokens(s, e));
    } else {
        lemma_scan_is_plain(s, q);
        let e = scan(s, q).1;
        lemma_stripped_keeps_plain(s, q, e);
        lemma_next_token_facts(s, p);
        assert(spec_next_token(s, p).1 == e);
        lemma_tokens_spell_the_input(s, e);
        let ts = spec_tokens(s, p);
        assert(ts.skip(1) =~= spec_tokens(s, e));
    }
}

/// Where the token that the lexer returns from cursor `p` starts: after the
/// whitespace and comments in front of it (the end of the input for `Eof`).
pub open spec fn token_start(s: Seq<char>, p: int) -> int
    decreases s.len() - p,
{
    let q = skip_ws(s, p);
    if 0 <= p <= s.len() && 0 <= q < s.len() && s[q] == '{' {
        proof {
            lemma_skip_ws_bounds(s, p);
            lemma_comment_end_bounds(s, q + 1);
        }
        token_start(s, comment_end(s, q + 1))
    } else {
        q
    }
}

/// Where each token stands: its lexeme is the input text from its start to
/// the lexer's new cursor, and its line and column are those of its start,
/// whatever came before it. The line is one more than the number of line
/// feeds before the start; the column is the number of bytes from the start
/// of that line to the token, plus one.
pub proof fn lemma_token_position(s: Seq<char>, p: int)
    requires
        0 <= p <= s.len(),
    ensures
        ({
            let (t, e) = spec_next_token(s, p);
            let q = token_start(s, p);
            &&& p <= q <= e <= s.len()
            &&& t.kind == TokenType::Eof <==> q == s.len()
            &&& t.lexeme == s.subrange(q, e)
            &&& t.line == 1 + count_newlines(s.take(q)) as int
            &&& t.column == utf8_len(s.take(q)) as int - line_start(s.take(q)) as int + 1
        }),
    decreases s.len() - p,
{
    lemma_skip_ws_bounds(s, p);
    lemma_next_token_facts(s, p);
    let q = skip_ws(s, p);
    if q < s.len() && s[q] == '{' {
        lemma_comment_end_bounds(s, q + 1);
        lemma_token_position(s, comment_end(s, q + 1));
    } else if q < s.len() {
        lemma_scan_is_plain(s, q);
        let seen = s.take(q + 1);
        assert(seen.drop_last() =~= s.take(q));
        assert(seen.last() == s[q]);
        assert(s[q] != '\n');
    } else {
        assert(s.take(q) =~= s);
        assert(s.subrange(q, q) =~= Seq::<char>::empty());
    }
}

proof fn lemma_digits_end_stops(s: Seq<char>, p: int, seen_dot: bool)
    requires
        0 <= p <= s.len(),
    ensures
        p <= digits_end(s, p, seen_dot) <= s.len(),
        forall|i: int|
            p <= i < digits_end(s, p, seen_dot) ==> spec_is_ascii_digit(#[trigger] s[i]) || s[i]
                == '.',
        digits_end(s, p, seen_dot) < s.len() ==> !spec_is_ascii_digit(s[digits_end(s, p, seen_dot)]),
        ({
            let e = digits_end(s, p, seen_dot);
            (e < s.len() && s[e] == '.' && !seen_dot && forall|i: int| p <= i < e ==> #[trigger] s[i]
                != '.') ==> !(e + 1 < s.len() && spec_is_ascii_digit(s[e + 1]))
        }),
    decreases s.len() - p,
{
    if p < s.len() && spec_is_ascii_digit(s[p]) {
        lemma_digits_end_stops(s, p + 1, seen_dot);
    } else if 0 <= p && p + 1 < s.len() && s[p] == '.' && !seen_dot && spec_is_ascii_digit(
        s[p + 1],
    ) {
        lemma_digits_end_stops(s, p + 1, true);
        let e = digits_end(s, p, seen_dot);
        assert(p < e);
        assert(s[p] == '.');
    }
}

proof fn lemma_number_text_shape(t: Seq<char>)
    requires
        is_number_text(t),
    ensures
        t.len() > 0,
        spec_is_ascii_digit(t[t.len() - 1]),
        forall|i: int| 0 <= i < t.len() ==> spec_is_ascii_digit(#[trigger] t[i]) || t[i] == '.',
        forall|i: int, j: int|
            0 <= i < j < t.len() && #[trigger] t[i] == '.' ==> #[trigger] t[j] != '.',
{
    if t.len() > 0 && all_digits(t) {
        assert(spec_is_ascii_digit(t[t.len() - 1]));
    } else {
        let k = choose|k: int|
            0 <= k < t.len() - 1 && #[trigger] t[k] == '.' && all_digits(t.take(k)) && all_digits(
                t.skip(k + 1),
            );
        assert forall|i: int| 0 <= i < t.len() && i != k implies spec_is_ascii_digit(
            #[trigger] t[i],
        ) by {
            if i < k {
                assert(t.take(k)[i] == t[i]);
            } else {
                assert(t.skip(k + 1)[i - k - 1] == t[i]);
            }
        }
        assert(spec_is_ascii_digit(t[t.len() - 1]));
    }
}

/// Numbers are read as far as they go: where a number starts at `q` (with a
/// digit, or with a `.` and a digit), the text up to `number_end` is number
/// text (digits, or digits around one `.` with digits after it), and no
/// longer stretch of the input from `q` is. So `1.2.3` reads `1.2` and then
/// `.3`, and `1.` reads `1` and then `.`.
pub proof fn lemma_number_is_longest(s: Seq<char>, q: int, e: int)
    requires
        0 <= q < s.len(),
        spec_is_ascii_digit(s[q]) || (s[q] == '.' && q + 1 < s.len() && spec_is_ascii_digit(
            s[q + 1],
        )),
        q <= e <= s.len(),
    ensures
        q < number_end(s, q) <= s.len(),
        is_number_text(s.subrange(q, number_end(s, q))),
        number_end(s, q) < e ==> !is_number_text(s.subrange(q, e)),
{
    assert(skip_ws(s, q) == q);
    lemma_next_token_facts(s, q);
    let seen_dot = s[q] == '.';
    lemma_digits_end_stops(s, q + 1, seen_dot);
    let big_e = number_end(s, q);
    assert(big_e == digits_end(s, q + 1, seen_dot));
    assert(spec_next_token(s, q).0.lexeme == s.subrange(q, big_e));
    if big_e < e && is_number_text(s.subrange(q, e)) {
        let t = s.subrange(q, e);
        lemma_number_text_shape(t);
        let idx = big_e - q;
        assert(t[idx] == s[big_e]);
        assert(s[big_e] == '.');
        if seen_dot {
            assert(t[0] == '.');
            assert(false);
        } else if exists|d: int| q + 1 <= d < big_e && #[trigger] s[d] == '.' {
            let d = choose|d: int| q + 1 <= d < big_e && #[trigger] s[d] == '.';
            assert(t[d - q] == '.');
            assert(false);
        } else {
            assert(!(big_e + 1 < s.len() && spec_is_ascii_digit(s[big_e + 1])));
            if e == big_e + 1 {
                assert(t[t.len() - 1] == '.');
            } else {
                assert(t[idx + 1] == s[big_e + 1]);
                assert(t[idx + 1] == '.');
                assert(false);
            }
        }
    }
}

} // verus!

verus! {

// ---------------------------------------------------------------------------
// Text after a `;`: it is read as it would be on its own.
// ---------------------------------------------------------------------------

proof fn lemma_skip_ws_after(a: Seq<char>, b: Seq<char>, p: int)
    requires
        0 <= p <= b.len(),
    ensures
        skip_ws(a + b, a.len() + p) == a.len() + skip_ws(b, p),
    decreases b.len() - p,
{
    if p < b.len() {
        assert((a + b)[a.len() + p] == b[p]);
        if spec_is_whitespace(b[p]) {
            lemma_skip_ws_after(a, b, p + 1);
        }
    }
}

proof fn lemma_comment_end_after(a: Seq<char>, b: Seq<char>, p: int)
    requires
        0 <= p,
    ensures
        comment_end(a + b, a.len() + p) == a.len() + comment_end(b, p),
    decreases b.len() - p,
{
    if p < b.len() {
        assert((a + b)[a.len() + p] == b[p]);
        if b[p] != '}' {
            lemma_comment_end_after(a, b, p + 1);
        }
    }
}

proof fn lemma_ident_end_after(a: Seq<char>, b: Seq<char>, p: int)
    requires
        0 <= p <= b.len(),
    ensures
        ident_end(a + b, a.len() + p) == a.len() + ident_end(b, p),
    decreases b.len() - p,
{
    if p < b.len() {
        assert((a + b)[a.len() + p] == b[p]);
        if spec_is_identifier_char(b[p]) {
            lemma_ident_end_after(a, b, p + 1);
        }
    }
}

proof fn lemma_digits_end_after(a: Seq<char>, b: Seq<char>, p: int, seen_dot: bool)
    requires
        0 <= p <= b.len(),
    ensures
        digits_end(a + b, a.len() + p, seen_dot) == a.len() + digits_end(b, p, seen_dot),
    decreases b.len() - p,
{
    if p < b.len() {
        assert((a + b)[a.len() + p] == b[p]);
        if p + 1 < b.len() {
            assert((a + b)[a.len() + p + 1] == b[p + 1]);
        }
        if spec_is_ascii_digit(b[p]) {
            lemma_digits_end_after(a, b, p + 1, seen_dot);
        } else if p + 1 < b.len() && b[p] == '.' && !seen_dot && spec_is_ascii_digit(b[p + 1]) {
            lemma_digits_end_after(a, b, p + 1, true);
        }
    }
}

proof fn lemma_scan_after(a: Seq<char>, b: Seq<char>, q: int)
    requires
        0 <= q < b.len(),
    ensures
        scan(a + b, a.len() + q).0 == scan(b, q).0,
        scan(a + b, a.len() + q).1 == a.len() + scan(b, q).1,
{
    let t = a + b;
    let n = a.len() as int;
    assert(t[n + q] == b[q]);
    if q + 1 < b.len() {
        assert(t[n + q + 1] == b[q + 1]);
    }
    let c = b[q];
    if single_char_kind(c).is_some() || c == ':' || c == '>' || c == '<' {
    } else if spec_is_identifier_start(c) {
        lemma_ident_end_after(a, b, q + 1);
        lemma_ident_end_bounds(b, q + 1);
        let e = ident_end(b, q + 1);
        assert(t.subrange(n + q, n + e) =~= b.subrange(q, e));
    } else if spec_is_ascii_digit(c) || (c == '.' && q + 1 < b.len() && spec_is_ascii_digit(
        b[q + 1],
    )) {
        lemma_digits_end_after(a, b, q + 1, c == '.');
    }
}

/// The token that the lexer reads from `a.len() + p` in `a + b` has the
/// kind and the text of the one it reads from `p` in `b`, and ends at the
/// same place, shifted by `a.len()`.
proof fn lemma_next_token_after(a: Seq<char>, b: Seq<char>, p: int)
    requires
        0 <= p <= b.len(),
    ensures
        spec_next_token(a + b, a.len() + p).0.kind == spec_next_token(b, p).0.kind,
        spec_next_token(a + b, a.len() + p).0.lexeme == spec_next_token(b, p).0.lexeme,
        spec_next_token(a + b, a.len() + p).1 == a.len() + spec_next_token(b, p).1,
    decreases b.len() - p,
{
    let t = a + b;
    let n = a.len() as int;
    lemma_skip_ws_after(a, b, p);
    lemma_skip_ws_bounds(b, p);
    let q = skip_ws(b, p);
    if q < b.len() {
        assert(t[n + q] == b[q]);
        if b[q] == '{' {
            lemma_comment_end_after(a, b, q + 1);
            lemma_comment_end_bounds(b, q + 1);
            lemma_next_token_after(a, b, comment_end(b, q + 1));
        } else {
            lemma_scan_after(a, b, q);
            lemma_scan_is_plain(b, q);
            let e = scan(b, q).1;
            assert(t.subrange(n + q, n + e) =~= b.subrange(q, e));
        }
    } else {
        assert(t.subrange(n + q, n + q) =~= b.subrange(q, q));
    }
}

/// The tokens that the lexer reads from `a.len() + p` in `a + b` have the
/// kinds and texts of those it reads from `p` in `b`.
pub proof fn lemma_tokens_after(a: Seq<char>, b: Seq<char>, p: int)
    requires
        0 <= p <= b.len(),
    ensures
        spec_tokens(a + b, a.len() + p).len() == spec_tokens(b, p).len(),
        forall|i: int|
            0 <= i < spec_tokens(b, p).len() ==> spec_tokens(a + b, a.len() + p)[i].kind
                == (#[trigger] spec_tokens(b, p)[i]).kind && spec_tokens(a + b, a.len() + p)[i].lexeme
                == spec_tokens(b, p)[i].lexeme,
    decreases b.len() - p,
{
    lemma_next_token_after(a, b, p);
    lemma_next_token_facts(b, p);
    let (tk, e) = spec_next_token(b, p);
    if tk.kind != TokenType::Eof {
        lemma_tokens_after(a, b, e);
        let ts = spec_tokens(b, p);
        let us = spec_tokens(a + b, a.len() + p);
        assert forall|i: int| 0 <= i < ts.len() implies us[i].kind == (#[trigger] ts[i]).kind
            && us[i].lexeme == ts[i].lexeme by {
            if i > 0 {
                assert(ts[i] == spec_tokens(b, e)[i - 1]);
                assert(us[i] == spec_tokens(a + b, a.len() + e)[i - 1]);
            }
        }
    }
}

// ---------------------------------------------------------------------------
// Text that ends with a `;` token: what follows it does not change its
// tokens.
// ---------------------------------------------------------------------------

/// Reading tokens from `p`, one of them ends exactly at the end of the
/// input, and it is a `;`.
pub open spec fn ends_with_semicolon(s: Seq<char>, p: int) -> bool
    decreases s.len() - p,
{
    if p < 0 || p > s.len() {
        false
    } else {
        let (t, e) = spec_next_token(s, p);
        if t.kind == TokenType::Eof {
            false
        } else if e >= s.len() {
            t.kind == TokenType::Semicolon
        } else {
            proof {
                lemma_next_token_facts(s, p);
            }
            ends_with_semicolon(s, e)
        }
    }
}

proof fn lemma_skip_ws_before(a: Seq<char>, b: Seq<char>, p: int)
    requires
        0 <= p,
        skip_ws(a, p) < a.len(),
    ensures
        skip_ws(a + b, p) == skip_ws(a, p),
    decreases a.len() - p,
{
    assert((a + b)[p] == a[p]);
    if spec_is_whitespace(a[p]) {
        lemma_skip_ws_before(a, b, p + 1);
    }
}

proof fn lemma_comment_end_before(a: Seq<char>, b: Seq<char>, p: int)
    requires
        0 <= p,
        comment_end(a, p) < a.len(),
    ensures
        comment_end(a + b, p) == comment_end(a, p),
    decreases a.len() - p,
{
    assert((a + b)[p] == a[p]);
    if a[p] != '}' {
        lemma_comment_end_before(a, b, p + 1);
    }
}

proof fn lemma_ident_end_before(a: Seq<char>, b: Seq<char>, p: int)
    requires
        0 <= p,
        ident_end(a, p) < a.len(),
    ensures
        ident_end(a + b, p) == ident_end(a, p),
    decreases a.len() - p,
{
    assert((a + b)[p] == a[p]);
    if spec_is_identifier_char(a[p]) {
        lemma_ident_end_before(a, b, p + 1);
    }
}

proof fn lemma_digits_end_before(a: Seq<char>, b: Seq<char>, p: int, seen_dot: bool)
    requires
        0 <= p,
        digits_end(a, p, seen_dot) < a.len(),
        digits_end(a, p, seen_dot) + 1 < a.len() || a[digits_end(a, p, seen_dot)] != '.',
    ensures
        digits_end(a + b, p, seen_dot) == digits_end(a, p, seen_dot),
    decreases a.len() - p,
{
    assert((a + b)[p] == a[p]);
    if p + 1 < a.len() {
        assert((a + b)[p + 1] == a[p + 1]);
    }
    if spec_is_ascii_digit(a[p]) {
        lemma_digits_end_before(a, b, p + 1, seen_dot);
    } else if p + 1 < a.len() && a[p] == '.' && !seen_dot && spec_is_ascii_digit(a[p + 1]) {
        lemma_digits_end_before(a, b, p + 1, true);
    }
}

proof fn lemma_scan_before(a: Seq<char>, b: Seq<char>, q: int)
    requires
        0 <= q < a.len(),
        a[a.len() - 1] == ';',
        scan(a, q).1 < a.len() || scan(a, q).0 == TokenType::Semicolon,
    ensures
        scan(a + b, q) == scan(a, q),
{
    let t = a + b;
    assert(t[q] == a[q]);
    if q + 1 < a.len() {
        assert(t[q + 1] == a[q + 1]);
    }
    let c = a[q];
    let e = scan(a, q).1;
    if single_char_kind(c).is_some() || c == ':' || c == '>' || c == '<' {
    } else if spec_is_identifier_start(c) {
        lemma_ident_end_before(a, b, q + 1);
        lemma_ident_end_bounds(a, q + 1);
        assert(t.subrange(q, e) =~= a.subrange(q, e));
    } else if spec_is_ascii_digit(c) || (c == '.' && q + 1 < a.len() && spec_is_ascii_digit(
        a[q + 1],
    )) {
        lemma_digits_end_stops(a, q + 1, c == '.');
        lemma_digits_end_before(a, b, q + 1, c == '.');
    }
}

/// The token that the lexer reads from `p` in `a` is also the one it reads
/// from `p` in `a + b`, when `a` ends with `;` and the token either ends
/// before the end of `a` or is that `;`.
proof fn lemma_next_token_before(a: Seq<char>, b: Seq<char>, p: int)
    requires
        0 <= p <= a.len(),
        a.len() > 0,
        a[a.len() - 1] == ';',
        spec_next_token(a, p).0.kind != TokenType::Eof,
        spec_next_token(a, p).1 < a.len() || spec_next_token(a, p).0.kind
            == TokenType::Semicolon,
    ensures
        spec_next_token(a + b, p) == spec_next_token(a, p),
    decreases a.len() - p,
{
    let t = a + b;
    lemma_skip_ws_bounds(a, p);
    let q = skip_ws(a, p);
    lemma_skip_ws_before(a, b, p);
    assert(t[q] == a[q]);
    if a[q] == '{' {
        let e = comment_end(a, q + 1);
        lemma_comment_end_bounds(a, q + 1);
        lemma_token_position(a, e);
        lemma_comment_end_before(a, b, q + 1);
        lemma_next_token_before(a, b, e);
    } else {
        lemma_scan_before(a, b, q);
        lemma_scan_is_plain(a, q);
        let e = scan(a, q).1;
        assert(t.subrange(q, e) =~= a.subrange(q, e));
        assert(t.take(q + 1) =~= a.take(q + 1));
        assert(t.take(q) =~= a.take(q));
    }
}

/// When the tokens read from `p` in `a` end with a `;` at the very end of
/// `a`, the tokens read from `p` in `a + b` are those, followed by the ones
/// read from the start of `b`'s part.
pub proof fn lemma_tokens_before(a: Seq<char>, b: Seq<char>, p: int)
    requires
        0 <= p <= a.len(),
        a.len() > 0,
        a[a.len() - 1] == ';',
        ends_with_semicolon(a, p),
    ensures
        spec_tokens(a + b, p) == spec_tokens(a, p) + spec_tokens(a + b, a.len() as int),
        spec_tokens(a, p).len() > 0,
        spec_tokens(a, p).last().kind == TokenType::Semicolon,
    decreases a.len() - p,
{
    lemma_next_token_facts(a, p);
    let (tk, e) = spec_next_token(a, p);
    lemma_next_token_before(a, b, p);
    if e >= a.len() {
        assert(spec_tokens(a, e) =~= Seq::<SpecToken>::empty());
        assert(spec_tokens(a, p) =~= seq![tk]);
    } else {
        lemma_tokens_before(a, b, e);
        assert(spec_tokens(a, p) =~= seq![tk] + spec_tokens(a, e));
        assert(spec_tokens(a + b, p) =~= seq![tk] + spec_tokens(a + b, e));
    }
}

} // verus!
