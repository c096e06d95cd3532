//! The lexer: turns formula text into tokens.
use vstd::prelude::*;
use crate::chars::{
    all_digits,
    chars_of,
    char_width, is_alphabetic, is_alphanumeric, is_ascii_digit, is_whitespace, push_char,
    all_ascii, ascii_upper_text, alphabetic, alphanumeric, spec_is_ascii_digit, spec_is_whitespace, uppercase_text,
    to_uppercase, utf8_len, utf8_width,
    lemma_utf8_len_monotone,
};
use crate::decimal::is_number_text;
use crate::token::{SpecToken, Token, TokenType};

verus! {

// ---------------------------------------------------------------------------
// Specification of the lexer over the character sequence of the input.
// ---------------------------------------------------------------------------

/// Number of line feeds in `s`.
pub open spec fn count_newlines(s: Seq<char>) -> nat
    decreases s.len(),
{
    if s.len() == 0 {
        0
    } else {
        count_newlines(s.drop_last()) + if s.last() == '\n' { 1nat } else { 0nat }
    }
}

/// Byte offset at which the last line of `s` starts: just after its last line
/// feed, or 0 when it has none.
pub open spec fn line_start(s: Seq<char>) -> nat
    decreases s.len(),
{
    if s.len() == 0 {
        0
    } else if s.last() == '\n' {
        utf8_len(s)
    } else {
        line_start(s.drop_last())
    }
}

/// The characters the lexer has read when its cursor is at `p`: those before
/// the cursor and the character under it.
pub open spec fn seen(s: Seq<char>, p: int) -> Seq<char> {
    if p < s.len() {
        s.take(p + 1)
    } else {
        s
    }
}

/// Line number (from 1) of the lexer when its cursor is at `p`.
pub open spec fn line_at(s: Seq<char>, p: int) -> int {
    1 + count_newlines(seen(s, p)) as int
}

/// Column of the lexer when its cursor is at `p`: 0 on a line feed, else the
/// byte offset from the start of the line, plus one.
pub open spec fn column_at(s: Seq<char>, p: int) -> int {
    if p < s.len() && s[p] == '\n' {
        0
    } else {
        utf8_len(s.take(p)) as int - line_start(seen(s, p)) as int + 1
    }
}

/// First index at or after `p` that is not whitespace.
pub open spec fn skip_ws(s: Seq<char>, p: int) -> int
    decreases s.len() - p,
{
    if 0 <= p < s.len() && spec_is_whitespace(s[p]) {
        skip_ws(s, p + 1)
    } else {
        p
    }
}

/// End of a comment whose body starts at `p`: just after the first `}`, or
/// the end of the input when the comment is not closed.
pub open spec fn comment_end(s: Seq<char>, p: int) -> int
    decreases s.len() - p,
{
    if p >= s.len() || p < 0 {
        s.len() as int
    } else if s[p] == '}' {
        p + 1
    } else {
        comment_end(s, p + 1)
    }
}

pub open spec fn spec_is_identifier_start(c: char) -> bool {
    alphabetic(c) || c == '_'
}

pub open spec fn spec_is_identifier_char(c: char) -> bool {
    alphanumeric(c) || c == '_'
}

/// End of the identifier characters starting at `p`.
pub open spec fn ident_end(s: Seq<char>, p: int) -> int
    decreases s.len() - p,
{
    if 0 <= p < s.len() && spec_is_identifier_char(s[p]) {
        ident_end(s, p + 1)
    } else {
        p
    }
}

/// End of the digits of a number from `p`: digits, and at most one `.`
/// that is followed by a digit (`seen_dot` records whether one was taken).
pub open spec fn digits_end(s: Seq<char>, p: int, seen_dot: bool) -> int
    decreases s.len() - p,
{
    if 0 <= p < s.len() && spec_is_ascii_digit(s[p]) {
        digits_end(s, p + 1, seen_dot)
    } else if 0 <= p && p + 1 < s.len() && s[p] == '.' && !seen_dot && spec_is_ascii_digit(
        s[p + 1],
    ) {
        digits_end(s, p + 1, true)
    } else {
        p
    }
}

/// End of a number literal that starts at `q` (with a digit, or with a `.`
/// followed by a digit).
pub open spec fn number_end(s: Seq<char>, q: int) -> int {
    if s[q] == '.' {
        digits_end(s, q + 1, true)
    } else {
        digits_end(s, q + 1, false)
    }
}

/// The keyword named by an upper-cased identifier, or `Identifier`.
pub open spec fn keyword_kind(upper: Seq<char>) -> TokenType {
    if upper == "IF"@ {
        TokenType::If
    } else if upper == "THEN"@ {
        TokenType::Then
    } else if upper == "ELSE"@ {
        TokenType::Else
    } else if upper == "AND"@ {
        TokenType::And
    } else if upper == "OR"@ {
        TokenType::Or
    } else if upper == "NOT"@ {
        TokenType::Not
    } else {
        TokenType::Identifier
    }
}

/// The token kind for a one-character token.
pub open spec fn single_char_kind(c: char) -> Option<TokenType> {
    if c == '=' {
        Some(TokenType::Eq)
    } else if c == '+' {
        Some(TokenType::Plus)
    } else if c == '-' {
        Some(TokenType::Minus)
    } else if c == '*' {
        Some(TokenType::Star)
    } else if c == '/' {
        Some(TokenType::Slash)
    } else if c == '(' {
        Some(TokenType::LParen)
    } else if c == ')' {
        Some(TokenType::RParen)
    } else if c == ',' {
        Some(TokenType::Comma)
    } else if c == ';' {
        Some(TokenType::Semicolon)
    } else {
        None
    }
}

/// Kind and end of the token that starts at `q` (not whitespace, not a
/// comment, not the end of the input).
pub open spec fn scan(s: Seq<char>, q: int) -> (TokenType, int) {
    let c = s[q];
    let next_is = |d: char| q + 1 < s.len() && s[q + 1] == d;
    if single_char_kind(c).is_some() {
        (single_char_kind(c).unwrap(), q + 1)
    } else if c == ':' {
        if next_is('=') {
            (TokenType::ColonAssign, q + 2)
        } else {
            (TokenType::Colon, q + 1)
        }
    } else if c == '>' {
        if next_is('=') {
            (TokenType::GtEq, q + 2)
        } else {
            (TokenType::Gt, q + 1)
        }
    } else if c == '<' {
        if next_is('=') {
            (TokenType::LtEq, q + 2)
        } else if next_is('>') {
            (TokenType::NotEq, q + 2)
        } else {
            (TokenType::Lt, q + 1)
        }
    } else if spec_is_identifier_start(c) {
        let e = ident_end(s, q + 1);
        (keyword_kind(uppercase_text(s.subrange(q, e))), e)
    } else if spec_is_ascii_digit(c) || (c == '.' && q + 1 < s.len() && spec_is_ascii_digit(
        s[q + 1],
    )) {
        (TokenType::Number, number_end(s, q))
    } else {
        (TokenType::Illegal, q + 1)
    }
}

pub proof fn lemma_skip_ws_bounds(s: Seq<char>, p: int)
    ensures
        p <= skip_ws(s, p),
        0 <= p <= s.len() ==> skip_ws(s, p) <= s.len(),
        forall|i: int| p <= i < skip_ws(s, p) ==> spec_is_whitespace(#[trigger] s[i]),
        0 <= skip_ws(s, p) < s.len() ==> !spec_is_whitespace(s[skip_ws(s, p)]),
    decreases s.len() - p,
{
    if 0 <= p < s.len() && spec_is_whitespace(s[p]) {
        lemma_skip_ws_bounds(s, p + 1);
    }
}

pub proof fn lemma_comment_end_bounds(s: Seq<char>, p: int)
    requires
        0 <= p,
    ensures
        p <= s.len() ==> p <= comment_end(s, p) <= s.len(),
        p < s.len() ==> p < comment_end(s, p),
    decreases s.len() - p,
{
    if p < s.len() && s[p] != '}' {
        lemma_comment_end_bounds(s, p + 1);
    }
}

/// The token that the lexer returns when its cursor is at `p`, and the
/// cursor after it. Whitespace and `{ ... }` comments are skipped; at the
/// end of the input the token is `Eof` with an empty lexeme.
pub open spec fn spec_next_token(s: Seq<char>, p: int) -> (SpecToken, int)
    decreases s.len() - p,
{
    let q = skip_ws(s, p);
    if q < 0 || q >= s.len() {
        (SpecToken { kind: TokenType::Eof, lexeme: Seq::empty(), line: line_at(s, q), column: column_at(s, q) }, q)
    } else if s[q] == '{' {
        let e = comment_end(s, q + 1);
        proof {
            lemma_skip_ws_bounds(s, p);
            lemma_comment_end_bounds(s, q + 1);
        }
        spec_next_token(s, e)
    } else {
        let (k, e) = scan(s, q);
        (SpecToken { kind: k, lexeme: s.subrange(q, e), line: line_at(s, q), column: column_at(s, q) }, e)
    }
}

} // verus!

verus! {

// ---------------------------------------------------------------------------
// Facts about prefixes of the input.
// ---------------------------------------------------------------------------

pub proof fn lemma_prefix_step(s: Seq<char>, i: int)
    requires
        0 <= i < s.len(),
    ensures
        count_newlines(s.take(i + 1)) == count_newlines(s.take(i)) + if s[i] == '\n' {
            1nat
        } else {
            0nat
        },
        line_start(s.take(i + 1)) == if s[i] == '\n' {
            utf8_len(s.take(i + 1))
        } else {
            line_start(s.take(i))
        },
        utf8_len(s.take(i + 1)) == utf8_len(s.take(i)) + char_width(s[i]),
{
    assert(s.take(i + 1).drop_last() =~= s.take(i));
}

pub proof fn lemma_prefix_bounds(s: Seq<char>)
    ensures
        line_start(s) <= utf8_len(s),
        count_newlines(s) <= s.len(),
        s.len() <= utf8_len(s),
    decreases s.len(),
{
    if s.len() > 0 {
        lemma_prefix_bounds(s.drop_last());
    }
}

/// A lexer over a character sequence, with a cursor on the character under
/// examination.
pub struct Lexer {
    chars: Vec<char>,
    cur: usize,
    position: usize,
    current_char: Option<char>,
    line: usize,
    column: usize,
    line_start_pos: usize,
    source_len: usize,
}

impl Lexer {
    /// The input, as characters.
    pub closed spec fn source(&self) -> Seq<char> {
        self.chars@
    }

    /// Index of the character under the cursor (the input's length at its end).
    pub closed spec fn cursor(&self) -> int {
        self.cur as int
    }

    /// The lexer's fields agree with its cursor.
    pub closed spec fn wf(&self) -> bool {
        let s = self.chars@;
        let p = self.cur as int;
        &&& utf8_len(s) < usize::MAX
        &&& p <= s.len()
        &&& self.current_char == if p < s.len() {
            Some(s[p])
        } else {
            None::<char>
        }
        &&& self.position == utf8_len(s.take(p))
        &&& self.source_len == utf8_len(s)
        &&& self.line == line_at(s, p)
        &&& self.line_start_pos == line_start(seen(s, p))
        &&& self.column == column_at(s, p)
    }

    pub proof fn lemma_cursor_in_bounds(&self)
        requires
            self.wf(),
        ensures
            0 <= self.cursor() <= self.source().len(),
    {
    }

    /// A lexer over `input`, with its cursor on the first character.
    pub fn new(input: &str) -> (lexer: Self)
        requires
            utf8_len(input@) < usize::MAX,
        ensures
            lexer.wf(),
            lexer.source() == input@,
            lexer.cursor() == 0,
    {
        let chars = chars_of(input);
        let ghost s = chars@;
        let mut total: usize = 0;
        let mut i: usize = 0;
        while i < chars.len()
            invariant
                s == chars@,
                utf8_len(s) < usize::MAX,
                i <= s.len(),
                total == utf8_len(s.take(i as int)),
            decreases s.len() - i,
        {
            proof {
                lemma_prefix_step(s, i as int);
                lemma_utf8_len_monotone(s, i + 1, s.len() as int);
                assert(s.take(s.len() as int) =~= s);
            }
            total = total + utf8_width(chars[i]);
            i = i + 1;
        }
        assert(s.take(s.len() as int) =~= s);
        proof {
            lemma_prefix_bounds(s);
            assert(s.take(0) =~= Seq::<char>::empty());
        }
        let n = chars.len();
        if n > 0 {
            let c0 = chars[0];
            proof {
                lemma_prefix_step(s, 0);
            }
            if c0 == '\n' {
                Lexer {
                    chars,
                    cur: 0,
                    position: 0,
                    current_char: Some(c0),
                    line: 2,
                    column: 0,
                    line_start_pos: 1,
                    source_len: total,
                }
            } else {
                Lexer {
                    chars,
                    cur: 0,
                    position: 0,
                    current_char: Some(c0),
                    line: 1,
                    column: 1,
                    line_start_pos: 0,
                    source_len: total,
                }
            }
        } else {
            Lexer {
                chars,
                cur: 0,
                position: 0,
                current_char: None,
                line: 1,
                column: 1,
                line_start_pos: 0,
                source_len: total,
            }
        }
    }

    /// Moves the cursor to the next character (it stays at the end of the
    /// input once there).
    fn read_char(&mut self)
        requires
            old(self).wf(),
        ensures
            final(self).wf(),
            final(self).source() == old(self).source(),
            final(self).cursor() == if old(self).cursor() < old(self).source().len() {
                old(self).cursor() + 1
            } else {
                old(self).cursor()
            },
    {
        let ghost s = self.chars@;
        let n = self.chars.len();
        proof {
            lemma_prefix_bounds(s);
            assert(s.take(n as int) =~= s);
        }
        if self.cur < n {
            let ghost p = self.cur as int;
            proof {
                lemma_prefix_step(s, p);
                lemma_utf8_len_monotone(s, p + 1, n as int);
                lemma_prefix_bounds(s.take(p + 1));
            }
            let w = utf8_width(self.chars[self.cur]);
            let np = self.position + w;
            self.cur = self.cur + 1;
            self.position = np;
            if self.cur < n {
                let ch = self.chars[self.cur];
                proof {
                    lemma_prefix_step(s, p + 1);
                    lemma_prefix_bounds(s.take(p + 2));
                    lemma_utf8_len_monotone(s, p + 2, n as int);
                }
                self.current_char = Some(ch);
                if ch == '\n' {
                    self.line = self.line + 1;
                    self.line_start_pos = np + 1;
                    self.column = 0;
                } else {
                    self.column = np - self.line_start_pos + 1;
                }
            } else {
                self.current_char = None;
                self.column = np - self.line_start_pos + 1;
            }
        } else {
            self.column = self.position - self.line_start_pos + 1;
        }
    }

    /// The character after the one under the cursor, if any.
    fn peek_char(&self) -> (r: Option<char>)
        requires
            self.wf(),
        ensures
            r == if self.cursor() + 1 < self.source().len() {
                Some(self.source()[self.cursor() + 1])
            } else {
                None::<char>
            },
    {
        if self.cur < self.chars.len() && self.cur + 1 < self.chars.len() {
            Some(self.chars[self.cur + 1])
        } else {
            None
        }
    }

    /// Skips whitespace under the cursor.
    fn skip_whitespace(&mut self)
        requires
            old(self).wf(),
        ensures
            final(self).wf(),
            final(self).source() == old(self).source(),
            final(self).cursor() == skip_ws(old(self).source(), old(self).cursor()),
    {
        let ghost s = self.chars@;
        let ghost p0 = self.cur as int;
        loop
            invariant
                self.wf(),
                self.chars@ == s,
                skip_ws(s, self.cur as int) == skip_ws(s, p0),
            ensures
                self.wf(),
                self.chars@ == s,
                self.cur as int == skip_ws(s, p0),
            decreases s.len() - self.cur,
        {
            match self.current_char {
                Some(ch) => {
                    if is_whitespace(ch) {
                        self.read_char();
                    } else {
                        break;
                    }
                },
                None => {
                    break;
                },
            }
        }
    }

    /// Skips the body of a comment, up to and including the closing `}`.
    fn skip_comment(&mut self)
        requires
            old(self).wf(),
        ensures
            final(self).wf(),
            final(self).source() == old(self).source(),
            final(self).cursor() == comment_end(old(self).source(), old(self).cursor()),
    {
        let ghost s = self.chars@;
        let ghost p0 = self.cur as int;
        loop
            invariant_except_break
                comment_end(s, self.cur as int) == comment_end(s, p0),
            invariant
                self.wf(),
                self.chars@ == s,
            ensures
                self.wf(),
                self.chars@ == s,
                self.cur as int == comment_end(s, p0),
            decreases s.len() - self.cur,
        {
            match self.current_char {
                Some(ch) => {
                    if ch == '}' {
                        self.read_char();
                        break;
                    }
                    let ghost before = self.cur as int;
                    self.read_char();
                    assert(comment_end(s, before) == comment_end(s, self.cur as int));
                    if self.current_char.is_none() {
                        assert(comment_end(s, self.cur as int) == s.len());
                        break;
                    }
                },
                None => {
                    break;
                },
            }
        }
    }

    /// The input text between two character indices.
    fn text(&self, from: usize, to: usize) -> (r: String)
        requires
            self.wf(),
            from <= to <= self.source().len(),
        ensures
            r@ == self.source().subrange(from as int, to as int),
    {
        let mut r = String::new();
        let mut i = from;
        while i < to
            invariant
                from <= i <= to <= self.chars@.len(),
                r@ == self.chars@.subrange(from as int, i as int),
            decreases to - i,
        {
            push_char(&mut r, self.chars[i]);
            assert(r@ =~= self.chars@.subrange(from as int, i + 1));
            i = i + 1;
        }
        r
    }

    /// Reads an identifier, whose first character is under the cursor.
    fn read_identifier(&mut self) -> (ident: String)
        requires
            old(self).wf(),
            old(self).cursor() < old(self).source().len(),
            spec_is_identifier_start(old(self).source()[old(self).cursor()]),
        ensures
            final(self).wf(),
            final(self).source() == old(self).source(),
            final(self).cursor() == ident_end(old(self).source(), old(self).cursor() + 1),
            ident@ == old(self).source().subrange(old(self).cursor(), final(self).cursor()),
    {
        let ghost s = self.chars@;
        let ghost p0 = self.cur as int;
        let start = self.cur;
        loop
            invariant
                self.wf(),
                self.chars@ == s,
                start == p0,
                p0 < s.len(),
                spec_is_identifier_start(s[p0]),
                p0 <= self.cur,
                ident_end(s, self.cur as int) == ident_end(s, p0),
            ensures
                self.wf(),
                self.chars@ == s,
                p0 < self.cur,
                self.cur as int == ident_end(s, p0),
            decreases s.len() - self.cur,
        {
            match self.current_char {
                Some(ch) => {
                    if is_identifier_char(ch) {
                        self.read_char();
                    } else {
                        break;
                    }
                },
                None => {
                    break;
                },
            }
        }
        assert(ident_end(s, p0) == ident_end(s, p0 + 1));
        self.text(start, self.cur)
    }

    /// Reads a number literal from the cursor on: digits with at most one
    /// `.`, which must be followed by a digit. Reads nothing (and returns the
    /// empty string) when the cursor is not on such a literal.
    fn read_number(&mut self) -> (number: String)
        requires
            old(self).wf(),
        ensures
            final(self).wf(),
            final(self).source() == old(self).source(),
            ({
                let s = old(self).source();
                let q = old(self).cursor();
                if q < s.len() && (spec_is_ascii_digit(s[q]) || (s[q] == '.' && q + 1 < s.len()
                    && spec_is_ascii_digit(s[q + 1]))) {
                    &&& final(self).cursor() == number_end(s, q)
                    &&& number@ == s.subrange(q, number_end(s, q))
                } else {
                    &&& final(self).cursor() == q
                    &&& number@ == Seq::<char>::empty()
                }
            }),
    {
        let ghost s = self.chars@;
        let ghost q = self.cur as int;
        let start = self.cur;
        let mut has_dot = false;
        match self.current_char {
            Some(c) => {
                if c == '.' {
                    match self.peek_char() {
                        Some(d) => {
                            if is_ascii_digit(d) {
                                has_dot = true;
                                self.read_char();
                            } else {
                                return String::new();
                            }
                        },
                        None => {
                            return String::new();
                        },
                    }
                } else if is_ascii_digit(c) {
                    self.read_char();
                } else {
                    return String::new();
                }
            },
            None => {
                return String::new();
            },
        }
        loop
            invariant
                self.wf(),
                self.chars@ == s,
                start == q,
                q < self.cur,
                digits_end(s, self.cur as int, has_dot) == number_end(s, q),
            ensures
                self.wf(),
                self.chars@ == s,
                q < self.cur,
                self.cur as int == number_end(s, q),
            decreases s.len() - self.cur,
        {
            match self.current_char {
                Some(ch) => {
                    if is_ascii_digit(ch) {
                        self.read_char();
                    } else if ch == '.' && !has_dot {
                        let nx = self.peek_char();
                        let digit_next = match nx {
                            Some(d) => is_ascii_digit(d),
                            None => false,
                        };
                        if digit_next {
                            has_dot = true;
                            self.read_char();
                        } else {
                            break;
                        }
                    } else {
                        break;
                    }
                },
                None => {
                    break;
                },
            }
        }
        self.text(start, self.cur)
    }
}

impl Lexer {
    /// The next token. Whitespace and `{ ... }` comments before it are
    /// skipped; at the end of the input the token is `Eof`, and the lexer
    /// stays there.
    pub fn next_token(&mut self) -> (token: Token)
        requires
            old(self).wf(),
        ensures
            final(self).wf(),
            final(self).source() == old(self).source(),
            (token@, final(self).cursor()) == spec_next_token(old(self).source(), old(self).cursor()),
        decreases old(self).source().len() - old(self).cursor(),
    {
        let ghost s = self.chars@;
        let ghost p = self.cur as int;
        self.skip_whitespace();
        proof {
            lemma_skip_ws_bounds(s, p);
        }
        let start_line = self.line;
        let start_col = self.column;
        let start = self.cur;
        let current_char = self.current_char;
        match current_char {
            None => {
                let t = Token::new(TokenType::Eof, String::new(), self.line, self.column);
                assert(t@.lexeme =~= Seq::<char>::empty());
                t
            },
            Some(c) => {
                if c == '{' {
                    self.read_char();
                    self.skip_comment();
                    proof {
                        lemma_comment_end_bounds(s, start + 1);
                    }
                    return self.next_token();
                }
                let kind: TokenType;
                if c == '=' {
                    self.read_char();
                    kind = TokenType::Eq;
                } else if c == '+' {
                    self.read_char();
                    kind = TokenType::Plus;
                } else if c == '-' {
                    self.read_char();
                    kind = TokenType::Minus;
                } else if c == '*' {
                    self.read_char();
                    kind = TokenType::Star;
                } else if c == '/' {
                    self.read_char();
                    kind = TokenType::Slash;
                } else if c == '(' {
                    self.read_char();
                    kind = TokenType::LParen;
                } else if c == ')' {
                    self.read_char();
                    kind = TokenType::RParen;
                } else if c == ',' {
                    self.read_char();
                    kind = TokenType::Comma;
                } else if c == ';' {
                    self.read_char();
                    kind = TokenType::Semicolon;
                } else if c == ':' {
                    if self.peek_char() == Some('=') {
                        self.read_char();
                        self.read_char();
                        kind = TokenType::ColonAssign;
                    } else {
                        self.read_char();
                        kind = TokenType::Colon;
                    }
                } else if c == '>' {
                    if self.peek_char() == Some('=') {
                        self.read_char();
                        self.read_char();
                        kind = TokenType::GtEq;
                    } else {
                        self.read_char();
                        kind = TokenType::Gt;
                    }
                } else if c == '<' {
                    let nx = self.peek_char();
                    if nx == Some('=') {
                        self.read_char();
                        self.read_char();
                        kind = TokenType::LtEq;
                    } else if nx == Some('>') {
                        self.read_char();
                        self.read_char();
                        kind = TokenType::NotEq;
                    } else {
                        self.read_char();
                        kind = TokenType::Lt;
                    }
                } else if is_identifier_start(c) {
                    let ident = self.read_identifier();
                    let token_type = lookup_ident(ident.as_str());
                    return Token::new(token_type, ident, start_line, start_col);
                } else {
                    let digit_next = match self.peek_char() {
                        Some(d) => is_ascii_digit(d),
                        None => false,
                    };
                    if is_ascii_digit(c) || (c == '.' && digit_next) {
                        let number_lexeme = self.read_number();
                        return Token::new(TokenType::Number, number_lexeme, start_line, start_col);
                    } else {
                        self.read_char();
                        kind = TokenType::Illegal;
                    }
                }
                let lexeme = self.text(start, self.cur);
                Token::new(kind, lexeme, start_line, start_col)
            },
        }
    }

    /// The next token, or `None` once the input is exhausted.
    pub fn next(&mut self) -> (item: Option<Token>)
        requires
            old(self).wf(),
        ensures
            final(self).wf(),
            final(self).source() == old(self).source(),
            ({
                let (t, e) = spec_next_token(old(self).source(), old(self).cursor());
                &&& final(self).cursor() == e
                &&& match item {
                    Some(tok) => tok@ == t && t.kind != TokenType::Eof,
                    None => t.kind == TokenType::Eof,
                }
            }),
    {
        let token = self.next_token();
        if token.token_type == TokenType::Eof {
            None
        } else {
            Some(token)
        }
    }
}

/// `char::is_alphabetic` or an underscore.
fn is_identifier_start(ch: char) -> (r: bool)
    ensures
        r == spec_is_identifier_start(ch),
{
    is_alphabetic(ch) || ch == '_'
}

/// `char::is_alphanumeric` or an underscore.
fn is_identifier_char(ch: char) -> (r: bool)
    ensures
        r == spec_is_identifier_char(ch),
        spec_is_identifier_start(ch) ==> r,
{
    is_alphanumeric(ch) || ch == '_'
}

/// Keywords are not case-sensitive: two ASCII identifiers that differ only
/// in case name the same keyword (or neither names one), the keyword that
/// their upper-case form names.
pub proof fn lemma_keywords_ignore_case(a: Seq<char>, b: Seq<char>)
    requires
        all_ascii(a),
        all_ascii(b),
        ascii_upper_text(a) == ascii_upper_text(b),
    ensures
        keyword_kind(uppercase_text(a)) == keyword_kind(uppercase_text(b)),
        keyword_kind(uppercase_text(a)) == keyword_kind(ascii_upper_text(a)),
{
}

/// The keyword an identifier names, whatever its case, or `Identifier`.
pub fn lookup_ident(ident: &str) -> (kind: TokenType)
    ensures
        kind == keyword_kind(uppercase_text(ident@)),
{
    let upper = to_uppercase(ident);
    if upper == "IF".to_string() {
        TokenType::If
    } else if upper == "THEN".to_string() {
        TokenType::Then
    } else if upper == "ELSE".to_string() {
        TokenType::Else
    } else if upper == "AND".to_string() {
        TokenType::And
    } else if upper == "OR".to_string() {
        TokenType::Or
    } else if upper == "NOT".to_string() {
        TokenType::Not
    } else {
        TokenType::Identifier
    }
}

} // verus!

verus! {

// ---------------------------------------------------------------------------
// What holds of every token the lexer returns.
// ---------------------------------------------------------------------------

pub proof fn lemma_ident_end_bounds(s: Seq<char>, p: int)
    requires
        0 <= p <= s.len(),
    ensures
        p <= ident_end(s, p) <= s.len(),
    decreases s.len() - p,
{
    if p < s.len() && spec_is_identifier_char(s[p]) {
        lemma_ident_end_bounds(s, p + 1);
    }
}

/// Where the digits from `p` end, and that what lies between is number
/// text, given how much was read before.
proof fn lemma_digits_end(s: Seq<char>, q: int, p: int, seen_dot: bool)
    requires
        0 <= q < p <= s.len(),
        !seen_dot ==> all_digits(s.subrange(q, p)),
        seen_dot ==> exists|k: int|
            q <= k < p - 1 && #[trigger] s[k] == '.' && all_digits(s.subrange(q, k))
                && all_digits(s.subrange(k + 1, p)),
    ensures
        p <= digits_end(s, p, seen_dot) <= s.len(),
        is_number_text(s.subrange(q, digits_end(s, p, seen_dot))),
    decreases s.len() - p,
{
    let t = s.subrange(q, p);
    if p < s.len() && spec_is_ascii_digit(s[p]) {
        if seen_dot {
            let k = choose|k: int|
                q <= k < p - 1 && #[trigger] s[k] == '.' && all_digits(s.subrange(q, k))
                    && all_digits(s.subrange(k + 1, p));
            assert(all_digits(s.subrange(k + 1, p + 1))) by {
                assert forall|i: int| 0 <= i < s.subrange(k + 1, p + 1).len() implies
                    spec_is_ascii_digit(#[trigger] s.subrange(k + 1, p + 1)[i]) by {
                    if i < p - (k + 1) {
                        assert(s.subrange(k + 1, p + 1)[i] == s.subrange(k + 1, p)[i]);
                    }
                }
            }
            assert(s[k] == '.');
        } else {
            assert(all_digits(s.subrange(q, p + 1))) by {
                assert forall|i: int| 0 <= i < s.subrange(q, p + 1).len() implies
                    spec_is_ascii_digit(#[trigger] s.subrange(q, p + 1)[i]) by {
                    if i < p - q {
                        assert(s.subrange(q, p + 1)[i] == s.subrange(q, p)[i]);
                    }
                }
            }
        }
        lemma_digits_end(s, q, p + 1, seen_dot);
    } else if 0 <= p && p + 1 < s.len() && s[p] == '.' && !seen_dot && spec_is_ascii_digit(
        s[p + 1],
    ) {
        assert(all_digits(s.subrange(p + 1, p + 2))) by {
            assert forall|i: int| 0 <= i < s.subrange(p + 1, p + 2).len() implies
                spec_is_ascii_digit(#[trigger] s.subrange(p + 1, p + 2)[i]) by {
                assert(s.subrange(p + 1, p + 2)[i] == s[p + 1]);
            }
        }
        assert(s[p] == '.');
        lemma_digits_end(s, q, p + 2, true);
        assert(digits_end(s, p, seen_dot) == digits_end(s, p + 1, true));
        assert(digits_end(s, p + 1, true) == digits_end(s, p + 2, true));
    } else {
        if seen_dot {
            let k = choose|k: int|
                q <= k < p - 1 && #[trigger] s[k] == '.' && all_digits(s.subrange(q, k))
                    && all_digits(s.subrange(k + 1, p));
            let kk = k - q;
            assert(t[kk] == '.');
            assert(t.take(kk) =~= s.subrange(q, k));
            assert(t.skip(kk + 1) =~= s.subrange(k + 1, p));
        }
    }
}

/// Every token but `Eof` moves the cursor forward and stays within the
/// input; `Eof` leaves the cursor at the end of the input. A `Number`
/// token's lexeme is number text; every other token's lexeme is non-empty
/// too, and is the input text that ends at the new cursor.
pub proof fn lemma_next_token_facts(s: Seq<char>, p: int)
    requires
        0 <= p <= s.len(),
    ensures
        ({
            let (t, e) = spec_next_token(s, p);
            &&& t.kind == TokenType::Eof ==> e == s.len() && t.lexeme.len() == 0
            &&& t.kind != TokenType::Eof ==> {
                &&& p < e <= s.len()
                &&& 0 < t.lexeme.len() <= e
                &&& t.lexeme == s.subrange(e - t.lexeme.len(), e)
            }
            &&& t.kind == TokenType::Number ==> is_number_text(t.lexeme)
        }),
    decreases s.len() - p,
{
    lemma_skip_ws_bounds(s, p);
    let q = skip_ws(s, p);
    if q < s.len() {
        if s[q] == '{' {
            lemma_comment_end_bounds(s, q + 1);
            lemma_next_token_facts(s, comment_end(s, q + 1));
        } else {
            let c = s[q];
            let (k, e) = scan(s, q);
            if single_char_kind(c).is_some() || c == ':' || c == '>' || c == '<' {
            } else if spec_is_identifier_start(c) {
                lemma_ident_end_bounds(s, q + 1);
            } else if spec_is_ascii_digit(c) || (c == '.' && q + 1 < s.len()
                && spec_is_ascii_digit(s[q + 1])) {
                if c == '.' {
                    assert(all_digits(s.subrange(q, q)));
                    assert(all_digits(s.subrange(q + 1, q + 2))) by {
                        assert forall|i: int| 0 <= i < s.subrange(q + 1, q + 2).len() implies
                            spec_is_ascii_digit(#[trigger] s.subrange(q + 1, q + 2)[i]) by {
                            assert(s.subrange(q + 1, q + 2)[i] == s[q + 1]);
                        }
                    }
                    assert(s[q] == '.');
                    lemma_digits_end(s, q, q + 2, true);
                    assert(digits_end(s, q + 1, true) == digits_end(s, q + 2, true));
                } else {
                    assert(all_digits(s.subrange(q, q + 1))) by {
                        assert forall|i: int| 0 <= i < s.subrange(q, q + 1).len() implies
                            spec_is_ascii_digit(#[trigger] s.subrange(q, q + 1)[i]) by {
                            assert(s.subrange(q, q + 1)[i] == s[q]);
                        }
                    }
                    lemma_digits_end(s, q, q + 1, false);
                }
            }
        }
    }
}

/// Once at the end of the input, the lexer keeps returning `Eof` where it is.
pub proof fn lemma_eof_is_stable(s: Seq<char>)
    ensures
        spec_next_token(s, s.len() as int).0.kind == TokenType::Eof,
        spec_next_token(s, s.len() as int).1 == s.len(),
{
}

/// The tokens the lexer returns from cursor `p` on, up to (not including)
/// `Eof`.
pub open spec fn spec_tokens(s: Seq<char>, p: int) -> Seq<SpecToken>
    decreases s.len() - p,
{
    if p < 0 || p > s.len() {
        Seq::empty()
    } else {
        let (t, e) = spec_next_token(s, p);
        if t.kind == TokenType::Eof {
            Seq::empty()
        } else {
            proof {
                lemma_next_token_facts(s, p);
            }
            seq![t] + spec_tokens(s, e)
        }
    }
}

} // verus!

verus! {

proof fn lemma_skip_ws_same(s: Seq<char>, p: int, q: int)
    requires
        0 <= p <= q <= s.len(),
        forall|i: int| p <= i < q ==> spec_is_whitespace(#[trigger] s[i]),
    ensures
        skip_ws(s, p) == skip_ws(s, q),
    decreases q - p,
{
    if p < q {
        lemma_skip_ws_same(s, p + 1, q);
    }
}

/// Whitespace before a token does not change it: the lexer returns the same
/// token, and ends at the same place, whether its cursor is before or after
/// the whitespace.
pub proof fn lemma_whitespace_is_skipped(s: Seq<char>, p: int, q: int)
    requires
        0 <= p <= q <= s.len(),
        forall|i: int| p <= i < q ==> spec_is_whitespace(#[trigger] s[i]),
    ensures
        spec_next_token(s, p) == spec_next_token(s, q),
{
    lemma_skip_ws_same(s, p, q);
    lemma_skip_ws_bounds(s, p);
    lemma_skip_ws_bounds(s, q);
    let k = skip_ws(s, p);
    lemma_skip_ws_bounds(s, k);
    assert(skip_ws(s, k) == k);
    if 0 <= k < s.len() && s[k] == '{' {
        lemma_comment_end_bounds(s, k + 1);
    }
}

} // verus!
