//! Exact decimal values of number literals.
use vstd::prelude::*;
use crate::chars::{all_digits, chars_of, is_ascii_digit, push_char, spec_is_ascii_digit};

verus! {

/// A non-negative decimal number, kept exactly as written but in canonical
/// form: the integer digits have no leading zero and the fraction digits no
/// trailing zero, so that two values are equal exactly when their fields are.
#[derive(Debug, PartialEq, Eq)]
pub struct Decimal {
    int_digits: Vec<u8>,
    frac_digits: Vec<u8>,
}

/// The mathematical value of a `Decimal`: its integer and fraction digits.
pub struct SpecDecimal {
    pub int_digits: Seq<u8>,
    pub frac_digits: Seq<u8>,
}

impl View for Decimal {
    type V = SpecDecimal;

    closed spec fn view(&self) -> SpecDecimal {
        SpecDecimal { int_digits: self.int_digits@, frac_digits: self.frac_digits@ }
    }
}

/// The digit a character stands for.
pub open spec fn digit_value(c: char) -> u8 {
    (c as int - '0' as int) as u8
}

/// The digits that the characters of `t` stand for.
pub open spec fn digit_values(t: Seq<char>) -> Seq<u8> {
    t.map_values(|c: char| digit_value(c))
}

/// `d` without its leading zeros.
pub open spec fn strip_leading_zeros(d: Seq<u8>) -> Seq<u8>
    decreases d.len(),
{
    if d.len() > 0 && d[0] == 0 {
        strip_leading_zeros(d.drop_first())
    } else {
        d
    }
}

/// `d` without its trailing zeros.
pub open spec fn strip_trailing_zeros(d: Seq<u8>) -> Seq<u8>
    decreases d.len(),
{
    if d.len() > 0 && d.last() == 0 {
        strip_trailing_zeros(d.drop_last())
    } else {
        d
    }
}

/// Index of the first `.` in `t`, or its length.
pub open spec fn dot_index(t: Seq<char>) -> int
    decreases t.len(),
{
    if t.len() == 0 {
        0
    } else if t.last() != '.' && dot_index(t.drop_last()) == t.len() - 1 {
        t.len() as int
    } else if dot_index(t.drop_last()) < t.len() - 1 {
        dot_index(t.drop_last())
    } else {
        t.len() - 1
    }
}

/// The text of a number literal: digits with at most one `.`, which has a
/// digit after it, and at least one digit (`12`, `4.5`, `.5`).
pub open spec fn is_number_text(t: Seq<char>) -> bool {
    ||| (t.len() > 0 && all_digits(t))
    ||| exists|k: int|
        0 <= k < t.len() - 1 && #[trigger] t[k] == '.' && all_digits(t.take(k)) && all_digits(
            t.skip(k + 1),
        )
}

/// The characters of a number literal before its `.` (all of them when
/// there is none).
pub open spec fn int_text(t: Seq<char>) -> Seq<char> {
    t.take(dot_index(t))
}

/// The characters of a number literal after its `.` (none when there is no
/// `.`).
pub open spec fn frac_text(t: Seq<char>) -> Seq<char> {
    if dot_index(t) < t.len() {
        t.skip(dot_index(t) + 1)
    } else {
        Seq::empty()
    }
}

/// The value of a number literal: digits with an optional `.` that has
/// digits after it (`12`, `4.50`, `.5`); `None` for any other text.
pub open spec fn spec_parse_decimal(t: Seq<char>) -> Option<SpecDecimal> {
    if t.len() > 0 && all_digits(int_text(t)) && all_digits(frac_text(t)) && (dot_index(t) < t.len()
        ==> frac_text(t).len() > 0) {
        Some(
            SpecDecimal {
                int_digits: strip_leading_zeros(digit_values(int_text(t))),
                frac_digits: strip_trailing_zeros(digit_values(frac_text(t))),
            },
        )
    } else {
        None
    }
}

/// The canonical text of a decimal: its integer digits (`0` when there are
/// none), then `.` and its fraction digits when there are some.
pub open spec fn spec_decimal_text(d: SpecDecimal) -> Seq<char> {
    let int_text = if d.int_digits.len() == 0 {
        seq!['0']
    } else {
        d.int_digits.map_values(|v: u8| ((v + '0' as int) as char))
    };
    if d.frac_digits.len() == 0 {
        int_text
    } else {
        int_text + seq!['.'] + d.frac_digits.map_values(|v: u8| ((v + '0' as int) as char))
    }
}

proof fn lemma_dot_index(t: Seq<char>)
    ensures
        0 <= dot_index(t) <= t.len(),
        dot_index(t) < t.len() ==> t[dot_index(t)] == '.',
        forall|i: int| 0 <= i < dot_index(t) ==> t[i] != '.',
    decreases t.len(),
{
    if t.len() > 0 {
        lemma_dot_index(t.drop_last());
        assert forall|i: int| 0 <= i < dot_index(t) implies t[i] != '.' by {
            assert(i < t.len() - 1 ==> t[i] == t.drop_last()[i]);
        }
    }
}

proof fn lemma_dot_index_unique(t: Seq<char>, k: int)
    requires
        0 <= k <= t.len(),
        k < t.len() ==> t[k] == '.',
        forall|i: int| 0 <= i < k ==> t[i] != '.',
    ensures
        dot_index(t) == k,
{
    lemma_dot_index(t);
    if dot_index(t) < k {
        assert(t[dot_index(t)] == '.');
    }
    if k < dot_index(t) {
        assert(t[k] != '.');
    }
}

fn digit_char(v: u8) -> (c: char)
    requires
        v < 10,
    ensures
        c == ((v + '0' as int) as char),
{
    match v {
        0 => '0',
        1 => '1',
        2 => '2',
        3 => '3',
        4 => '4',
        5 => '5',
        6 => '6',
        7 => '7',
        8 => '8',
        _ => '9',
    }
}

fn push_digits(s: &mut String, d: &Vec<u8>)
    requires
        forall|i: int| 0 <= i < d@.len() ==> d@[i] < 10,
    ensures
        final(s)@ == old(s)@ + d@.map_values(|v: u8| ((v + '0' as int) as char)),
{
    let ghost start = s@;
    let mut i: usize = 0;
    while i < d.len()
        invariant
            forall|k: int| 0 <= k < d@.len() ==> d@[k] < 10,
            i <= d@.len(),
            s@ == start + d@.take(i as int).map_values(|v: u8| ((v + '0' as int) as char)),
        decreases d.len() - i,
    {
        push_char(s, digit_char(d[i]));
        assert(d@.take(i + 1).map_values(|v: u8| ((v + '0' as int) as char)) =~= d@.take(
            i as int,
        ).map_values(|v: u8| ((v + '0' as int) as char)).push(((d@[i as int] + '0' as int) as char)));
        i = i + 1;
    }
    assert(d@.take(d@.len() as int) =~= d@);
}

impl Clone for Decimal {
    fn clone(&self) -> (r: Self)
        ensures
            r@ == self@,
    {
        proof {
            use_type_invariant(self);
        }
        let int_digits = self.int_digits.clone();
        let frac_digits = self.frac_digits.clone();
        assert(int_digits@ =~= self.int_digits@);
        assert(frac_digits@ =~= self.frac_digits@);
        Decimal { int_digits, frac_digits }
    }
}

impl Decimal {
    /// All digits are decimal digits.
    #[verifier::type_invariant]
    spec fn wf(&self) -> bool {
        &&& forall|i: int| 0 <= i < self.int_digits@.len() ==> self.int_digits@[i] < 10
        &&& forall|i: int| 0 <= i < self.frac_digits@.len() ==> self.frac_digits@[i] < 10
    }

    /// The canonical text of the number (see `spec_decimal_text`), which
    /// `f64::from_str` and the lexer both accept.
    pub fn text(&self) -> (t: String)
        ensures
            t@ == spec_decimal_text(self@),
    {
        proof {
            use_type_invariant(self);
        }
        let mut t = String::new();
        if self.int_digits.len() == 0 {
            push_char(&mut t, '0');
        } else {
            push_digits(&mut t, &self.int_digits);
        }
        if self.frac_digits.len() > 0 {
            push_char(&mut t, '.');
            push_digits(&mut t, &self.frac_digits);
        }
        t
    }

    /// Parses a number literal (see `spec_parse_decimal`).
    pub fn parse(text: &str) -> (r: Option<Decimal>)
        ensures
            r.is_some() == spec_parse_decimal(text@).is_some(),
            r.is_some() ==> spec_parse_decimal(text@) == Some(r.unwrap()@),
    {
        let t = chars_of(text);
        let ghost ts = t@;
        let n = t.len();
        // Find the dot.
        let mut k: usize = 0;
        while k < n && t[k] != '.'
            invariant
                k <= n == ts.len(),
                t@ == ts,
                forall|i: int| 0 <= i < k ==> ts[i] != '.',
            decreases n - k,
        {
            k = k + 1;
        }
        proof {
            lemma_dot_index_unique(ts, k as int);
        }
        if n == 0 || (k < n && k + 1 == n) {
            return None;
        }
        // The integer digits, without leading zeros.
        let mut int_digits: Vec<u8> = Vec::new();
        let mut i: usize = 0;
        let mut leading = true;
        while i < k
            invariant
                k <= n == ts.len(),
                t@ == ts,
                ts == text@,
                dot_index(ts) == k,
                n > 0,
                k < n ==> k + 1 < n,
                i <= k,
                forall|j: int| 0 <= j < i ==> spec_is_ascii_digit(#[trigger] ts[j]),
                leading ==> int_digits@.len() == 0,
                leading ==> strip_leading_zeros(digit_values(ts.take(i as int))) == Seq::<u8>::empty(),
                !leading ==> int_digits@ == strip_leading_zeros(digit_values(ts.take(i as int))),
                !leading ==> int_digits@.len() > 0,
                forall|m: int| 0 <= m < int_digits@.len() ==> int_digits@[m] < 10,
            decreases k - i,
        {
            let c = t[i];
            if !is_ascii_digit(c) {
                proof {
                    let ip = ts.take(k as int);
                    assert(ip[i as int] == c);
                    assert(!spec_is_ascii_digit(ip[i as int]));
                    assert(!all_digits(int_text(ts)));
                }
                return None;
            }
            let v = (c as u32 - '0' as u32) as u8;
            proof {
                lemma_strip_leading_push(digit_values(ts.take(i as int)), v);
                assert(digit_values(ts.take(i + 1)) =~= digit_values(ts.take(i as int)).push(v));
            }
            if !(leading && v == 0) {
                int_digits.push(v);
                leading = false;
            }
            i = i + 1;
        }
        assert(ts.take(k as int).len() == k);
        assert(ts.take(i as int) =~= ts.take(k as int));
        assert(int_digits@ == strip_leading_zeros(digit_values(ts.take(k as int))));
        // The fraction digits, without trailing zeros.
        let mut frac_digits: Vec<u8> = Vec::new();
        if k < n {
            let ghost fp = ts.skip(k + 1);
            let mut j: usize = k + 1;
            // pending zeros not yet known to be followed by a non-zero digit
            let mut zeros: usize = 0;
            while j < n
                invariant
                    k < n == ts.len(),
                    t@ == ts,
                    ts == text@,
                    dot_index(ts) == k,
                    k + 1 < n,
                    forall|m: int| 0 <= m < k ==> spec_is_ascii_digit(#[trigger] ts[m]),
                    int_digits@ == strip_leading_zeros(digit_values(ts.take(k as int))),
                    fp == ts.skip(k + 1),
                    k + 1 <= j <= n,
                    zeros <= j - (k + 1),
                    forall|m: int| 0 <= m < j - (k + 1) ==> spec_is_ascii_digit(#[trigger] fp[m]),
                    frac_digits@ == strip_trailing_zeros(digit_values(fp.take(j - (k + 1)))),
                    digit_values(fp.take(j - (k + 1))) == frac_digits@ + Seq::new(
                        (j - (k + 1) - frac_digits@.len()) as nat,
                        |m: int| 0u8,
                    ),
                    zeros == j - (k + 1) - frac_digits@.len(),
                    frac_digits@.len() == 0 || frac_digits@.last() != 0,
                    forall|m: int| 0 <= m < int_digits@.len() ==> int_digits@[m] < 10,
                    forall|m: int| 0 <= m < frac_digits@.len() ==> frac_digits@[m] < 10,
                decreases n - j,
            {
                let c = t[j];
                if !is_ascii_digit(c) {
                    proof {
                        assert(fp[j - (k + 1)] == c);
                        assert(!spec_is_ascii_digit(fp[j - (k + 1)]));
                        assert(frac_text(ts) == fp);
                        assert(!all_digits(frac_text(ts)));
                    }
                    return None;
                }
                let v = (c as u32 - '0' as u32) as u8;
                let ghost before = digit_values(fp.take(j - (k + 1)));
                proof {
                    assert(digit_values(fp.take(j + 1 - (k + 1))) =~= before.push(v));
                }
                if v == 0 {
                    zeros = zeros + 1;
                    proof {
                        lemma_strip_trailing_zero_run(frac_digits@, (zeros) as nat);
                        assert(before.push(v) =~= frac_digits@ + Seq::new(zeros as nat, |m: int| 0u8));
                    }
                } else {
                    let mut z: usize = 0;
                    while z < zeros
                        invariant
                            z <= zeros,
                            frac_digits@ == strip_trailing_zeros(before).add(Seq::new(z as nat, |m: int| 0u8)),
                            forall|m: int| 0 <= m < frac_digits@.len() ==> frac_digits@[m] < 10,
                        decreases zeros - z,
                    {
                        frac_digits.push(0);
                        assert(frac_digits@ =~= strip_trailing_zeros(before).add(Seq::new((z + 1) as nat, |m: int| 0u8)));
                        z = z + 1;
                    }
                    frac_digits.push(v);
                    zeros = 0;
                    proof {
                        assert(before.push(v) =~= frac_digits@);
                        lemma_strip_trailing_nonzero(before.push(v));
                    }
                }
                j = j + 1;
            }
            assert(fp.take(n - (k + 1)) =~= fp);
        } else {
            assert(digit_values(Seq::<char>::empty()) =~= Seq::<u8>::empty());
        }
        let d = Decimal { int_digits, frac_digits };
        proof {
            let int_part = ts.take(k as int);
            assert(forall|i: int| 0 <= i < int_part.len() ==> spec_is_ascii_digit(#[trigger] int_part[i]));
            assert(int_part =~= ts.take(i as int));
        }
        Some(d)
    }
}

proof fn lemma_strip_leading_push(d: Seq<u8>, v: u8)
    ensures
        strip_leading_zeros(d) == Seq::<u8>::empty() ==> strip_leading_zeros(d.push(v)) == if v
            == 0 {
            Seq::<u8>::empty()
        } else {
            seq![v]
        },
        strip_leading_zeros(d).len() > 0 ==> strip_leading_zeros(d.push(v)) == strip_leading_zeros(
            d,
        ).push(v),
    decreases d.len(),
{
    if d.len() > 0 && d[0] == 0 {
        lemma_strip_leading_push(d.drop_first(), v);
        assert(d.push(v).drop_first() =~= d.drop_first().push(v));
    } else if d.len() == 0 {
        assert(d.push(v) =~= seq![v]);
        if v == 0 {
            assert(seq![v].drop_first() =~= Seq::<u8>::empty());
        }
    }
}

proof fn lemma_strip_trailing_nonzero(d: Seq<u8>)
    requires
        d.len() > 0,
        d.last() != 0,
    ensures
        strip_trailing_zeros(d) == d,
{
}

proof fn lemma_strip_trailing_zero_run(d: Seq<u8>, z: nat)
    requires
        d.len() == 0 || d.last() != 0,
    ensures
        strip_trailing_zeros(d + Seq::new(z, |m: int| 0u8)) == d,
    decreases z,
{
    if z > 0 {
        let e = d + Seq::new(z, |m: int| 0u8);
        assert(e.drop_last() =~= d + Seq::new((z - 1) as nat, |m: int| 0u8));
        lemma_strip_trailing_zero_run(d, (z - 1) as nat);
    } else {
        assert(d + Seq::new(z, |m: int| 0u8) =~= d);
    }
}

} // verus!

verus! {

/// Number text always has a value: the literals that the lexer reads as
/// numbers are exactly ones that `Decimal::parse` accepts.
pub proof fn lemma_number_text_parses(t: Seq<char>)
    requires
        is_number_text(t),
    ensures
        spec_parse_decimal(t).is_some(),
{
    if t.len() > 0 && all_digits(t) {
        assert forall|i: int| 0 <= i < t.len() implies t[i] != '.' by {
            assert(spec_is_ascii_digit(t[i]));
        }
        lemma_dot_index_unique(t, t.len() as int);
        assert(int_text(t) =~= t);
        assert(all_digits(frac_text(t)));
    } else {
        let k = choose|k: int|
            0 <= k < t.len() - 1 && #[trigger] t[k] == '.' && all_digits(t.take(k)) && all_digits(
                t.skip(k + 1),
            );
        assert forall|i: int| 0 <= i < k implies t[i] != '.' by {
            assert(spec_is_ascii_digit(t.take(k)[i]));
        }
        lemma_dot_index_unique(t, k);
        assert(frac_text(t).len() > 0);
    }
}

} // verus!
