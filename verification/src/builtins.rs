//! The built-in functions a formula can call: their names, arities and the
//! messages for calls that cannot be made.
use vstd::prelude::*;
use vstd::string::StringExecFns;
use crate::chars::{all_ascii, ascii_upper_text, to_uppercase, uppercase_text};

verus! {

/// A built-in function.
#[derive(Debug, Clone, Copy, PartialEq, Eq, Structural)]
pub enum Builtin {
    Ma,
    Ref,
    Cross,
    Sum,
    Average,
    Barscount,
    Hhv,
    Llv,
    Abs,
    Sma,
    Count,
    Max,
    Min,
    Between,
    Ema,
    If,
}

/// The built-in an upper-cased function name names, if any.
pub open spec fn builtin_named(upper: Seq<char>) -> Option<Builtin> {
    if upper == "MA"@ {
        Some(Builtin::Ma)
    } else if upper == "REF"@ {
        Some(Builtin::Ref)
    } else if upper == "CROSS"@ {
        Some(Builtin::Cross)
    } else if upper == "SUM"@ {
        Some(Builtin::Sum)
    } else if upper == "AVERAGE"@ {
        Some(Builtin::Average)
    } else if upper == "BARSCOUNT"@ {
        Some(Builtin::Barscount)
    } else if upper == "HHV"@ {
        Some(Builtin::Hhv)
    } else if upper == "LLV"@ {
        Some(Builtin::Llv)
    } else if upper == "ABS"@ {
        Some(Builtin::Abs)
    } else if upper == "SMA"@ {
        Some(Builtin::Sma)
    } else if upper == "COUNT"@ {
        Some(Builtin::Count)
    } else if upper == "MAX"@ {
        Some(Builtin::Max)
    } else if upper == "MIN"@ {
        Some(Builtin::Min)
    } else if upper == "BETWEEN"@ {
        Some(Builtin::Between)
    } else if upper == "EMA"@ {
        Some(Builtin::Ema)
    } else if upper == "IF"@ {
        Some(Builtin::If)
    } else {
        None
    }
}

/// The number of arguments a built-in takes.
pub open spec fn spec_arity(b: Builtin) -> nat {
    match b {
        Builtin::Barscount | Builtin::Abs => 1,
        Builtin::Sma | Builtin::Between | Builtin::If => 3,
        _ => 2,
    }
}

/// The message for a call of a built-in with the wrong number of arguments.
/// (`AVERAGE` checks its arguments as `SUM` does, with `SUM`'s message.)
pub open spec fn arity_msg(b: Builtin) -> Seq<char> {
    match b {
        Builtin::Ma => "Runtime Error: MA function requires 2 arguments."@,
        Builtin::Ref => "Runtime Error: REF function requires 2 arguments."@,
        Builtin::Cross => "Runtime Error: CROSS function requires 2 arguments."@,
        Builtin::Sum | Builtin::Average => "Runtime Error: SUM function requires 2 arguments."@,
        Builtin::Barscount =>
            "Runtime Error: BARSCOUNT function requires 1 argument (a condition series)."@,
        Builtin::Hhv => "Runtime Error: HHV function requires 2 arguments."@,
        Builtin::Llv => "Runtime Error: LLV function requires 2 arguments."@,
        Builtin::Abs => "Runtime Error: ABS function requires 1 argument."@,
        Builtin::Sma =>
            "Runtime Error: SMA function requires 3 arguments (series, period, smoothing factor)."@,
        Builtin::Count =>
            "Runtime Error: COUNT function requires 2 arguments (condition, period)."@,
        Builtin::Max => "Runtime Error: MAX function requires 2 series arguments."@,
        Builtin::Min => "Runtime Error: MIN function requires 2 series arguments."@,
        Builtin::Between =>
            "Runtime Error: BETWEEN function requires 3 arguments (series, lower_bound, upper_bound)."@,
        Builtin::Ema => "Runtime Error: EMA function requires 2 arguments (series, period)."@,
        Builtin::If =>
            "Runtime Error: IF function requires 3 arguments (condition, value_if_true, value_if_false)."@,
    }
}

/// The message for a call of a function that does not exist, given its
/// upper-cased name.
pub open spec fn unrecognized_msg(upper: Seq<char>) -> Seq<char> {
    "Runtime Error: Unrecognized function '"@ + upper + "'"@
}

/// What a call of the function `name` resolves to: the built-in that its
/// upper-cased name names (names are not case-sensitive), or the message
/// for a name that names none.
pub open spec fn spec_resolve_function(name: Seq<char>) -> Result<Builtin, Seq<char>> {
    match builtin_named(uppercase_text(name)) {
        Some(b) => Ok(b),
        None => Err(unrecognized_msg(uppercase_text(name))),
    }
}

/// Function names are not case-sensitive: an ASCII name resolves to the
/// built-in that its upper-case form names, so two ASCII names that differ
/// only in case resolve alike (`if`, `If` and `IF` all call `IF`).
pub proof fn lemma_function_names_ignore_case(a: Seq<char>, b: Seq<char>)
    requires
        all_ascii(a),
        all_ascii(b),
        ascii_upper_text(a) == ascii_upper_text(b),
    ensures
        spec_resolve_function(a) == spec_resolve_function(b),
        builtin_named(ascii_upper_text(a)) matches Some(f) ==> spec_resolve_function(a) == Ok::<
            Builtin,
            Seq<char>,
        >(f),
        builtin_named(ascii_upper_text(a)) is None ==> spec_resolve_function(a) == Err::<
            Builtin,
            Seq<char>,
        >(unrecognized_msg(ascii_upper_text(a))),
{
}

impl Builtin {
    pub fn arity(self) -> (n: usize)
        ensures
            n == spec_arity(self),
    {
        match self {
            Builtin::Barscount | Builtin::Abs => 1,
            Builtin::Sma | Builtin::Between | Builtin::If => 3,
            _ => 2,
        }
    }

    /// The message for a call with the wrong number of arguments.
    pub fn arity_error(self) -> (m: String)
        ensures
            m@ == arity_msg(self),
    {
        let s = match self {
            Builtin::Ma => "Runtime Error: MA function requires 2 arguments.",
            Builtin::Ref => "Runtime Error: REF function requires 2 arguments.",
            Builtin::Cross => "Runtime Error: CROSS function requires 2 arguments.",
            Builtin::Sum | Builtin::Average => "Runtime Error: SUM function requires 2 arguments.",
            Builtin::Barscount =>
                "Runtime Error: BARSCOUNT function requires 1 argument (a condition series).",
            Builtin::Hhv => "Runtime Error: HHV function requires 2 arguments.",
            Builtin::Llv => "Runtime Error: LLV function requires 2 arguments.",
            Builtin::Abs => "Runtime Error: ABS function requires 1 argument.",
            Builtin::Sma =>
                "Runtime Error: SMA function requires 3 arguments (series, period, smoothing factor).",
            Builtin::Count =>
                "Runtime Error: COUNT function requires 2 arguments (condition, period).",
            Builtin::Max => "Runtime Error: MAX function requires 2 series arguments.",
            Builtin::Min => "Runtime Error: MIN function requires 2 series arguments.",
            Builtin::Between =>
                "Runtime Error: BETWEEN function requires 3 arguments (series, lower_bound, upper_bound).",
            Builtin::Ema => "Runtime Error: EMA function requires 2 arguments (series, period).",
            Builtin::If =>
                "Runtime Error: IF function requires 3 arguments (condition, value_if_true, value_if_false).",
        };
        let mut m = String::new();
        m.append(s);
        m
    }
}

/// Resolves the name of a called function (see `spec_resolve_function`).
pub fn resolve_function(name: &str) -> (r: Result<Builtin, String>)
    ensures
        match r {
            Ok(b) => spec_resolve_function(name@) == Ok::<Builtin, Seq<char>>(b),
            Err(m) => spec_resolve_function(name@) == Err::<Builtin, Seq<char>>(m@),
        },
{
    let upper = to_uppercase(name);
    let b = if upper == "MA".to_string() {
        Some(Builtin::Ma)
    } else if upper == "REF".to_string() {
        Some(Builtin::Ref)
    } else if upper == "CROSS".to_string() {
        Some(Builtin::Cross)
    } else if upper == "SUM".to_string() {
        Some(Builtin::Sum)
    } else if upper == "AVERAGE".to_string() {
        Some(Builtin::Average)
    } else if upper == "BARSCOUNT".to_string() {
        Some(Builtin::Barscount)
    } else if upper == "HHV".to_string() {
        Some(Builtin::Hhv)
    } else if upper == "LLV".to_string() {
        Some(Builtin::Llv)
    } else if upper == "ABS".to_string() {
        Some(Builtin::Abs)
    } else if upper == "SMA".to_string() {
        Some(Builtin::Sma)
    } else if upper == "COUNT".to_string() {
        Some(Builtin::Count)
    } else if upper == "MAX".to_string() {
        Some(Builtin::Max)
    } else if upper == "MIN".to_string() {
        Some(Builtin::Min)
    } else if upper == "BETWEEN".to_string() {
        Some(Builtin::Between)
    } else if upper == "EMA".to_string() {
        Some(Builtin::Ema)
    } else if upper == "IF".to_string() {
        Some(Builtin::If)
    } else {
        None
    };
    match b {
        Some(b) => Ok(b),
        None => {
            let mut m = String::new();
            m.append("Runtime Error: Unrecognized function '");
            m.append(upper.as_str());
            m.append("'");
            Err(m)
        },
    }
}

} // verus!

verus! {

/// What a windowed built-in returns for a given period, before looking at
/// any value: the series unchanged, a missing value (NaN) at every bar, zero
/// at every bar, or a value per window of `period` bars.
#[derive(Debug, Clone, Copy, PartialEq, Eq, Structural)]
pub enum PeriodOutcome {
    Unchanged,
    AllMissing,
    AllZero,
    Windows,
}

/// The outcome for `b` over a series of `len` bars with window `period`:
/// a period of 0 leaves the series of `MA` and `SUM` unchanged, gives 0 for
/// `COUNT` and missing values for `HHV`, `LLV`, `SMA` and `EMA`; a period
/// longer than the series gives missing values. The other built-ins always
/// compute (`AVERAGE` divides the series that `SUM` gives for its arguments).
pub open spec fn spec_period_outcome(b: Builtin, period: nat, len: nat) -> PeriodOutcome {
    match b {
        Builtin::Ma | Builtin::Sum => if period == 0 {
            PeriodOutcome::Unchanged
        } else if period > len {
            PeriodOutcome::AllMissing
        } else {
            PeriodOutcome::Windows
        },
        Builtin::Count => if period == 0 {
            PeriodOutcome::AllZero
        } else if period > len {
            PeriodOutcome::AllMissing
        } else {
            PeriodOutcome::Windows
        },
        Builtin::Hhv | Builtin::Llv | Builtin::Sma | Builtin::Ema => if period == 0 || period
            > len {
            PeriodOutcome::AllMissing
        } else {
            PeriodOutcome::Windows
        },
        _ => PeriodOutcome::Windows,
    }
}

pub fn period_outcome(b: Builtin, period: usize, len: usize) -> (r: PeriodOutcome)
    ensures
        r == spec_period_outcome(b, period as nat, len as nat),
{
    match b {
        Builtin::Ma | Builtin::Sum => {
            if period == 0 {
                PeriodOutcome::Unchanged
            } else if period > len {
                PeriodOutcome::AllMissing
            } else {
                PeriodOutcome::Windows
            }
        },
        Builtin::Count => {
            if period == 0 {
                PeriodOutcome::AllZero
            } else if period > len {
                PeriodOutcome::AllMissing
            } else {
                PeriodOutcome::Windows
            }
        },
        Builtin::Hhv | Builtin::Llv | Builtin::Sma | Builtin::Ema => {
            if period == 0 || period > len {
                PeriodOutcome::AllMissing
            } else {
                PeriodOutcome::Windows
            }
        },
        _ => PeriodOutcome::Windows,
    }
}

} // verus!

verus! {

// ---------------------------------------------------------------------------
// Laws of the built-ins: their names, their argument counts, and what a
// period does to the windowed ones.
// ---------------------------------------------------------------------------

/// The name each built-in is called by, as written in upper case.
pub open spec fn builtin_name(b: Builtin) -> Seq<char> {
    match b {
        Builtin::Ma => "MA"@,
        Builtin::Ref => "REF"@,
        Builtin::Cross => "CROSS"@,
        Builtin::Sum => "SUM"@,
        Builtin::Average => "AVERAGE"@,
        Builtin::Barscount => "BARSCOUNT"@,
        Builtin::Hhv => "HHV"@,
        Builtin::Llv => "LLV"@,
        Builtin::Abs => "ABS"@,
        Builtin::Sma => "SMA"@,
        Builtin::Count => "COUNT"@,
        Builtin::Max => "MAX"@,
        Builtin::Min => "MIN"@,
        Builtin::Between => "BETWEEN"@,
        Builtin::Ema => "EMA"@,
        Builtin::If => "IF"@,
    }
}

proof fn lemma_named_ma()
    ensures
        builtin_named("MA"@) == Some(Builtin::Ma),
{
    reveal_strlit("MA");
}

proof fn lemma_named_ref()
    ensures
        builtin_named("REF"@) == Some(Builtin::Ref),
{
    reveal_strlit("REF");
    reveal_strlit("MA");
    assert("REF"@.len() == 3 && "MA"@.len() == 2);
    assert("REF"@ != "MA"@);
}

proof fn lemma_named_cross()
    ensures
        builtin_named("CROSS"@) == Some(Builtin::Cross),
{
    reveal_strlit("CROSS");
    reveal_strlit("MA");
    assert("CROSS"@.len() == 5 && "MA"@.len() == 2);
    assert("CROSS"@ != "MA"@);
    reveal_strlit("REF");
    assert("CROSS"@.len() == 5 && "REF"@.len() == 3);
    assert("CROSS"@ != "REF"@);
}

proof fn lemma_named_sum()
    ensures
        builtin_named("SUM"@) == Some(Builtin::Sum),
{
    reveal_strlit("SUM");
    reveal_strlit("MA");
    assert("SUM"@.len() == 3 && "MA"@.len() == 2);
    assert("SUM"@ != "MA"@);
    reveal_strlit("REF");
    assert("SUM"@[0] != "REF"@[0]);
    assert("SUM"@.len() == 3 && "REF"@.len() == 3);
    assert("SUM"@ != "REF"@);
    reveal_strlit("CROSS");
    assert("SUM"@.len() == 3 && "CROSS"@.len() == 5);
    assert("SUM"@ != "CROSS"@);
}

proof fn lemma_named_average()
    ensures
        builtin_named("AVERAGE"@) == Some(Builtin::Average),
{
    reveal_strlit("AVERAGE");
    reveal_strlit("MA");
    assert("AVERAGE"@.len() == 7 && "MA"@.len() == 2);
    assert("AVERAGE"@ != "MA"@);
    reveal_strlit("REF");
    assert("AVERAGE"@.len() == 7 && "REF"@.len() == 3);
    assert("AVERAGE"@ != "REF"@);
    reveal_strlit("CROSS");
    assert("AVERAGE"@.len() == 7 && "CROSS"@.len() == 5);
    assert("AVERAGE"@ != "CROSS"@);
    reveal_strlit("SUM");
    assert("AVERAGE"@.len() == 7 && "SUM"@.len() == 3);
    assert("AVERAGE"@ != "SUM"@);
}

proof fn lemma_named_barscount()
    ensures
        builtin_named("BARSCOUNT"@) == Some(Builtin::Barscount),
{
    reveal_strlit("BARSCOUNT");
    reveal_strlit("MA");
    assert("BARSCOUNT"@.len() == 9 && "MA"@.len() == 2);
    assert("BARSCOUNT"@ != "MA"@);
    reveal_strlit("REF");
    assert("BARSCOUNT"@.len() == 9 && "REF"@.len() == 3);
    assert("BARSCOUNT"@ != "REF"@);
    reveal_strlit("CROSS");
    assert("BARSCOUNT"@.len() == 9 && "CROSS"@.len() == 5);
    assert("BARSCOUNT"@ != "CROSS"@);
    reveal_strlit("SUM");
    assert("BARSCOUNT"@.len() == 9 && "SUM"@.len() == 3);
    assert("BARSCOUNT"@ != "SUM"@);
    reveal_strlit("AVERAGE");
    assert("BARSCOUNT"@.len() == 9 && "AVERAGE"@.len() == 7);
    assert("BARSCOUNT"@ != "AVERAGE"@);
}

proof fn lemma_named_hhv()
    ensures
        builtin_named("HHV"@) == Some(Builtin::Hhv),
{
    reveal_strlit("HHV");
    reveal_strlit("MA");
    assert("HHV"@.len() == 3 && "MA"@.len() == 2);
    assert("HHV"@ != "MA"@);
    reveal_strlit("REF");
    assert("HHV"@[0] != "REF"@[0]);
    assert("HHV"@.len() == 3 && "REF"@.len() == 3);
    assert("HHV"@ != "REF"@);
    reveal_strlit("CROSS");
    assert("HHV"@.len() == 3 && "CROSS"@.len() == 5);
    assert("HHV"@ != "CROSS"@);
    reveal_strlit("SUM");
    assert("HHV"@[0] != "SUM"@[0]);
    assert("HHV"@.len() == 3 && "SUM"@.len() == 3);
    assert("HHV"@ != "SUM"@);
    reveal_strlit("AVERAGE");
    assert("HHV"@.len() == 3 && "AVERAGE"@.len() == 7);
    assert("HHV"@ != "AVERAGE"@);
    reveal_strlit("BARSCOUNT");
    assert("HHV"@.len() == 3 && "BARSCOUNT"@.len() == 9);
    assert("HHV"@ != "BARSCOUNT"@);
}

proof fn lemma_named_llv()
    ensures
        builtin_named("LLV"@) == Some(Builtin::Llv),
{
    reveal_strlit("LLV");
    reveal_strlit("MA");
    assert("LLV"@.len() == 3 && "MA"@.len() == 2);
    assert("LLV"@ != "MA"@);
    reveal_strlit("REF");
    assert("LLV"@[0] != "REF"@[0]);
    assert("LLV"@.len() == 3 && "REF"@.len() == 3);
    assert("LLV"@ != "REF"@);
    reveal_strlit("CROSS");
    assert("LLV"@.len() == 3 && "CROSS"@.len() == 5);
    assert("LLV"@ != "CROSS"@);
    reveal_strlit("SUM");
    assert("LLV"@[0] != "SUM"@[0]);
    assert("LLV"@.len() == 3 && "SUM"@.len() == 3);
    assert("LLV"@ != "SUM"@);
    reveal_strlit("AVERAGE");
    assert("LLV"@.len() == 3 && "AVERAGE"@.len() == 7);
    assert("LLV"@ != "AVERAGE"@);
    reveal_strlit("BARSCOUNT");
    assert("LLV"@.len() == 3 && "BARSCOUNT"@.len() == 9);
    assert("LLV"@ != "BARSCOUNT"@);
    reveal_strlit("HHV");
    assert("LLV"@[0] != "HHV"@[0]);
    assert("LLV"@.len() == 3 && "HHV"@.len() == 3);
    assert("LLV"@ != "HHV"@);
}

proof fn lemma_named_abs()
    ensures
        builtin_named("ABS"@) == Some(Builtin::Abs),
{
    reveal_strlit("ABS");
    reveal_strlit("MA");
    assert("ABS"@.len() == 3 && "MA"@.len() == 2);
    assert("ABS"@ != "MA"@);
    reveal_strlit("REF");
    assert("ABS"@[0] != "REF"@[0]);
    assert("ABS"@.len() == 3 && "REF"@.len() == 3);
    assert("ABS"@ != "REF"@);
    reveal_strlit("CROSS");
    assert("ABS"@.len() == 3 && "CROSS"@.len() == 5);
    assert("ABS"@ != "CROSS"@);
    reveal_strlit("SUM");
    assert("ABS"@[0] != "SUM"@[0]);
    assert("ABS"@.len() == 3 && "SUM"@.len() == 3);
    assert("ABS"@ != "SUM"@);
    reveal_strlit("AVERAGE");
    assert("ABS"@.len() == 3 && "AVERAGE"@.len() == 7);
    assert("ABS"@ != "AVERAGE"@);
    reveal_strlit("BARSCOUNT");
    assert("ABS"@.len() == 3 && "BARSCOUNT"@.len() == 9);
    assert("ABS"@ != "BARSCOUNT"@);
    reveal_strlit("HHV");
    assert("ABS"@[0] != "HHV"@[0]);
    assert("ABS"@.len() == 3 && "HHV"@.len() == 3);
    assert("ABS"@ != "HHV"@);
    reveal_strlit("LLV");
    assert("ABS"@[0] != "LLV"@[0]);
    assert("ABS"@.len() == 3 && "LLV"@.len() == 3);
    assert("ABS"@ != "LLV"@);
}

proof fn lemma_named_sma()
    ensures
        builtin_named("SMA"@) == Some(Builtin::Sma),
{
    reveal_strlit("SMA");
    reveal_strlit("MA");
    assert("SMA"@.len() == 3 && "MA"@.len() == 2);
    assert("SMA"@ != "MA"@);
    reveal_strlit("REF");
    assert("SMA"@[0] != "REF"@[0]);
    assert("SMA"@.len() == 3 && "REF"@.len() == 3);
    assert("SMA"@ != "REF"@);
    reveal_strlit("CROSS");
    assert("SMA"@.len() == 3 && "CROSS"@.len() == 5);
    assert("SMA"@ != "CROSS"@);
    reveal_strlit("SUM");
    assert("SMA"@[1] != "SUM"@[1]);
    assert("SMA"@.len() == 3 && "SUM"@.len() == 3);
    assert("SMA"@ != "SUM"@);
    reveal_strlit("AVERAGE");
    assert("SMA"@.len() == 3 && "AVERAGE"@.len() == 7);
    assert("SMA"@ != "AVERAGE"@);
    reveal_strlit("BARSCOUNT");
    assert("SMA"@.len() == 3 && "BARSCOUNT"@.len() == 9);
    assert("SMA"@ != "BARSCOUNT"@);
    reveal_strlit("HHV");
    assert("SMA"@[0] != "HHV"@[0]);
    assert("SMA"@.len() == 3 && "HHV"@.len() == 3);
    assert("SMA"@ != "HHV"@);
    reveal_strlit("LLV");
    assert("SMA"@[0] != "LLV"@[0]);
    assert("SMA"@.len() == 3 && "LLV"@.len() == 3);
    assert("SMA"@ != "LLV"@);
    reveal_strlit("ABS");
    assert("SMA"@[0] != "ABS"@[0]);
    assert("SMA"@.len() == 3 && "ABS"@.len() == 3);
    assert("SMA"@ != "ABS"@);
}

proof fn lemma_named_count()
    ensures
        builtin_named("COUNT"@) == Some(Builtin::Count),
{
    reveal_strlit("COUNT");
    reveal_strlit("MA");
    assert("COUNT"@.len() == 5 && "MA"@.len() == 2);
    assert("COUNT"@ != "MA"@);
    reveal_strlit("REF");
    assert("COUNT"@.len() == 5 && "REF"@.len() == 3);
    assert("COUNT"@ != "REF"@);
    reveal_strlit("CROSS");
    assert("COUNT"@[1] != "CROSS"@[1]);
    assert("COUNT"@.len() == 5 && "CROSS"@.len() == 5);
    assert("COUNT"@ != "CROSS"@);
    reveal_strlit("SUM");
    assert("COUNT"@.len() == 5 && "SUM"@.len() == 3);
    assert("COUNT"@ != "SUM"@);
    reveal_strlit("AVERAGE");
    assert("COUNT"@.len() == 5 && "AVERAGE"@.len() == 7);
    assert("COUNT"@ != "AVERAGE"@);
    reveal_strlit("BARSCOUNT");
    assert("COUNT"@.len() == 5 && "BARSCOUNT"@.len() == 9);
    assert("COUNT"@ != "BARSCOUNT"@);
    reveal_strlit("HHV");
    assert("COUNT"@.len() == 5 && "HHV"@.len() == 3);
    assert("COUNT"@ != "HHV"@);
    reveal_strlit("LLV");
    assert("COUNT"@.len() == 5 && "LLV"@.len() == 3);
    assert("COUNT"@ != "LLV"@);
    reveal_strlit("ABS");
    assert("COUNT"@.len() == 5 && "ABS"@.len() == 3);
    assert("COUNT"@ != "ABS"@);
    reveal_strlit("SMA");
    assert("COUNT"@.len() == 5 && "SMA"@.len() == 3);
    assert("COUNT"@ != "SMA"@);
}

proof fn lemma_named_max()
    ensures
        builtin_named("MAX"@) == Some(Builtin::Max),
{
    reveal_strlit("MAX");
    reveal_strlit("MA");
    assert("MAX"@.len() == 3 && "MA"@.len() == 2);
    assert("MAX"@ != "MA"@);
    reveal_strlit("REF");
    assert("MAX"@[0] != "REF"@[0]);
    assert("MAX"@.len() == 3 && "REF"@.len() == 3);
    assert("MAX"@ != "REF"@);
    reveal_strlit("CROSS");
    assert("MAX"@.len() == 3 && "CROSS"@.len() == 5);
    assert("MAX"@ != "CROSS"@);
    reveal_strlit("SUM");
    assert("MAX"@[0] != "SUM"@[0]);
    assert("MAX"@.len() == 3 && "SUM"@.len() == 3);
    assert("MAX"@ != "SUM"@);
    reveal_strlit("AVERAGE");
    assert("MAX"@.len() == 3 && "AVERAGE"@.len() == 7);
    assert("MAX"@ != "AVERAGE"@);
    reveal_strlit("BARSCOUNT");
    assert("MAX"@.len() == 3 && "BARSCOUNT"@.len() == 9);
    assert("MAX"@ != "BARSCOUNT"@);
    reveal_strlit("HHV");
    assert("MAX"@[0] != "HHV"@[0]);
    assert("MAX"@.len() == 3 && "HHV"@.len() == 3);
    assert("MAX"@ != "HHV"@);
    reveal_strlit("LLV");
    assert("MAX"@[0] != "LLV"@[0]);
    assert("MAX"@.len() == 3 && "LLV"@.len() == 3);
    assert("MAX"@ != "LLV"@);
    reveal_strlit("ABS");
    assert("MAX"@[0] != "ABS"@[0]);
    assert("MAX"@.len() == 3 && "ABS"@.len() == 3);
    assert("MAX"@ != "ABS"@);
    reveal_strlit("SMA");
    assert("MAX"@[0] != "SMA"@[0]);
    assert("MAX"@.len() == 3 && "SMA"@.len() == 3);
    assert("MAX"@ != "SMA"@);
    reveal_strlit("COUNT");
    assert("MAX"@.len() == 3 && "COUNT"@.len() == 5);
    assert("MAX"@ != "COUNT"@);
}

proof fn lemma_named_min()
    ensures
        builtin_named("MIN"@) == Some(Builtin::Min),
{
    reveal_strlit("MIN");
    reveal_strlit("MA");
    assert("MIN"@.len() == 3 && "MA"@.len() == 2);
    assert("MIN"@ != "MA"@);
    reveal_strlit("REF");
    assert("MIN"@[0] != "REF"@[0]);
    assert("MIN"@.len() == 3 && "REF"@.len() == 3);
    assert("MIN"@ != "REF"@);
    reveal_strlit("CROSS");
    assert("MIN"@.len() == 3 && "CROSS"@.len() == 5);
    assert("MIN"@ != "CROSS"@);
    reveal_strlit("SUM");
    assert("MIN"@[0] != "SUM"@[0]);
    assert("MIN"@.len() == 3 && "SUM"@.len() == 3);
    assert("MIN"@ != "SUM"@);
    reveal_strlit("AVERAGE");
    assert("MIN"@.len() == 3 && "AVERAGE"@.len() == 7);
    assert("MIN"@ != "AVERAGE"@);
    reveal_strlit("BARSCOUNT");
    assert("MIN"@.len() == 3 && "BARSCOUNT"@.len() == 9);
    assert("MIN"@ != "BARSCOUNT"@);
    reveal_strlit("HHV");
    assert("MIN"@[0] != "HHV"@[0]);
    assert("MIN"@.len() == 3 && "HHV"@.len() == 3);
    assert("MIN"@ != "HHV"@);
    reveal_strlit("LLV");
    assert("MIN"@[0] != "LLV"@[0]);
    assert("MIN"@.len() == 3 && "LLV"@.len() == 3);
    assert("MIN"@ != "LLV"@);
    reveal_strlit("ABS");
    assert("MIN"@[0] != "ABS"@[0]);
    assert("MIN"@.len() == 3 && "ABS"@.len() == 3);
    assert("MIN"@ != "ABS"@);
    reveal_strlit("SMA");
    assert("MIN"@[0] != "SMA"@[0]);
    assert("MIN"@.len() == 3 && "SMA"@.len() == 3);
    assert("MIN"@ != "SMA"@);
    reveal_strlit("COUNT");
    assert("MIN"@.len() == 3 && "COUNT"@.len() == 5);
    assert("MIN"@ != "COUNT"@);
    reveal_strlit("MAX");
    assert("MIN"@[1] != "MAX"@[1]);
    assert("MIN"@.len() == 3 && "MAX"@.len() == 3);
    assert("MIN"@ != "MAX"@);
}

proof fn lemma_named_between()
    ensures
        builtin_named("BETWEEN"@) == Some(Builtin::Between),
{
    reveal_strlit("BETWEEN");
    reveal_strlit("MA");
    assert("BETWEEN"@.len() == 7 && "MA"@.len() == 2);
    assert("BETWEEN"@ != "MA"@);
    reveal_strlit("REF");
    assert("BETWEEN"@.len() == 7 && "REF"@.len() == 3);
    assert("BETWEEN"@ != "REF"@);
    reveal_strlit("CROSS");
    assert("BETWEEN"@.len() == 7 && "CROSS"@.len() == 5);
    assert("BETWEEN"@ != "CROSS"@);
    reveal_strlit("SUM");
    assert("BETWEEN"@.len() == 7 && "SUM"@.len() == 3);
    assert("BETWEEN"@ != "SUM"@);
    reveal_strlit("AVERAGE");
    assert("BETWEEN"@[0] != "AVERAGE"@[0]);
    assert("BETWEEN"@.len() == 7 && "AVERAGE"@.len() == 7);
    assert("BETWEEN"@ != "AVERAGE"@);
    reveal_strlit("BARSCOUNT");
    assert("BETWEEN"@.len() == 7 && "BARSCOUNT"@.len() == 9);
    assert("BETWEEN"@ != "BARSCOUNT"@);
    reveal_strlit("HHV");
    assert("BETWEEN"@.len() == 7 && "HHV"@.len() == 3);
    assert("BETWEEN"@ != "HHV"@);
    reveal_strlit("LLV");
    assert("BETWEEN"@.len() == 7 && "LLV"@.len() == 3);
    assert("BETWEEN"@ != "LLV"@);
    reveal_strlit("ABS");
    assert("BETWEEN"@.len() == 7 && "ABS"@.len() == 3);
    assert("BETWEEN"@ != "ABS"@);
    reveal_strlit("SMA");
    assert("BETWEEN"@.len() == 7 && "SMA"@.len() == 3);
    assert("BETWEEN"@ != "SMA"@);
    reveal_strlit("COUNT");
    assert("BETWEEN"@.len() == 7 && "COUNT"@.len() == 5);
    assert("BETWEEN"@ != "COUNT"@);
    reveal_strlit("MAX");
    assert("BETWEEN"@.len() == 7 && "MAX"@.len() == 3);
    assert("BETWEEN"@ != "MAX"@);
    reveal_strlit("MIN");
    assert("BETWEEN"@.len() == 7 && "MIN"@.len() == 3);
    assert("BETWEEN"@ != "MIN"@);
}

proof fn lemma_named_ema()
    ensures
        builtin_named("EMA"@) == Some(Builtin::Ema),
{
    reveal_strlit("EMA");
    reveal_strlit("MA");
    assert("EMA"@.len() == 3 && "MA"@.len() == 2);
    assert("EMA"@ != "MA"@);
    reveal_strlit("REF");
    assert("EMA"@[0] != "REF"@[0]);
    assert("EMA"@.len() == 3 && "REF"@.len() == 3);
    assert("EMA"@ != "REF"@);
    reveal_strlit("CROSS");
    assert("EMA"@.len() == 3 && "CROSS"@.len() == 5);
    assert("EMA"@ != "CROSS"@);
    reveal_strlit("SUM");
    assert("EMA"@[0] != "SUM"@[0]);
    assert("EMA"@.len() == 3 && "SUM"@.len() == 3);
    assert("EMA"@ != "SUM"@);
    reveal_strlit("AVERAGE");
    assert("EMA"@.len() == 3 && "AVERAGE"@.len() == 7);
    assert("EMA"@ != "AVERAGE"@);
    reveal_strlit("BARSCOUNT");
    assert("EMA"@.len() == 3 && "BARSCOUNT"@.len() == 9);
    assert("EMA"@ != "BARSCOUNT"@);
    reveal_strlit("HHV");
    assert("EMA"@[0] != "HHV"@[0]);
    assert("EMA"@.len() == 3 && "HHV"@.len() == 3);
    assert("EMA"@ != "HHV"@);
    reveal_strlit("LLV");
    assert("EMA"@[0] != "LLV"@[0]);
    assert("EMA"@.len() == 3 && "LLV"@.len() == 3);
    assert("EMA"@ != "LLV"@);
    reveal_strlit("ABS");
    assert("EMA"@[0] != "ABS"@[0]);
    assert("EMA"@.len() == 3 && "ABS"@.len() == 3);
    assert("EMA"@ != "ABS"@);
    reveal_strlit("SMA");
    assert("EMA"@[0] != "SMA"@[0]);
    assert("EMA"@.len() == 3 && "SMA"@.len() == 3);
    assert("EMA"@ != "SMA"@);
    reveal_strlit("COUNT");
    assert("EMA"@.len() == 3 && "COUNT"@.len() == 5);
    assert("EMA"@ != "COUNT"@);
    reveal_strlit("MAX");
    assert("EMA"@[0] != "MAX"@[0]);
    assert("EMA"@.len() == 3 && "MAX"@.len() == 3);
    assert("EMA"@ != "MAX"@);
    reveal_strlit("MIN");
    assert("EMA"@[0] != "MIN"@[0]);
    assert("EMA"@.len() == 3 && "MIN"@.len() == 3);
    assert("EMA"@ != "MIN"@);
    reveal_strlit("BETWEEN");
    assert("EMA"@.len() == 3 && "BETWEEN"@.len() == 7);
    assert("EMA"@ != "BETWEEN"@);
}

proof fn lemma_named_if()
    ensures
        builtin_named("IF"@) == Some(Builtin::If),
{
    reveal_strlit("IF");
    reveal_strlit("MA");
    assert("IF"@[0] != "MA"@[0]);
    assert("IF"@.len() == 2 && "MA"@.len() == 2);
    assert("IF"@ != "MA"@);
    reveal_strlit("REF");
    assert("IF"@.len() == 2 && "REF"@.len() == 3);
    assert("IF"@ != "REF"@);
    reveal_strlit("CROSS");
    assert("IF"@.len() == 2 && "CROSS"@.len() == 5);
    assert("IF"@ != "CROSS"@);
    reveal_strlit("SUM");
    assert("IF"@.len() == 2 && "SUM"@.len() == 3);
    assert("IF"@ != "SUM"@);
    reveal_strlit("AVERAGE");
    assert("IF"@.len() == 2 && "AVERAGE"@.len() == 7);
    assert("IF"@ != "AVERAGE"@);
    reveal_strlit("BARSCOUNT");
    assert("IF"@.len() == 2 && "BARSCOUNT"@.len() == 9);
    assert("IF"@ != "BARSCOUNT"@);
    reveal_strlit("HHV");
    assert("IF"@.len() == 2 && "HHV"@.len() == 3);
    assert("IF"@ != "HHV"@);
    reveal_strlit("LLV");
    assert("IF"@.len() == 2 && "LLV"@.len() == 3);
    assert("IF"@ != "LLV"@);
    reveal_strlit("ABS");
    assert("IF"@.len() == 2 && "ABS"@.len() == 3);
    assert("IF"@ != "ABS"@);
    reveal_strlit("SMA");
    assert("IF"@.len() == 2 && "SMA"@.len() == 3);
    assert("IF"@ != "SMA"@);
    reveal_strlit("COUNT");
    assert("IF"@.len() == 2 && "COUNT"@.len() == 5);
    assert("IF"@ != "COUNT"@);
    reveal_strlit("MAX");
    assert("IF"@.len() == 2 && "MAX"@.len() == 3);
    assert("IF"@ != "MAX"@);
    reveal_strlit("MIN");
    assert("IF"@.len() == 2 && "MIN"@.len() == 3);
    assert("IF"@ != "MIN"@);
    reveal_strlit("BETWEEN");
    assert("IF"@.len() == 2 && "BETWEEN"@.len() == 7);
    assert("IF"@ != "BETWEEN"@);
    reveal_strlit("EMA");
    assert("IF"@.len() == 2 && "EMA"@.len() == 3);
    assert("IF"@ != "EMA"@);
}

proof fn lemma_named_by_name(u: Seq<char>, b: Builtin)
    ensures
        builtin_named(u) == Some(b) <==> u == builtin_name(b),
{
    match b {
        Builtin::Ma => lemma_named_ma(),
        Builtin::Ref => lemma_named_ref(),
        Builtin::Cross => lemma_named_cross(),
        Builtin::Sum => lemma_named_sum(),
        Builtin::Average => lemma_named_average(),
        Builtin::Barscount => lemma_named_barscount(),
        Builtin::Hhv => lemma_named_hhv(),
        Builtin::Llv => lemma_named_llv(),
        Builtin::Abs => lemma_named_abs(),
        Builtin::Sma => lemma_named_sma(),
        Builtin::Count => lemma_named_count(),
        Builtin::Max => lemma_named_max(),
        Builtin::Min => lemma_named_min(),
        Builtin::Between => lemma_named_between(),
        Builtin::Ema => lemma_named_ema(),
        Builtin::If => lemma_named_if(),
    }
}

/// Each built-in is reached by its own name and by no other: an ASCII
/// function name resolves to the built-in `b` exactly when its upper-case
/// form is `b`'s name (so `hhv` calls `HHV`, the highest value, and `llv`
/// calls `LLV`, the lowest).
pub proof fn lemma_each_builtin_by_its_name(name: Seq<char>, b: Builtin)
    requires
        all_ascii(name),
    ensures
        spec_resolve_function(name) == Ok::<Builtin, Seq<char>>(b) <==> ascii_upper_text(name)
            == builtin_name(b),
{
    assert(uppercase_text(name) == ascii_upper_text(name));
    lemma_named_by_name(ascii_upper_text(name), b);
}

/// The number of parameters in each built-in's documented form: `MA(X, N)`,
/// `REF(X, N)`, `CROSS(A, B)`, `SUM(X, N)`, `AVERAGE(X, N)`, `IF(C, A, B)`,
/// `BARSCOUNT(C)`, `HHV(X, N)`, `LLV(X, N)`, `ABS(X)`, `SMA(X, N, M)`,
/// `EMA(X, N)`, `COUNT(C, N)`, `MAX(A, B)`, `MIN(A, B)`, `BETWEEN(X, A, B)`.
pub open spec fn documented_arity(b: Builtin) -> nat {
    match b {
        Builtin::Ma => 2,
        Builtin::Ref => 2,
        Builtin::Cross => 2,
        Builtin::Sum => 2,
        Builtin::Average => 2,
        Builtin::If => 3,
        Builtin::Barscount => 1,
        Builtin::Hhv => 2,
        Builtin::Llv => 2,
        Builtin::Abs => 1,
        Builtin::Sma => 3,
        Builtin::Ema => 2,
        Builtin::Count => 2,
        Builtin::Max => 2,
        Builtin::Min => 2,
        Builtin::Between => 3,
    }
}

/// `m` says "requires `n` ..." : the text ` requires ` followed by the digit
/// of `n`.
pub open spec fn states_count(m: Seq<char>, n: nat) -> bool {
    exists|i: int|
        0 <= i && i + 11 <= m.len() && #[trigger] m.subrange(i, i + 10) == " requires "@ && m[i
            + 10] == ((n + '0' as int) as char)
}

/// Each built-in takes the number of arguments that its message for a
/// wrong count names: `MA`, `REF`, `CROSS`, `SUM`, `AVERAGE`, `HHV`, `LLV`,
/// `COUNT`, `MAX`, `MIN` and `EMA` take 2, `BARSCOUNT` and `ABS` 1, `SMA`,
/// `BETWEEN` and `IF` 3.
pub proof fn lemma_arity_is_the_stated_count(b: Builtin)
    ensures
        states_count(arity_msg(b), spec_arity(b)),
        spec_arity(b) == documented_arity(b),
{
    reveal_strlit(" requires ");
    reveal_strlit("Runtime Error: MA function requires 2 arguments.");
    reveal_strlit("Runtime Error: REF function requires 2 arguments.");
    reveal_strlit("Runtime Error: CROSS function requires 2 arguments.");
    reveal_strlit("Runtime Error: SUM function requires 2 arguments.");
    reveal_strlit("Runtime Error: BARSCOUNT function requires 1 argument (a condition series).");
    reveal_strlit("Runtime Error: HHV function requires 2 arguments.");
    reveal_strlit("Runtime Error: LLV function requires 2 arguments.");
    reveal_strlit("Runtime Error: ABS function requires 1 argument.");
    reveal_strlit("Runtime Error: SMA function requires 3 arguments (series, period, smoothing factor).");
    reveal_strlit("Runtime Error: COUNT function requires 2 arguments (condition, period).");
    reveal_strlit("Runtime Error: MAX function requires 2 series arguments.");
    reveal_strlit("Runtime Error: MIN function requires 2 series arguments.");
    reveal_strlit("Runtime Error: BETWEEN function requires 3 arguments (series, lower_bound, upper_bound).");
    reveal_strlit("Runtime Error: EMA function requires 2 arguments (series, period).");
    reveal_strlit("Runtime Error: IF function requires 3 arguments (condition, value_if_true, value_if_false).");
    let m = arity_msg(b);
    let i: int = match b {
        Builtin::Ma => 26,
        Builtin::Ref => 27,
        Builtin::Cross => 29,
        Builtin::Sum | Builtin::Average => 27,
        Builtin::Barscount => 33,
        Builtin::Hhv => 27,
        Builtin::Llv => 27,
        Builtin::Abs => 27,
        Builtin::Sma => 27,
        Builtin::Count => 29,
        Builtin::Max => 27,
        Builtin::Min => 27,
        Builtin::Between => 31,
        Builtin::Ema => 27,
        Builtin::If => 26,
    };
    assert(m.subrange(i, i + 10) =~= " requires "@);
}

/// The built-ins that compute over windows of `period` bars.
pub open spec fn is_windowed(b: Builtin) -> bool {
    b == Builtin::Ma || b == Builtin::Sum || b == Builtin::Count || b == Builtin::Hhv || b
        == Builtin::Llv || b == Builtin::Sma || b == Builtin::Ema
}

/// What a period does: a windowed built-in computes its windows exactly when
/// the period is at least 1 and at most the number of bars, and the others
/// always compute; a period of 0 leaves the series of `MA` and `SUM` as it
/// is and gives zero counts for `COUNT`, and only then; every other period
/// outside that range gives missing values.
pub proof fn lemma_period_outcomes(b: Builtin, period: nat, len: nat)
    ensures
        (spec_period_outcome(b, period, len) == PeriodOutcome::Windows) <==> (!is_windowed(b) || (1
            <= period && period <= len)),
        (spec_period_outcome(b, period, len) == PeriodOutcome::Unchanged) <==> ((b == Builtin::Ma
            || b == Builtin::Sum) && period == 0),
        (spec_period_outcome(b, period, len) == PeriodOutcome::AllZero) <==> (b == Builtin::Count
            && period == 0),
        (spec_period_outcome(b, period, len) == PeriodOutcome::AllMissing) <==> (is_windowed(b)
            && (period > len || (period == 0 && b != Builtin::Ma && b != Builtin::Sum && b
            != Builtin::Count))),
{
}

} // verus!
