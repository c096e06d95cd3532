//! Index arithmetic of the series functions: where windows start, how bars
//! are counted, and where a series crosses another.
use vstd::prelude::*;

verus! {

/// Whether all the given lengths are equal (series that a formula reads
/// together must cover the same bars).
pub fn lengths_agree(lengths: &Vec<usize>) -> (r: bool)
    ensures
        r == forall|i: int, j: int|
            0 <= i < lengths@.len() && 0 <= j < lengths@.len() ==> lengths@[i] == lengths@[j],
{
    if lengths.len() == 0 {
        return true;
    }
    let first = lengths[0];
    let mut i: usize = 1;
    while i < lengths.len()
        invariant
            1 <= i <= lengths@.len(),
            first == lengths@[0],
            forall|k: int| 0 <= k < i ==> lengths@[k] == first,
        decreases lengths.len() - i,
    {
        if lengths[i] != first {
            assert(lengths@[i as int] != lengths@[0]);
            return false;
        }
        i = i + 1;
    }
    true
}

/// Index of the first `true` among `flags[0..=i]`, if any.
pub open spec fn first_true(flags: Seq<bool>, i: int) -> Option<int>
    decreases i + 1,
{
    if i < 0 {
        None
    } else {
        match first_true(flags, i - 1) {
            Some(j) => Some(j),
            None => if flags[i] {
                Some(i)
            } else {
                None
            },
        }
    }
}

proof fn lemma_first_true_bounds(flags: Seq<bool>, i: int)
    ensures
        first_true(flags, i) matches Some(j) ==> 0 <= j <= i,
    decreases i + 1,
{
    if i >= 0 {
        lemma_first_true_bounds(flags, i - 1);
    }
}

/// Number of `true` among `flags[from..to]`.
pub open spec fn count_true(flags: Seq<bool>, from: int, to: int) -> nat
    decreases to - from,
{
    if to <= from {
        0
    } else {
        count_true(flags, from, to - 1) + if flags[to - 1] {
            1nat
        } else {
            0nat
        }
    }
}

/// The first index of a full window of `period` bars that ends at bar `i`;
/// `None` while fewer than `period` bars have passed.
pub open spec fn spec_window_start(i: int, period: int) -> Option<int> {
    if i + 1 >= period {
        Some(i + 1 - period)
    } else {
        None
    }
}

pub fn window_start(i: usize, period: usize) -> (r: Option<usize>)
    requires
        period >= 1,
    ensures
        r == match spec_window_start(i as int, period as int) {
            Some(s) => Some(s as usize),
            None => None::<usize>,
        },
        r matches Some(s) ==> s <= i,
{
    if i >= period - 1 {
        Some(i - (period - 1))
    } else {
        None
    }
}

/// For each bar, the number of bars since a condition first held (counting
/// that bar as 1), or the number of bars so far when it has not held yet.
pub fn bars_since_first(flags: &Vec<bool>) -> (r: Vec<usize>)
    ensures
        r@.len() == flags@.len(),
        forall|i: int|
            0 <= i < flags@.len() ==> #[trigger] r@[i] == match first_true(flags@, i) {
                Some(j) => i - j + 1,
                None => i + 1,
            },
{
    let mut r: Vec<usize> = Vec::new();
    let mut first: Option<usize> = None;
    let mut i: usize = 0;
    while i < flags.len()
        invariant
            i <= flags@.len(),
            r@.len() == i,
            first == match first_true(flags@, i - 1) {
                Some(j) => Some(j as usize),
                None => None::<usize>,
            },
            first matches Some(j) ==> j < i,
            forall|k: int|
                0 <= k < i ==> #[trigger] r@[k] == match first_true(flags@, k) {
                    Some(j) => k - j + 1,
                    None => k + 1,
                },
        decreases flags.len() - i,
    {
        proof {
            lemma_first_true_bounds(flags@, i as int);
            lemma_first_true_bounds(flags@, i - 1);
        }
        if first.is_none() && flags[i] {
            first = Some(i);
        }
        assert(first == match first_true(flags@, i as int) {
            Some(j) => Some(j as usize),
            None => None::<usize>,
        });
        let v = match first {
            Some(j) => i - j + 1,
            None => i + 1,
        };
        let ghost before = r@;
        r.push(v);
        assert(r@[i as int] == match first_true(flags@, i as int) {
            Some(j) => i - j + 1,
            None => i + 1,
        });
        assert forall|k: int| 0 <= k < i implies #[trigger] r@[k] == before[k] by {}
        i = i + 1;
    }
    r
}

proof fn lemma_count_true_split(flags: Seq<bool>, from: int, to: int)
    requires
        from < to,
    ensures
        count_true(flags, from, to) == (if flags[from] {
            1nat
        } else {
            0nat
        }) + count_true(flags, from + 1, to),
    decreases to - from,
{
    if from + 1 < to {
        lemma_count_true_split(flags, from, to - 1);
        assert(count_true(flags, from + 1, to) == count_true(flags, from + 1, to - 1) + if flags[to
            - 1] {
            1nat
        } else {
            0nat
        });
    } else {
        assert(count_true(flags, from, to) == count_true(flags, from, from) + if flags[from] {
            1nat
        } else {
            0nat
        });
    }
}

proof fn lemma_count_true_bound(flags: Seq<bool>, from: int, to: int)
    ensures
        from <= to ==> count_true(flags, from, to) <= to - from,
    decreases to - from,
{
    if from < to {
        lemma_count_true_bound(flags, from, to - 1);
    }
}

/// For each bar, the number of bars in the window of `period` bars ending
/// there at which a condition holds; 0 while the window is not full yet.
pub fn count_in_windows(flags: &Vec<bool>, period: usize) -> (r: Vec<usize>)
    requires
        1 <= period <= flags@.len(),
    ensures
        r@.len() == flags@.len(),
        forall|i: int|
            0 <= i < flags@.len() ==> #[trigger] r@[i] == match spec_window_start(i, period as int) {
                Some(s) => count_true(flags@, s, i + 1),
                None => 0,
            },
        forall|i: int| 0 <= i < flags@.len() ==> #[trigger] r@[i] <= period,
{
    let mut r: Vec<usize> = Vec::new();
    let mut in_window: usize = 0;
    let mut i: usize = 0;
    while i < flags.len()
        invariant
            1 <= period <= flags@.len(),
            i <= flags@.len(),
            r@.len() == i,
            in_window == count_true(
                flags@,
                if i >= period {
                    i - period
                } else {
                    0
                },
                i as int,
            ),
            in_window <= period,
            forall|k: int|
                0 <= k < i ==> #[trigger] r@[k] == match spec_window_start(k, period as int) {
                    Some(s) => count_true(flags@, s, k + 1),
                    None => 0,
                },
            forall|k: int| 0 <= k < i ==> #[trigger] r@[k] <= period,
        decreases flags.len() - i,
    {
        let ghost lo = if i >= period {
            i - period
        } else {
            0
        };
        let ghost new_lo = if i + 1 >= period {
            i + 1 - period
        } else {
            0
        };
        proof {
            lemma_count_true_bound(flags@, lo, i + 1);
        }
        if flags[i] {
            in_window = in_window + 1;
        }
        if i >= period {
            proof {
                lemma_count_true_split(flags@, lo, i + 1);
            }
            if flags[i - period] {
                in_window = in_window - 1;
            }
        }
        assert(in_window == count_true(flags@, new_lo, i + 1));
        proof {
            lemma_count_true_bound(flags@, new_lo, i + 1);
        }
        let v = if i + 1 >= period {
            in_window
        } else {
            0
        };
        r.push(v);
        i = i + 1;
    }
    r
}

/// Where series `a` crosses above series `b`, from comparisons made over
/// their common length: `above[i]` is `a[i] > b[i]` and `at_or_below[i]` is
/// `a[i] <= b[i]` (with missing values, both can be false). With fewer than
/// two common bars there is no crossing and the result covers only those
/// bars; otherwise it covers `out_len` bars (the length of `a`), and bar 0
/// and the bars past the common length are never crossings.
pub fn cross_flags(above: &Vec<bool>, at_or_below: &Vec<bool>, out_len: usize) -> (r: Vec<bool>)
    requires
        above@.len() == at_or_below@.len(),
        above@.len() <= out_len,
    ensures
        r@.len() == if above@.len() < 2 {
            above@.len() as int
        } else {
            out_len as int
        },
        forall|i: int|
            0 <= i < r@.len() ==> #[trigger] r@[i] == (1 <= i < above@.len() && above@[i]
                && at_or_below@[i - 1]),
{
    let len = if above.len() < 2 {
        above.len()
    } else {
        out_len
    };
    let mut r: Vec<bool> = Vec::new();
    let mut i: usize = 0;
    while i < len
        invariant
            above@.len() == at_or_below@.len() <= out_len,
            len <= out_len,
            i <= len,
            r@.len() == i,
            forall|k: int|
                0 <= k < i ==> #[trigger] r@[k] == (1 <= k < above@.len() && above@[k]
                    && at_or_below@[k - 1]),
        decreases len - i,
    {
        let v = if 1 <= i && i < above.len() {
            above[i] && at_or_below[i - 1]
        } else {
            false
        };
        r.push(v);
        i = i + 1;
    }
    r
}

/// The bar whose value a series shifted back by `lag` bars shows at bar
/// `i`: `i - lag`, or none for the first `lag` bars.
pub fn lagged_index(i: usize, lag: usize) -> (r: Option<usize>)
    ensures
        r == if i >= lag {
            Some((i - lag) as usize)
        } else {
            None::<usize>
        },
{
    if i >= lag {
        Some(i - lag)
    } else {
        None
    }
}

} // verus!

verus! {

proof fn lemma_count_true_add(flags: Seq<bool>, from: int, mid: int, to: int)
    requires
        from <= mid <= to,
    ensures
        count_true(flags, from, mid) + count_true(flags, mid, to) == count_true(flags, from, to),
    decreases to - mid,
{
    if mid < to {
        lemma_count_true_add(flags, from, mid, to - 1);
    }
}

proof fn lemma_count_true_uniform(flags: Seq<bool>, from: int, to: int)
    requires
        from <= to,
    ensures
        (forall|i: int| from <= i < to ==> #[trigger] flags[i]) ==> count_true(flags, from, to)
            == to - from,
        (forall|i: int| from <= i < to ==> !#[trigger] flags[i]) ==> count_true(flags, from, to)
            == 0,
    decreases to - from,
{
    if from < to {
        lemma_count_true_uniform(flags, from, to - 1);
        if forall|i: int| from <= i < to ==> #[trigger] flags[i] {
            assert(flags[to - 1]);
        }
        if forall|i: int| from <= i < to ==> !#[trigger] flags[i] {
            assert(!flags[to - 1]);
        }
    }
}

/// What a count of true bars is: counts of adjacent stretches add up, a
/// single bar counts 1 when it is true and 0 when it is not, and a stretch
/// of `n` bars counts at most `n`, `n` when all are true and 0 when none is.
pub proof fn lemma_counting_true_bars(flags: Seq<bool>, from: int, mid: int, to: int)
    requires
        0 <= from <= mid <= to <= flags.len(),
    ensures
        count_true(flags, from, mid) + count_true(flags, mid, to) == count_true(flags, from, to),
        mid < to ==> count_true(flags, mid, mid + 1) == if flags[mid] {
            1nat
        } else {
            0nat
        },
        count_true(flags, from, to) <= to - from,
        (forall|i: int| from <= i < to ==> #[trigger] flags[i]) ==> count_true(flags, from, to)
            == to - from,
        (forall|i: int| from <= i < to ==> !#[trigger] flags[i]) ==> count_true(flags, from, to)
            == 0,
{
    lemma_count_true_add(flags, from, mid, to);
    lemma_count_true_bound(flags, from, to);
    lemma_count_true_uniform(flags, from, to);
    if mid < to {
        assert(count_true(flags, mid, mid + 1) == count_true(flags, mid, mid) + if flags[mid] {
            1nat
        } else {
            0nat
        });
    }
}

} // verus!
