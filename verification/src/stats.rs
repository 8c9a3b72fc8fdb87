//! Exact percentiles over small sample sets. Averages are never reported.

use vstd::prelude::*;
use crate::chars::push_str;
use crate::number;
use crate::number::push_decimal;

verus! {

// ---- order ------------------------------------------------------------------------

/// Where a value goes among values in order: after all that are no greater.
pub open spec fn slot(sorted: Seq<i128>, v: i128) -> int
    decreases sorted.len(),
{
    if sorted.len() == 0 {
        0
    } else if v < sorted.last() {
        slot(sorted.drop_last(), v)
    } else {
        sorted.len() as int
    }
}

/// Values from the least to the greatest.
pub open spec fn ascending(values: Seq<i128>) -> Seq<i128>
    decreases values.len(),
{
    if values.len() == 0 {
        seq![]
    } else {
        let sorted = ascending(values.drop_last());
        sorted.insert(slot(sorted, values.last()), values.last())
    }
}

/// The rank that a percentile of so many values has, counted from one: the least
/// that at least that share of the values reach.
pub open spec fn rank(n: nat, percent: nat) -> nat {
    let r = (percent * n + 99) / 100;
    if r < 1 {
        1
    } else if r > n {
        n
    } else {
        r
    }
}

proof fn lemma_slot(sorted: Seq<i128>, v: i128)
    requires
        forall|i: int, j: int| 0 <= i <= j < sorted.len() ==> sorted[i] <= sorted[j],
    ensures
        0 <= slot(sorted, v) <= sorted.len(),
        forall|i: int| 0 <= i < slot(sorted, v) ==> #[trigger] sorted[i] <= v,
        forall|i: int| slot(sorted, v) <= i < sorted.len() ==> v < #[trigger] sorted[i],
    decreases sorted.len(),
{
    if sorted.len() > 0 && v < sorted.last() {
        let rest = sorted.drop_last();
        assert forall|i: int, j: int| 0 <= i <= j < rest.len() implies rest[i] <= rest[j] by {
            assert(rest[i] == sorted[i] && rest[j] == sorted[j]);
        }
        lemma_slot(rest, v);
        assert forall|i: int| 0 <= i < slot(sorted, v) implies #[trigger] sorted[i] <= v by {
            assert(rest[i] == sorted[i]);
        }
        assert forall|i: int| slot(sorted, v) <= i < sorted.len() implies v
            < #[trigger] sorted[i] by {
            if i < rest.len() {
                assert(rest[i] == sorted[i]);
            }
        }
    }
}

/// The order keeps every value and puts none before a lesser one, so that a
/// percentile is one of the samples.
pub proof fn law_ascending(values: Seq<i128>)
    ensures
        forall|i: int, j: int|
            0 <= i <= j < values.len() ==> ascending(values)[i] <= ascending(values)[j],
        ascending(values).len() == values.len(),
        ascending(values).to_multiset() == values.to_multiset(),
    decreases values.len(),
{
    if values.len() > 0 {
        let before = values.drop_last();
        let v = values.last();
        law_ascending(before);
        let sorted = ascending(before);
        let p = slot(sorted, v);
        lemma_slot(sorted, v);
        let full = sorted.insert(p, v);
        assert forall|i: int, j: int| 0 <= i <= j < full.len() implies full[i] <= full[j] by {
            if i < p {
                assert(full[i] == sorted[i]);
            } else if i > p {
                assert(full[i] == sorted[i - 1]);
            }
            if j < p {
                assert(full[j] == sorted[j]);
            } else if j > p {
                assert(full[j] == sorted[j - 1]);
            }
        }
        broadcast use vstd::seq_lib::group_to_multiset_ensures;

        assert(values =~= before.push(v));
        assert(full.to_multiset() =~= sorted.to_multiset().insert(v));
        assert(values.to_multiset() =~= before.to_multiset().insert(v));
    } else {
        assert(values =~= ascending(values));
    }
}

proof fn lemma_rank(n: nat, percent: nat)
    requires
        n > 0,
    ensures
        1 <= rank(n, percent) <= n,
{
}

/// A greater percentile is never less, and the last is the greatest sample.
pub proof fn law_percentiles_rise(values: Seq<i128>, p: nat, q: nat)
    requires
        values.len() > 0,
        p <= q,
    ensures
        ascending(values)[rank(values.len(), p) - 1] <= ascending(values)[rank(values.len(), q)
            - 1],
        rank(values.len(), 100) == values.len(),
{
    let n = values.len();
    law_ascending(values);
    lemma_rank(n, p);
    lemma_rank(n, q);
    assert(p * n <= q * n) by (nonlinear_arith)
        requires
            0 <= p <= q,
            0 <= n,
    ;
    assert((100 * n + 99) / 100 == n);
}

// ---- samples ----------------------------------------------------------------------

/// Samples of a span of time, in whatever unit they were taken.
#[derive(Clone)]
pub struct Samples {
    pub values: Vec<i128>,
}

/// The figures that are reported of samples.
#[derive(Clone, Copy, PartialEq, Eq, Debug, Structural)]
pub struct Figures {
    pub count: usize,
    pub p50: i128,
    pub p90: i128,
    pub p95: i128,
    pub p99: i128,
    pub max: i128,
}

impl Default for Samples {
    fn default() -> (s: Samples)
        ensures
            s.values@ == Seq::<i128>::empty(),
    {
        Samples::new()
    }
}

impl Samples {
    pub fn new() -> (s: Samples)
        ensures
            s.values@ == Seq::<i128>::empty(),
    {
        Samples { values: Vec::new() }
    }

    pub fn push(&mut self, v: i128)
        ensures
            final(self).values@ == old(self).values@.push(v),
    {
        self.values.push(v);
    }

    pub fn len(&self) -> (n: usize)
        ensures
            n == self.values@.len(),
    {
        self.values.len()
    }

    pub fn is_empty(&self) -> (r: bool)
        ensures
            r == (self.values@.len() == 0),
    {
        self.values.len() == 0
    }

    fn sorted(&self) -> (out: Vec<i128>)
        ensures
            out@ == ascending(self.values@),
    {
        let ghost all = self.values@;
        let n: usize = self.values.len();
        let mut out: Vec<i128> = Vec::new();
        let mut i: usize = 0;
        assert(all.take(0) =~= seq![]);
        while i < n
            invariant
                i <= n == all.len(),
                all == self.values@,
                out@ == ascending(all.take(i as int)),
            decreases n - i,
        {
            let v: i128 = self.values[i];
            let ghost sorted = out@;
            proof {
                assert(all.take(i + 1).drop_last() =~= all.take(i as int));
                assert(all.take(i + 1).last() == v);
            }
            let mut p: usize = out.len();
            assert(sorted.take(p as int) =~= sorted);
            while p > 0 && v < out[p - 1]
                invariant
                    p <= out@.len(),
                    sorted == out@,
                    slot(sorted, v) == slot(sorted.take(p as int), v),
                decreases p,
            {
                proof {
                    assert(sorted.take(p as int).last() == sorted[p - 1]);
                    assert(sorted.take(p as int).drop_last() =~= sorted.take(p - 1));
                }
                p -= 1;
            }
            proof {
                if p > 0 {
                    assert(sorted.take(p as int).last() == sorted[p - 1]);
                }
                assert(slot(sorted, v) == p);
            }
            out.insert(p, v);
            i += 1;
        }
        assert(all.take(i as int) =~= all);
        out
    }

    /// Nearest-rank percentile, of at most a hundred percent.
    pub fn p(&self, percent: u64) -> (r: Option<i128>)
        requires
            percent <= 100,
        ensures
            r == (if self.values@.len() == 0 {
                None
            } else {
                Some(
                    ascending(self.values@)[rank(self.values@.len(), percent as nat) - 1],
                )
            }),
    {
        let n: usize = self.values.len();
        if n == 0 {
            return None;
        }
        proof {
            law_ascending(self.values@);
            lemma_rank(n as nat, percent as nat);
            assert(0 <= percent * n <= 100 * n) by (nonlinear_arith)
                requires
                    0 <= percent <= 100,
                    0 <= n,
            ;
        }
        let v: Vec<i128> = self.sorted();
        let r: u128 = (percent as u128 * n as u128 + 99) / 100;
        let at: usize = if r < 1 {
            0
        } else if r > n as u128 {
            n - 1
        } else {
            r as usize - 1
        };
        Some(v[at])
    }

    /// The greatest sample.
    pub fn max(&self) -> (r: Option<i128>)
        ensures
            r is None <==> self.values@.len() == 0,
            r matches Some(m) ==> self.values@.contains(m) && forall|i: int|
                0 <= i < self.values@.len() ==> #[trigger] self.values@[i] <= m,
    {
        proof {
            lemma_last_is_greatest(self.values@);
        }
        self.p(100)
    }

    /// The figures that are reported, where there are samples.
    pub fn figures(&self) -> (r: Option<Figures>)
        ensures
            r is None <==> self.values@.len() == 0,
            r matches Some(f) ==> {
                let v = ascending(self.values@);
                let n = self.values@.len();
                &&& f.count == n
                &&& f.p50 == v[rank(n, 50) - 1]
                &&& f.p90 == v[rank(n, 90) - 1]
                &&& f.p95 == v[rank(n, 95) - 1]
                &&& f.p99 == v[rank(n, 99) - 1]
                &&& f.max == v[rank(n, 100) - 1]
            },
    {
        match (self.p(50), self.p(90), self.p(95), self.p(99), self.p(100)) {
            (Some(p50), Some(p90), Some(p95), Some(p99), Some(max)) => Some(
                Figures { count: self.values.len(), p50, p90, p95, p99, max },
            ),
            _ => None,
        }
    }
}

proof fn lemma_last_is_greatest(values: Seq<i128>)
    ensures
        values.len() > 0 ==> {
            let m = ascending(values)[rank(values.len(), 100) - 1];
            values.contains(m) && forall|i: int|
                0 <= i < values.len() ==> #[trigger] values[i] <= m
        },
{
    if values.len() > 0 {
        broadcast use vstd::seq_lib::group_to_multiset_ensures;

        law_ascending(values);
        let sorted = ascending(values);
        let n = values.len();
        assert((100 * n + 99) / 100 == n);
        let m = sorted[n - 1];
        assert(sorted.contains(m));
        assert(values.to_multiset().count(m) > 0);
        assert forall|i: int| 0 <= i < values.len() implies #[trigger] values[i] <= m by {
            assert(values.contains(values[i]));
            assert(sorted.to_multiset().count(values[i]) > 0);
            assert(sorted.contains(values[i]));
            let k = sorted.index_of(values[i]);
            assert(sorted[k] <= sorted[n - 1]);
        }
    }
}

// ---- the report -------------------------------------------------------------------

/// So many spaces.
pub open spec fn spaces(n: int) -> Seq<char>
    decreases n,
{
    if n <= 0 {
        seq![]
    } else {
        spaces(n - 1).push(' ')
    }
}

/// A text with spaces after it, up to a width.
pub open spec fn pad_right(s: Seq<char>, width: int) -> Seq<char> {
    s + spaces(width - s.len())
}

/// A text with spaces before it, up to a width.
pub open spec fn pad_left(s: Seq<char>, width: int) -> Seq<char> {
    spaces(width - s.len()) + s
}

fn push_spaces(out: &mut String, s: &str, width: usize)
    ensures
        final(out)@ == old(out)@ + spaces(width - s@.len()),
{
    let ghost before = out@;
    let mut have: usize = 0;
    let cs: Vec<char> = crate::chars::to_chars(s);
    let n: usize = cs.len();
    if n >= width {
        assert(out@ =~= before + spaces(width - s@.len()));
        return;
    }
    let need: usize = width - n;
    assert(out@ =~= before + spaces(0));
    while have < need
        invariant
            have <= need,
            out@ == before + spaces(have as int),
        decreases need - have,
    {
        out.push(' ');
        have += 1;
        assert(out@ =~= before + spaces(have as int));
    }
}

/// Appends a text padded on its right.
pub fn push_right(out: &mut String, s: &str, width: usize)
    ensures
        final(out)@ == old(out)@ + pad_right(s@, width as int),
{
    let ghost before = out@;
    push_str(out, s);
    push_spaces(out, s, width);
    assert(out@ =~= before + pad_right(s@, width as int));
}

/// Appends a text padded on its left.
pub fn push_left(out: &mut String, s: &str, width: usize)
    ensures
        final(out)@ == old(out)@ + pad_left(s@, width as int),
{
    let ghost before = out@;
    push_spaces(out, s, width);
    push_str(out, s);
    assert(out@ =~= before + pad_left(s@, width as int));
}

/// The figures as they are written out in milliseconds.
pub struct Shown {
    pub count: usize,
    pub p50: String,
    pub p90: String,
    pub p95: String,
    pub p99: String,
    pub max: String,
}

/// A line of a report.
pub open spec fn report_line(label: Seq<char>, shown: Option<Shown>) -> Seq<char> {
    match shown {
        None => pad_right(label, 34) + " no samples"@,
        Some(f) => pad_right(label, 34) + " n="@ + pad_right(
            number::decimal(f.count as nat),
            5,
        ) + " p50="@ + pad_left(f.p50@, 7) + " p90="@ + pad_left(f.p90@, 7) + " p95="@ + pad_left(
            f.p95@,
            7,
        ) + " p99="@ + pad_left(f.p99@, 7) + " max="@ + pad_left(f.max@, 7) + "  (ms)"@,
    }
}

/// A line of a report: its label and the figures, or that there are none.
pub fn report(label: &str, shown: &Option<Shown>) -> (s: String)
    ensures
        s@ == report_line(label@, *shown),
{
    let mut s: String = String::new();
    push_right(&mut s, label, 34);
    assert(s@ =~= pad_right(label@, 34));
    match shown {
        None => {
            push_str(&mut s, " no samples");
        },
        Some(f) => {
            let mut n: String = String::new();
            push_decimal(&mut n, f.count as u64);
            assert(n@ =~= number::decimal(f.count as nat));
            push_str(&mut s, " n=");
            push_right(&mut s, n.as_str(), 5);
            push_str(&mut s, " p50=");
            push_left(&mut s, f.p50.as_str(), 7);
            push_str(&mut s, " p90=");
            push_left(&mut s, f.p90.as_str(), 7);
            push_str(&mut s, " p95=");
            push_left(&mut s, f.p95.as_str(), 7);
            push_str(&mut s, " p99=");
            push_left(&mut s, f.p99.as_str(), 7);
            push_str(&mut s, " max=");
            push_left(&mut s, f.max.as_str(), 7);
            push_str(&mut s, "  (ms)");
        },
    }
    s
}

} // verus!
