//! Word error rate against a reference transcript.

use vstd::prelude::*;
use crate::chars;
use crate::chars::{from_chars, is_alphanumeric, to_chars, to_lowercase};
use crate::words;
use crate::words::split_words;

verus! {

/// A character as it is scored: a letter, a number or an apostrophe stays,
/// anything else separates words.
pub open spec fn scored_char(c: char) -> char {
    if chars::alphanumeric(c) || c == '\'' {
        c
    } else {
        ' '
    }
}

/// The words of a text as they are scored: in lower case, without punctuation.
pub open spec fn scored(s: Seq<char>) -> Seq<Seq<char>> {
    words::words(chars::lower(s).map_values(|c: char| scored_char(c)))
}

/// Lower case, punctuation dropped, split on white space: it measures the
/// words, not the typography.
pub fn normalise(s: &str) -> (out: Vec<String>)
    ensures
        chars::texts(out@) == scored(s@),
{
    let low: Vec<char> = to_chars(to_lowercase(s).as_str());
    let ghost want = low@.map_values(|c: char| scored_char(c));
    let mut kept: Vec<char> = Vec::new();
    let mut i: usize = 0;
    while i < low.len()
        invariant
            i <= low@.len(),
            i == kept@.len(),
            want == low@.map_values(|c: char| scored_char(c)),
            forall|k: int| 0 <= k < i ==> #[trigger] kept@[k] == want[k],
        decreases low@.len() - i,
    {
        let c: char = low[i];
        if is_alphanumeric(c) || c == '\'' {
            kept.push(c);
        } else {
            kept.push(' ');
        }
        i += 1;
    }
    assert(kept@ =~= want);
    let ws: Vec<Vec<char>> = split_words(kept.as_slice());
    let mut out: Vec<String> = Vec::new();
    let mut k: usize = 0;
    while k < ws.len()
        invariant
            k <= ws@.len(),
            k == out@.len(),
            forall|j: int| 0 <= j < k ==> (#[trigger] out@[j])@ == ws@[j]@,
        decreases ws@.len() - k,
    {
        out.push(from_chars(ws[k].as_slice()));
        k += 1;
    }
    assert(chars::texts(out@) =~= words::runs(ws@));
    out
}

/// What it costs to put one word in the place of another.
pub open spec fn cost(a: Seq<char>, b: Seq<char>) -> int {
    if a == b {
        0
    } else {
        1
    }
}

pub open spec fn min(a: int, b: int) -> int {
    if a <= b {
        a
    } else {
        b
    }
}

/// The Levenshtein distance between the first `i` words of the reference and
/// the first `j` of the hypothesis.
pub open spec fn distance(r: Seq<Seq<char>>, h: Seq<Seq<char>>, i: nat, j: nat) -> int
    decreases i, j,
{
    if i == 0 {
        j as int
    } else if j == 0 {
        i as int
    } else {
        min(
            min(
                distance(r, h, (i - 1) as nat, j) + 1,
                distance(r, h, i, (j - 1) as nat) + 1,
            ),
            distance(r, h, (i - 1) as nat, (j - 1) as nat) + cost(r[i - 1], h[j - 1]),
        )
    }
}

/// How a distance splits into substitutions, deletions and insertions. Of the
/// alignments that reach it, one that pairs words is preferred to one that
/// deletes, and that to one that inserts, from the end backwards.
pub open spec fn breakdown(r: Seq<Seq<char>>, h: Seq<Seq<char>>, i: nat, j: nat) -> (
    int,
    int,
    int,
)
    decreases i + j,
{
    if i == 0 && j == 0 {
        (0, 0, 0)
    } else if i > 0 && j > 0 && distance(r, h, i, j) == distance(
        r,
        h,
        (i - 1) as nat,
        (j - 1) as nat,
    ) + cost(r[i - 1], h[j - 1]) {
        let rest = breakdown(r, h, (i - 1) as nat, (j - 1) as nat);
        (rest.0 + cost(r[i - 1], h[j - 1]), rest.1, rest.2)
    } else if i > 0 && distance(r, h, i, j) == distance(r, h, (i - 1) as nat, j) + 1 {
        let rest = breakdown(r, h, (i - 1) as nat, j);
        (rest.0, rest.1 + 1, rest.2)
    } else if j > 0 {
        let rest = breakdown(r, h, i, (j - 1) as nat);
        (rest.0, rest.1, rest.2 + 1)
    } else {
        (0, 0, 0)
    }
}

proof fn lemma_distance_bounds(r: Seq<Seq<char>>, h: Seq<Seq<char>>, i: nat, j: nat)
    ensures
        0 <= distance(r, h, i, j),
        distance(r, h, i, j) <= i || distance(r, h, i, j) <= j,
        i - j <= distance(r, h, i, j),
        j - i <= distance(r, h, i, j),
    decreases i, j,
{
    if i > 0 && j > 0 {
        lemma_distance_bounds(r, h, (i - 1) as nat, j);
        lemma_distance_bounds(r, h, i, (j - 1) as nat);
        lemma_distance_bounds(r, h, (i - 1) as nat, (j - 1) as nat);
    }
}

/// Whether a matrix holds the distances of its first rows.
spec fn holds(
    d: Seq<Vec<usize>>,
    r: Seq<Seq<char>>,
    h: Seq<Seq<char>>,
    rows: int,
) -> bool {
    &&& d.len() == rows
    &&& forall|i: int| 0 <= i < rows ==> (#[trigger] d[i])@.len() == h.len() + 1
    &&& forall|i: int, j: int|
        0 <= i < rows && 0 <= j <= h.len() ==> (#[trigger] d[i]@[j]) == distance(
            r,
            h,
            i as nat,
            j as nat,
        )
}

/// The matrix of distances between all beginnings of the two.
fn matrix(r: &[String], h: &[String]) -> (d: Vec<Vec<usize>>)
    requires
        r@.len() < usize::MAX,
        h@.len() < usize::MAX,
    ensures
        holds(d@, chars::texts(r@), chars::texts(h@), r@.len() as int + 1),
{
    let n: usize = r.len();
    let m: usize = h.len();
    let ghost rs = chars::texts(r@);
    let ghost hs = chars::texts(h@);
    let mut d: Vec<Vec<usize>> = Vec::new();
    let mut i: usize = 0;
    while i <= n
        invariant
            i <= n + 1,
            n == r@.len() < usize::MAX,
            m == h@.len() < usize::MAX,
            rs == chars::texts(r@),
            hs == chars::texts(h@),
            holds(d@, rs, hs, i as int),
        decreases n + 1 - i,
    {
        let mut row: Vec<usize> = Vec::new();
        row.push(i);
        let mut j: usize = 1;
        while j <= m
            invariant
                1 <= j <= m + 1,
                i <= n,
                n == r@.len() < usize::MAX,
                m == h@.len() < usize::MAX,
                rs == chars::texts(r@),
                hs == chars::texts(h@),
                holds(d@, rs, hs, i as int),
                row@.len() == j,
                forall|k: int|
                    0 <= k < j ==> (#[trigger] row@[k]) == distance(rs, hs, i as nat, k as nat),
            decreases m + 1 - j,
        {
            if i == 0 {
                row.push(j);
            } else {
                proof {
                    lemma_distance_bounds(rs, hs, (i - 1) as nat, j as nat);
                    lemma_distance_bounds(rs, hs, i as nat, (j - 1) as nat);
                    lemma_distance_bounds(rs, hs, (i - 1) as nat, (j - 1) as nat);
                    assert(d@[i - 1]@[j as int] == distance(rs, hs, (i - 1) as nat, j as nat));
                    assert(d@[i - 1]@[j - 1] == distance(
                        rs,
                        hs,
                        (i - 1) as nat,
                        (j - 1) as nat,
                    ));
                    assert(row@[j - 1] == distance(rs, hs, i as nat, (j - 1) as nat));
                }
                let c: usize = if r[i - 1] == h[j - 1] {
                    0
                } else {
                    1
                };
                let above: usize = d[i - 1][j] + 1;
                let left: usize = row[j - 1] + 1;
                let across: usize = d[i - 1][j - 1] + c;
                let mut best: usize = above;
                if left < best {
                    best = left;
                }
                if across < best {
                    best = across;
                }
                row.push(best);
            }
            j += 1;
        }
        let ghost before = d@;
        d.push(row);
        proof {
            assert forall|a: int, b: int| 0 <= a < i + 1 && 0 <= b <= hs.len() implies (
            #[trigger] d@[a]@[b]) == distance(rs, hs, a as nat, b as nat) by {
                if a < i {
                    assert(before[a]@[b] == distance(rs, hs, a as nat, b as nat));
                }
            }
        }
        i += 1;
    }
    d
}

/// Levenshtein over words: the total distance, then how many substitutions,
/// deletions and insertions it is made of.
pub fn edit_distance(r: &[String], h: &[String]) -> (out: (usize, usize, usize, usize))
    requires
        r@.len() < usize::MAX,
        h@.len() < usize::MAX,
    ensures
        out.0 == distance(chars::texts(r@), chars::texts(h@), r@.len(), h@.len()),
        (out.1 as int, out.2 as int, out.3 as int) == breakdown(
            chars::texts(r@),
            chars::texts(h@),
            r@.len(),
            h@.len(),
        ),
{
    let d: Vec<Vec<usize>> = matrix(r, h);
    let n: usize = r.len();
    let m: usize = h.len();
    let ghost rs = chars::texts(r@);
    let ghost hs = chars::texts(h@);
    let mut i: usize = n;
    let mut j: usize = m;
    let mut subs: usize = 0;
    let mut del: usize = 0;
    let mut ins: usize = 0;
    while i > 0 || j > 0
        invariant
            i <= n == r@.len() < usize::MAX,
            j <= m == h@.len() < usize::MAX,
            rs == chars::texts(r@),
            hs == chars::texts(h@),
            holds(d@, rs, hs, n + 1),
            subs + del <= n - i,
            ins <= m - j,
            breakdown(rs, hs, n as nat, m as nat) == ({
                let rest = breakdown(rs, hs, i as nat, j as nat);
                (rest.0 + subs, rest.1 + del, rest.2 + ins)
            }),
        decreases i + j,
    {
        assert(d@[i as int]@[j as int] == distance(rs, hs, i as nat, j as nat));
        if i > 0 && j > 0 {
            assert(d@[i - 1]@[j - 1] == distance(rs, hs, (i - 1) as nat, (j - 1) as nat));
            proof {
                lemma_distance_bounds(rs, hs, (i - 1) as nat, (j - 1) as nat);
            }
            let c: usize = if r[i - 1] == h[j - 1] {
                0
            } else {
                1
            };
            if d[i][j] == d[i - 1][j - 1] + c {
                subs += c;
                i -= 1;
                j -= 1;
                continue ;
            }
        }
        if i > 0 {
            assert(d@[i - 1]@[j as int] == distance(rs, hs, (i - 1) as nat, j as nat));
            proof {
                lemma_distance_bounds(rs, hs, (i - 1) as nat, j as nat);
            }
        }
        if i > 0 && d[i][j] == d[i - 1][j] + 1 {
            del += 1;
            i -= 1;
        } else {
            ins += 1;
            j -= 1;
        }
    }
    assert(d@[n as int]@[m as int] == distance(rs, hs, n as nat, m as nat));
    (d[n][m], subs, del, ins)
}

// ---- what holds of every score ----------------------------------------------

/// The three kinds of error add up to the distance, and they account for the
/// difference in length: what was inserted is in the hypothesis only, what was
/// deleted in the reference only.
pub proof fn law_breakdown_adds_up(r: Seq<Seq<char>>, h: Seq<Seq<char>>, i: nat, j: nat)
    ensures
        ({
            let b = breakdown(r, h, i, j);
            &&& b.0 + b.1 + b.2 == distance(r, h, i, j)
            &&& i + b.2 == j + b.1
            &&& 0 <= b.0 && 0 <= b.1 && 0 <= b.2
        }),
    decreases i + j,
{
    if i == 0 && j == 0 {
    } else if i > 0 && j > 0 && distance(r, h, i, j) == distance(
        r,
        h,
        (i - 1) as nat,
        (j - 1) as nat,
    ) + cost(r[i - 1], h[j - 1]) {
        law_breakdown_adds_up(r, h, (i - 1) as nat, (j - 1) as nat);
    } else if i > 0 && distance(r, h, i, j) == distance(r, h, (i - 1) as nat, j) + 1 {
        law_breakdown_adds_up(r, h, (i - 1) as nat, j);
    } else {
        law_breakdown_adds_up(r, h, i, (j - 1) as nat);
    }
}

/// The distance is at least the difference in length and at most the longer
/// length.
pub proof fn law_distance_range(r: Seq<Seq<char>>, h: Seq<Seq<char>>)
    ensures
        r.len() - h.len() <= distance(r, h, r.len(), h.len()),
        h.len() - r.len() <= distance(r, h, r.len(), h.len()),
        distance(r, h, r.len(), h.len()) <= r.len() || distance(r, h, r.len(), h.len())
            <= h.len(),
{
    lemma_distance_bounds(r, h, r.len(), h.len());
}

proof fn lemma_zero(r: Seq<Seq<char>>, h: Seq<Seq<char>>, i: nat, j: nat)
    requires
        i <= r.len(),
        j <= h.len(),
    ensures
        distance(r, h, i, j) == 0 <==> r.take(i as int) == h.take(j as int),
    decreases i, j,
{
    lemma_distance_bounds(r, h, i, j);
    if i > 0 && j > 0 {
        lemma_zero(r, h, (i - 1) as nat, (j - 1) as nat);
        lemma_distance_bounds(r, h, (i - 1) as nat, j);
        lemma_distance_bounds(r, h, i, (j - 1) as nat);
        lemma_distance_bounds(r, h, (i - 1) as nat, (j - 1) as nat);
        let a = r.take(i as int);
        let b = h.take(j as int);
        assert(a.drop_last() =~= r.take(i - 1));
        assert(b.drop_last() =~= h.take(j - 1));
        assert(a =~= a.drop_last().push(r[i - 1]));
        assert(b =~= b.drop_last().push(h[j - 1]));
        assert(a.last() == r[i - 1]);
        assert(b.last() == h[j - 1]);
    } else if i == 0 && j == 0 {
        assert(r.take(0) =~= h.take(0));
    } else {
        assert(r.take(i as int).len() != h.take(j as int).len());
    }
}

/// The distance is zero exactly for identical texts.
pub proof fn law_zero_means_identical(r: Seq<Seq<char>>, h: Seq<Seq<char>>)
    ensures
        distance(r, h, r.len(), h.len()) == 0 <==> r == h,
{
    lemma_zero(r, h, r.len(), h.len());
    assert(r.take(r.len() as int) =~= r);
    assert(h.take(h.len() as int) =~= h);
}

/// The distance does not depend on which of the two is the reference.
pub proof fn law_distance_symmetric(r: Seq<Seq<char>>, h: Seq<Seq<char>>, i: nat, j: nat)
    ensures
        distance(r, h, i, j) == distance(h, r, j, i),
    decreases i, j,
{
    if i > 0 && j > 0 {
        law_distance_symmetric(r, h, (i - 1) as nat, j);
        law_distance_symmetric(r, h, i, (j - 1) as nat);
        law_distance_symmetric(r, h, (i - 1) as nat, (j - 1) as nat);
    }
}

proof fn lemma_triangle(
    a: Seq<Seq<char>>,
    b: Seq<Seq<char>>,
    c: Seq<Seq<char>>,
    i: nat,
    j: nat,
    k: nat,
)
    ensures
        distance(a, c, i, k) <= distance(a, b, i, j) + distance(b, c, j, k),
    decreases i + j + k,
{
    lemma_distance_bounds(a, c, i, k);
    lemma_distance_bounds(a, b, i, j);
    lemma_distance_bounds(b, c, j, k);
    if i > 0 && j > 0 && k > 0 {
        let (x, y, z) = ((i - 1) as nat, (j - 1) as nat, (k - 1) as nat);
        lemma_triangle(a, b, c, x, j, k);
        lemma_triangle(a, b, c, i, j, z);
        lemma_triangle(a, b, c, i, y, k);
        lemma_triangle(a, b, c, i, y, z);
        lemma_triangle(a, b, c, x, y, k);
        lemma_triangle(a, b, c, x, y, z);
    }
}

/// A text that is passed on through another is no further from where it started than
/// the two distances together.
pub proof fn law_distance_triangle(a: Seq<Seq<char>>, b: Seq<Seq<char>>, c: Seq<Seq<char>>)
    ensures
        distance(a, c, a.len(), c.len()) <= distance(a, b, a.len(), b.len()) + distance(
            b,
            c,
            b.len(),
            c.len(),
        ),
{
    lemma_triangle(a, b, c, a.len(), b.len(), c.len());
}

/// The distance is a metric on texts: nothing apart from itself is at no distance from a
/// text, it is the same both ways, and no way round is shorter. A text that is scored
/// against itself has no error of any kind.
pub proof fn law_distance_is_a_metric(a: Seq<Seq<char>>, b: Seq<Seq<char>>, c: Seq<Seq<char>>)
    ensures
        distance(a, b, a.len(), b.len()) >= 0,
        distance(a, b, a.len(), b.len()) == 0 <==> a == b,
        breakdown(a, a, a.len(), a.len()) == (0int, 0int, 0int),
        distance(a, b, a.len(), b.len()) == distance(b, a, b.len(), a.len()),
        distance(a, c, a.len(), c.len()) <= distance(a, b, a.len(), b.len()) + distance(
            b,
            c,
            b.len(),
            c.len(),
        ),
{
    law_distance_range(a, b);
    law_zero_means_identical(a, b);
    law_zero_means_identical(a, a);
    law_breakdown_adds_up(a, a, a.len(), a.len());
    law_distance_symmetric(a, b, a.len(), b.len());
    law_distance_triangle(a, b, c);
}

/// One step of an alignment.
pub enum Step {
    /// A word of the reference is paired with one of the hypothesis.
    Pair,
    /// A word of the reference has no partner.
    Delete,
    /// A word of the hypothesis has no partner.
    Insert,
}

/// What an alignment of the first `i` words with the first `j` costs, or
/// nothing where the steps do not align those.
pub open spec fn alignment_cost(
    r: Seq<Seq<char>>,
    h: Seq<Seq<char>>,
    i: nat,
    j: nat,
    steps: Seq<Step>,
) -> Option<int>
    decreases steps.len(),
{
    if steps.len() == 0 {
        if i == 0 && j == 0 {
            Some(0)
        } else {
            None
        }
    } else {
        match steps.last() {
            Step::Pair => if i > 0 && j > 0 {
                match alignment_cost(r, h, (i - 1) as nat, (j - 1) as nat, steps.drop_last()) {
                    Some(c) => Some(c + cost(r[i - 1], h[j - 1])),
                    None => None,
                }
            } else {
                None
            },
            Step::Delete => if i > 0 {
                match alignment_cost(r, h, (i - 1) as nat, j, steps.drop_last()) {
                    Some(c) => Some(c + 1),
                    None => None,
                }
            } else {
                None
            },
            Step::Insert => if j > 0 {
                match alignment_cost(r, h, i, (j - 1) as nat, steps.drop_last()) {
                    Some(c) => Some(c + 1),
                    None => None,
                }
            } else {
                None
            },
        }
    }
}

/// No alignment of two texts costs less than their distance.
pub proof fn law_no_cheaper_alignment(
    r: Seq<Seq<char>>,
    h: Seq<Seq<char>>,
    i: nat,
    j: nat,
    steps: Seq<Step>,
)
    ensures
        alignment_cost(r, h, i, j, steps) matches Some(c) ==> distance(r, h, i, j) <= c,
    decreases steps.len(),
{
    if steps.len() > 0 {
        match steps.last() {
            Step::Pair => if i > 0 && j > 0 {
                law_no_cheaper_alignment(
                    r,
                    h,
                    (i - 1) as nat,
                    (j - 1) as nat,
                    steps.drop_last(),
                );
            },
            Step::Delete => if i > 0 {
                law_no_cheaper_alignment(r, h, (i - 1) as nat, j, steps.drop_last());
            },
            Step::Insert => if j > 0 {
                law_no_cheaper_alignment(r, h, i, (j - 1) as nat, steps.drop_last());
            },
        }
    }
}

/// Some alignment of two texts costs exactly their distance.
pub proof fn law_some_alignment_reaches_it(
    r: Seq<Seq<char>>,
    h: Seq<Seq<char>>,
    i: nat,
    j: nat,
) -> (steps: Seq<Step>)
    ensures
        alignment_cost(r, h, i, j, steps) == Some(distance(r, h, i, j)),
    decreases i + j,
{
    if i == 0 && j == 0 {
        Seq::empty()
    } else if i > 0 && j > 0 && distance(r, h, i, j) == distance(
        r,
        h,
        (i - 1) as nat,
        (j - 1) as nat,
    ) + cost(r[i - 1], h[j - 1]) {
        let s = law_some_alignment_reaches_it(r, h, (i - 1) as nat, (j - 1) as nat);
        assert(s.push(Step::Pair).drop_last() =~= s);
        s.push(Step::Pair)
    } else if i > 0 && distance(r, h, i, j) == distance(r, h, (i - 1) as nat, j) + 1 {
        let s = law_some_alignment_reaches_it(r, h, (i - 1) as nat, j);
        assert(s.push(Step::Delete).drop_last() =~= s);
        s.push(Step::Delete)
    } else {
        let s = law_some_alignment_reaches_it(r, h, i, (j - 1) as nat);
        assert(s.push(Step::Insert).drop_last() =~= s);
        s.push(Step::Insert)
    }
}

} // verus!
