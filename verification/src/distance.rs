//! Edit distance between two short identifiers.

use crate::text::chars_of;
use vstd::prelude::*;

verus! {

/// The smaller of two numbers.
pub open spec fn min2(x: nat, y: nat) -> nat {
    if x <= y {
        x
    } else {
        y
    }
}

/// The larger of two numbers.
pub open spec fn max2(x: nat, y: nat) -> nat {
    if x <= y {
        y
    } else {
        x
    }
}

/// The Levenshtein distance between `a` and `b`: the least number of single
/// character insertions, deletions and substitutions that turn one into the
/// other.
pub open spec fn lev(a: Seq<char>, b: Seq<char>) -> nat
    decreases a.len() + b.len(),
{
    if a.len() == 0 {
        b.len()
    } else if b.len() == 0 {
        a.len()
    } else {
        let cost: nat = if a.last() == b.last() {
            0
        } else {
            1
        };
        min2(
            min2(lev(a.drop_last(), b) + 1, lev(a, b.drop_last()) + 1),
            lev(a.drop_last(), b.drop_last()) + cost,
        )
    }
}

/// The distance is the same in both directions.
pub proof fn lemma_lev_symmetric(a: Seq<char>, b: Seq<char>)
    ensures
        lev(a, b) == lev(b, a),
    decreases a.len() + b.len(),
{
    if a.len() == 0 || b.len() == 0 {
    } else {
        lemma_lev_symmetric(a.drop_last(), b);
        lemma_lev_symmetric(a, b.drop_last());
        lemma_lev_symmetric(a.drop_last(), b.drop_last());
    }
}

/// The distance never exceeds the length of the longer string.
pub proof fn lemma_lev_upper_bound(a: Seq<char>, b: Seq<char>)
    ensures
        lev(a, b) <= max2(a.len(), b.len()),
    decreases a.len() + b.len(),
{
    if a.len() == 0 || b.len() == 0 {
    } else {
        lemma_lev_upper_bound(a.drop_last(), b.drop_last());
    }
}

/// The distance is zero exactly between a string and itself.
pub proof fn lemma_lev_zero_iff_equal(a: Seq<char>, b: Seq<char>)
    ensures
        lev(a, b) == 0 <==> a == b,
    decreases a.len() + b.len(),
{
    if a.len() == 0 || b.len() == 0 {
        if a.len() == 0 && b.len() == 0 {
            assert(a =~= b);
        }
    } else {
        lemma_lev_zero_iff_equal(a.drop_last(), b.drop_last());
        if a == b {
            assert(lev(a, b) == 0);
        }
        if lev(a, b) == 0 {
            assert(a.drop_last() == b.drop_last());
            assert(a.last() == b.last());
            assert(a =~= a.drop_last().push(a.last()));
            assert(b =~= b.drop_last().push(b.last()));
        }
    }
}

/// One row of the distance table: the row for the empty prefix, whose entry
/// `j` is `j`. Building it shows that `m + 1` fits a machine word.
fn first_row(m: usize, Ghost(a): Ghost<Seq<char>>, Ghost(b): Ghost<Seq<char>>) -> (row: Vec<usize>)
    requires
        m == b.len(),
    ensures
        row@.len() == m + 1,
        m < usize::MAX,
        forall|j: int| 0 <= j <= m ==> row@[j] == lev(a.take(0), #[trigger] b.take(j)),
{
    let mut row: Vec<usize> = Vec::new();
    row.push(0);
    let mut j: usize = 0;
    while j < m
        invariant
            j <= m,
            m == b.len(),
            row@.len() == j + 1,
            forall|k: int| 0 <= k <= j ==> row@[k] == lev(a.take(0), #[trigger] b.take(k)),
        decreases m - j,
    {
        j = j + 1;
        row.push(j);
    }
    assert(row.len() == m + 1);
    row
}

/// The distance between two character slices, the second at least as long
/// as the first.
fn distance_ordered(a: &[char], b: &[char]) -> (d: usize)
    requires
        a@.len() <= b@.len(),
    ensures
        d == lev(a@, b@),
{
    let n = a.len();
    let m = b.len();
    let mut prev = first_row(m, Ghost(a@), Ghost(b@));
    let mut i: usize = 0;
    while i < n
        invariant
            i <= n,
            n == a@.len(),
            m == b@.len(),
            n <= m < usize::MAX,
            prev@.len() == m + 1,
            forall|j: int| 0 <= j <= m ==> prev@[j] == lev(a@.take(i as int), #[trigger] b@.take(j)),
        decreases n - i,
    {
        i = i + 1;
        let ghost ai = a@.take(i as int);
        proof {
            assert(ai.drop_last() =~= a@.take(i - 1));
            assert(b@.take(0).len() == 0);
        }
        let mut cur: Vec<usize> = Vec::new();
        cur.push(i);
        let mut j: usize = 0;
        while j < m
            invariant
                j <= m,
                1 <= i <= n,
                n == a@.len(),
                m == b@.len(),
                n <= m < usize::MAX,
                ai == a@.take(i as int),
                ai.drop_last() == a@.take(i - 1),
                prev@.len() == m + 1,
                cur@.len() == j + 1,
                forall|k: int| 0 <= k <= m ==> prev@[k] == lev(a@.take(i - 1), #[trigger] b@.take(k)),
                forall|k: int| 0 <= k <= j ==> cur@[k] == lev(ai, #[trigger] b@.take(k)),
            decreases m - j,
        {
            j = j + 1;
            let ghost bj = b@.take(j as int);
            proof {
                assert(bj.drop_last() =~= b@.take(j - 1));
                assert(ai.last() == a@[i - 1]);
                assert(bj.last() == b@[j - 1]);
                lemma_lev_upper_bound(ai.drop_last(), bj);
                lemma_lev_upper_bound(ai, bj.drop_last());
                lemma_lev_upper_bound(ai.drop_last(), bj.drop_last());
            }
            let del: usize = prev[j] + 1;
            let ins: usize = cur[j - 1] + 1;
            let cost: usize = if a[i - 1] == b[j - 1] {
                0
            } else {
                1
            };
            let sub: usize = prev[j - 1] + cost;
            let mut best: usize = if del <= ins {
                del
            } else {
                ins
            };
            if sub < best {
                best = sub;
            }
            assert(best == lev(ai, bj));
            cur.push(best);
        }
        prev = cur;
    }
    proof {
        assert(a@.take(n as int) =~= a@);
        assert(b@.take(m as int) =~= b@);
    }
    prev[m]
}

/// The Levenshtein distance between two character slices.
pub fn distance(a: &[char], b: &[char]) -> (d: usize)
    ensures
        d == lev(a@, b@),
{
    if a.len() <= b.len() {
        distance_ordered(a, b)
    } else {
        proof {
            lemma_lev_symmetric(a@, b@);
        }
        distance_ordered(b, a)
    }
}

/// The Levenshtein distance between two strings, counted in characters:
/// insertion, deletion and substitution cost one each.
pub fn levenshtein(a: &str, b: &str) -> (d: usize)
    ensures
        d == lev(a@, b@),
{
    let av = chars_of(a);
    let bv = chars_of(b);
    distance(av.as_slice(), bv.as_slice())
}

} // verus!
