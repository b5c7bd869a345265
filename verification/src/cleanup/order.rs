//! Stable orderings of files by age: the position a file takes when the list is
//! sorted oldest first (or newest first), ties keeping the scan order.
use vstd::prelude::*;
use vstd::set_lib::{lemma_int_range, lemma_map_size, lemma_subset_equality, set_int_range};

verus! {

/// How many of the first `k` ages exceed `a`.
pub open spec fn count_gt(s: Seq<u64>, k: int, a: u64) -> nat
    decreases k,
{
    if k <= 0 {
        0
    } else {
        count_gt(s, k - 1, a) + if s[k - 1] > a {
            1nat
        } else {
            0nat
        }
    }
}

/// How many of the first `k` ages equal `a`.
pub open spec fn count_eq(s: Seq<u64>, k: int, a: u64) -> nat
    decreases k,
{
    if k <= 0 {
        0
    } else {
        count_eq(s, k - 1, a) + if s[k - 1] == a {
            1nat
        } else {
            0nat
        }
    }
}

/// How many of the first `k` ages are below `a`.
pub open spec fn count_lt(s: Seq<u64>, k: int, a: u64) -> nat
    decreases k,
{
    if k <= 0 {
        0
    } else {
        count_lt(s, k - 1, a) + if s[k - 1] < a {
            1nat
        } else {
            0nat
        }
    }
}

/// Position of entry `i` once the list is stably sorted by decreasing age
/// (oldest first): older entries come first, then equal ages in scan order.
pub open spec fn rank_desc(s: Seq<u64>, i: int) -> nat {
    count_gt(s, s.len() as int, s[i]) + count_eq(s, i, s[i])
}

/// Position of entry `i` once the list is stably sorted by increasing age
/// (newest first): younger entries come first, then equal ages in scan order.
pub open spec fn rank_asc(s: Seq<u64>, i: int) -> nat {
    count_lt(s, s.len() as int, s[i]) + count_eq(s, i, s[i])
}

/// Every entry is above, equal to or below `a`.
pub proof fn lemma_count_split(s: Seq<u64>, k: int, a: u64)
    requires
        0 <= k <= s.len(),
    ensures
        count_gt(s, k, a) + count_eq(s, k, a) + count_lt(s, k, a) == k,
    decreases k,
{
    if k > 0 {
        lemma_count_split(s, k - 1, a);
    }
}

/// Counting equal entries over a longer prefix counts at least as many, and
/// strictly more when the longer prefix covers an extra equal entry.
pub proof fn lemma_count_eq_grows(s: Seq<u64>, i: int, j: int, a: u64)
    requires
        0 <= i <= j <= s.len(),
    ensures
        count_eq(s, i, a) <= count_eq(s, j, a),
        i < j && s[i] == a ==> count_eq(s, i, a) < count_eq(s, j, a),
    decreases j - i,
{
    if i < j {
        lemma_count_eq_grows(s, i, j - 1, a);
        if i < j - 1 {
            lemma_count_eq_grows(s, i + 1, j - 1, a);
        }
    }
}

/// Entries above or equal to `a` are all above any smaller `b`.
pub proof fn lemma_count_gt_dominates(s: Seq<u64>, k: int, a: u64, b: u64)
    requires
        0 <= k <= s.len(),
        b < a,
    ensures
        count_gt(s, k, a) + count_eq(s, k, a) <= count_gt(s, k, b),
    decreases k,
{
    if k > 0 {
        lemma_count_gt_dominates(s, k - 1, a, b);
    }
}

/// Entries below or equal to `a` are all below any larger `b`.
pub proof fn lemma_count_lt_dominates(s: Seq<u64>, k: int, a: u64, b: u64)
    requires
        0 <= k <= s.len(),
        a < b,
    ensures
        count_lt(s, k, a) + count_eq(s, k, a) <= count_lt(s, k, b),
    decreases k,
{
    if k > 0 {
        lemma_count_lt_dominates(s, k - 1, a, b);
    }
}

/// The oldest-first position of an entry lies within the list.
pub proof fn lemma_rank_desc_bound(s: Seq<u64>, i: int)
    requires
        0 <= i < s.len(),
    ensures
        rank_desc(s, i) < s.len(),
{
    lemma_count_split(s, s.len() as int, s[i]);
    lemma_count_eq_grows(s, i, s.len() as int, s[i]);
}

/// The newest-first position of an entry lies within the list.
pub proof fn lemma_rank_asc_bound(s: Seq<u64>, i: int)
    requires
        0 <= i < s.len(),
    ensures
        rank_asc(s, i) < s.len(),
{
    lemma_count_split(s, s.len() as int, s[i]);
    lemma_count_eq_grows(s, i, s.len() as int, s[i]);
}

/// An older entry, or an equally old entry scanned earlier, comes first in the
/// oldest-first order.
pub proof fn lemma_rank_desc_before(s: Seq<u64>, i: int, j: int)
    requires
        0 <= i < s.len(),
        0 <= j < s.len(),
        s[i] > s[j] || (s[i] == s[j] && i < j),
    ensures
        rank_desc(s, i) < rank_desc(s, j),
{
    let n = s.len() as int;
    if s[i] > s[j] {
        lemma_count_eq_grows(s, i, n, s[i]);
        lemma_count_gt_dominates(s, n, s[i], s[j]);
    } else {
        lemma_count_eq_grows(s, i, j, s[i]);
    }
}

/// Distinct entries take distinct oldest-first positions.
pub proof fn lemma_rank_desc_distinct(s: Seq<u64>, i: int, j: int)
    requires
        0 <= i < s.len(),
        0 <= j < s.len(),
        i != j,
    ensures
        rank_desc(s, i) != rank_desc(s, j),
{
    if s[i] > s[j] || (s[i] == s[j] && i < j) {
        lemma_rank_desc_before(s, i, j);
    } else {
        lemma_rank_desc_before(s, j, i);
    }
}

/// Every position of the list is the oldest-first position of some entry.
pub proof fn lemma_rank_desc_onto(s: Seq<u64>, k: int)
    requires
        0 <= k < s.len(),
    ensures
        exists|i: int| 0 <= i < s.len() && rank_desc(s, i) == k,
{
    let n = s.len() as int;
    let dom = set_int_range(0, n);
    let f = |i: int| rank_desc(s, i) as int;
    let img = dom.map(f);
    lemma_int_range(0, n);
    assert forall|x1: int, x2: int|
        dom.contains(x1) && dom.contains(x2) && #[trigger] f(x1) == #[trigger] f(x2) implies x1
        == x2 by {
        if x1 != x2 {
            lemma_rank_desc_distinct(s, x1, x2);
        }
    }
    lemma_map_size(dom, img, f);
    assert forall|y: int| img.contains(y) implies dom.contains(y) by {
        let x = choose|x: int| dom.contains(x) && y == f(x);
        lemma_rank_desc_bound(s, x);
    }
    lemma_subset_equality(img, dom);
    assert(dom.contains(k));
    assert(img.contains(k));
}

/// The indices of a list in oldest-first order (stable: equal ages keep scan order).
pub open spec fn oldest_first(s: Seq<u64>) -> Seq<int> {
    Seq::new(s.len(), |k: int| choose|i: int| 0 <= i < s.len() && rank_desc(s, i) == k)
}

/// The oldest-first order lists each index at its rank.
pub proof fn lemma_oldest_first(s: Seq<u64>)
    ensures
        oldest_first(s).len() == s.len(),
        forall|i: int| 0 <= i < s.len() ==> #[trigger] oldest_first(s)[rank_desc(s, i) as int] == i,
        forall|k: int|
            0 <= k < s.len() ==> 0 <= #[trigger] oldest_first(s)[k] < s.len() && rank_desc(
                s,
                oldest_first(s)[k],
            ) == k,
{
    assert forall|k: int| 0 <= k < s.len() implies 0 <= #[trigger] oldest_first(s)[k] < s.len()
        && rank_desc(s, oldest_first(s)[k]) == k by {
        lemma_rank_desc_onto(s, k);
    }
    assert forall|i: int| 0 <= i < s.len() implies #[trigger] oldest_first(s)[rank_desc(s, i) as int]
        == i by {
        lemma_rank_desc_bound(s, i);
        let k = rank_desc(s, i) as int;
        lemma_rank_desc_onto(s, k);
        let j = oldest_first(s)[k];
        if j != i {
            lemma_rank_desc_distinct(s, i, j);
        }
    }
}

/// Files come oldest first: a file is listed before every younger file, and
/// files of equal age keep their scan order.
pub proof fn law_oldest_first_sorted(s: Seq<u64>, a: int, b: int)
    requires
        0 <= a < b < s.len(),
    ensures
        s[oldest_first(s)[a]] >= s[oldest_first(s)[b]],
        s[oldest_first(s)[a]] == s[oldest_first(s)[b]] ==> oldest_first(s)[a] < oldest_first(s)[b],
{
    lemma_oldest_first(s);
    let i = oldest_first(s)[a];
    let j = oldest_first(s)[b];
    if s[i] < s[j] || (s[i] == s[j] && j < i) {
        lemma_rank_desc_before(s, j, i);
    }
}

fn rank_desc_of(ages: &Vec<u64>, i: usize) -> (r: usize)
    requires
        i < ages@.len(),
    ensures
        r as nat == rank_desc(ages@, i as int),
{
    let a = ages[i];
    let mut gt: usize = 0;
    let mut eq: usize = 0;
    let mut j: usize = 0;
    while j < ages.len()
        invariant
            j <= ages@.len(),
            i < ages@.len(),
            a == ages@[i as int],
            gt as nat == count_gt(ages@, j as int, a),
            eq as nat == count_eq(ages@, if j <= i {
                j as int
            } else {
                i as int
            }, a),
            gt <= j,
            eq <= j,
        decreases ages@.len() - j,
    {
        if ages[j] > a {
            gt = gt + 1;
        }
        if j < i && ages[j] == a {
            eq = eq + 1;
        }
        j = j + 1;
    }
    proof {
        lemma_rank_desc_bound(ages@, i as int);
    }
    gt + eq
}

fn rank_asc_of(ages: &Vec<u64>, i: usize) -> (r: usize)
    requires
        i < ages@.len(),
    ensures
        r as nat == rank_asc(ages@, i as int),
{
    let a = ages[i];
    let mut lt: usize = 0;
    let mut eq: usize = 0;
    let mut j: usize = 0;
    while j < ages.len()
        invariant
            j <= ages@.len(),
            i < ages@.len(),
            a == ages@[i as int],
            lt as nat == count_lt(ages@, j as int, a),
            eq as nat == count_eq(ages@, if j <= i {
                j as int
            } else {
                i as int
            }, a),
            lt <= j,
            eq <= j,
        decreases ages@.len() - j,
    {
        if ages[j] < a {
            lt = lt + 1;
        }
        if j < i && ages[j] == a {
            eq = eq + 1;
        }
        j = j + 1;
    }
    proof {
        lemma_rank_asc_bound(ages@, i as int);
    }
    lt + eq
}

/// The oldest-first order of a list of ages: `r[k]` is the index of the entry
/// that comes `k`-th once the list is stably sorted by decreasing age.
pub fn oldest_first_order(ages: &Vec<u64>) -> (r: Vec<usize>)
    ensures
        r@.len() == ages@.len(),
        forall|i: int| 0 <= i < ages@.len() ==> r@[rank_desc(ages@, i) as int] == i,
        forall|k: int| 0 <= k < ages@.len() ==> r@[k] as int == oldest_first(ages@)[k],
{
    let n = ages.len();
    let mut r: Vec<usize> = Vec::new();
    let mut k: usize = 0;
    while k < n
        invariant
            n == ages@.len(),
            k <= n,
            r@.len() == k,
        decreases n - k,
    {
        r.push(0);
        k = k + 1;
    }
    let mut i: usize = 0;
    while i < n
        invariant
            n == ages@.len(),
            i <= n,
            r@.len() == n,
            forall|j: int| 0 <= j < i ==> r@[rank_desc(ages@, j) as int] == j,
        decreases n - i,
    {
        let p = rank_desc_of(ages, i);
        proof {
            lemma_rank_desc_bound(ages@, i as int);
        }
        let ghost before = r@;
        r.set(p, i);
        proof {
            lemma_oldest_first(ages@);
            assert forall|j: int| 0 <= j < i + 1 implies r@[rank_desc(ages@, j) as int] == j by {
                if j < i {
                    lemma_rank_desc_bound(ages@, j);
                    lemma_rank_desc_distinct(ages@, j, i as int);
                    assert(r@[rank_desc(ages@, j) as int] == before[rank_desc(ages@, j) as int]);
                }
            }
        }
        i = i + 1;
    }
    proof {
        lemma_oldest_first(ages@);
        assert forall|k: int| 0 <= k < ages@.len() implies r@[k] as int == oldest_first(ages@)[k] by {
            let j = oldest_first(ages@)[k];
            assert(r@[rank_desc(ages@, j) as int] == j);
        }
    }
    r
}

/// Whether entry `i` is among the `n` newest (first `n` of the newest-first order).
pub fn is_among_newest(ages: &Vec<u64>, i: usize, n: usize) -> (r: bool)
    requires
        i < ages@.len(),
    ensures
        r == (rank_asc(ages@, i as int) < n),
{
    rank_asc_of(ages, i) < n
}

} // verus!
