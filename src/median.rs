//! The lower median of a list of fitness values, found by counting.
use vstd::prelude::*;

verus! {

/// Number of the first `n` values below `x` (when `strict`) or at most `x`.
pub open spec fn count_to(f: Seq<u128>, x: u128, strict: bool, n: int) -> nat
    decreases n,
{
    if n <= 0 || n > f.len() {
        0
    } else {
        count_to(f, x, strict, n - 1) + if (strict && f[n - 1] < x) || (!strict && f[n - 1] <= x) {
            1nat
        } else {
            0nat
        }
    }
}

/// `x` is the lower median of `f`: a value of `f` with at most
/// `(len - 1) / 2` values below it and more than that at most it.
pub open spec fn is_lower_median(f: Seq<u128>, x: u128) -> bool {
    let k = (f.len() as int - 1) / 2;
    &&& f.contains(x)
    &&& count_to(f, x, true, f.len() as int) <= k
    &&& k < count_to(f, x, false, f.len() as int)
}

proof fn lemma_count_bound(f: Seq<u128>, x: u128, strict: bool, n: int)
    requires
        0 <= n <= f.len(),
    ensures
        count_to(f, x, strict, n) <= n,
    decreases n,
{
    if n > 0 {
        lemma_count_bound(f, x, strict, n - 1);
    }
}

proof fn lemma_count_all(f: Seq<u128>, x: u128, n: int)
    requires
        0 <= n <= f.len(),
        forall|j: int| 0 <= j < n ==> f[j] <= x,
    ensures
        count_to(f, x, false, n) == n,
    decreases n,
{
    if n > 0 {
        lemma_count_all(f, x, n - 1);
    }
}

proof fn lemma_count_same(f: Seq<u128>, y: u128, x: u128, n: int)
    requires
        0 <= n <= f.len(),
        forall|j: int| 0 <= j < n ==> (f[j] <= y <==> f[j] < x),
    ensures
        count_to(f, y, false, n) == count_to(f, x, true, n),
    decreases n,
{
    if n > 0 {
        lemma_count_same(f, y, x, n - 1);
    }
}

proof fn lemma_count_positive(f: Seq<u128>, x: u128, n: int)
    requires
        0 <= n <= f.len(),
        count_to(f, x, true, n) > 0,
    ensures
        exists|j: int| 0 <= j < n && f[j] < x,
    decreases n,
{
    if f[n - 1] >= x {
        lemma_count_positive(f, x, n - 1);
        let j = choose|j: int| 0 <= j < n - 1 && f[j] < x;
        assert(0 <= j < n && f[j] < x);
    } else {
        assert(0 <= n - 1 < n && f[n - 1] < x);
    }
}

/// Among the first `n` values, the largest one below `x`, if any is.
proof fn lemma_largest_below(f: Seq<u128>, x: u128, n: int) -> (j: int)
    requires
        0 <= n <= f.len(),
        exists|i: int| 0 <= i < n && f[i] < x,
    ensures
        0 <= j < n,
        f[j] < x,
        forall|i: int| 0 <= i < n && f[i] < x ==> f[i] <= f[j],
    decreases n,
{
    if exists|i: int| 0 <= i < n - 1 && f[i] < x {
        let j0 = lemma_largest_below(f, x, n - 1);
        if f[n - 1] < x && f[n - 1] > f[j0] {
            n - 1
        } else {
            j0
        }
    } else {
        assert(f[n - 1] < x);
        n - 1
    }
}

/// Among the first `n` values, the smallest `v` with more than `k` of all
/// values at most `v`, if any is.
proof fn lemma_smallest_heavy(f: Seq<u128>, k: int, n: int) -> (j: int)
    requires
        0 <= n <= f.len(),
        exists|i: int| 0 <= i < n && count_to(f, f[i], false, f.len() as int) > k,
    ensures
        0 <= j < n,
        count_to(f, f[j], false, f.len() as int) > k,
        forall|i: int| 0 <= i < n && count_to(f, f[i], false, f.len() as int) > k ==> f[j] <= f[i],
    decreases n,
{
    if exists|i: int| 0 <= i < n - 1 && count_to(f, f[i], false, f.len() as int) > k {
        let j0 = lemma_smallest_heavy(f, k, n - 1);
        if count_to(f, f[n - 1], false, f.len() as int) > k && f[n - 1] < f[j0] {
            n - 1
        } else {
            j0
        }
    } else {
        n - 1
    }
}

/// A largest value of the first `n`.
proof fn lemma_largest(f: Seq<u128>, n: int) -> (j: int)
    requires
        0 < n <= f.len(),
    ensures
        0 <= j < n,
        forall|i: int| 0 <= i < n ==> f[i] <= f[j],
    decreases n,
{
    if n == 1 {
        0
    } else {
        let j0 = lemma_largest(f, n - 1);
        if f[n - 1] > f[j0] {
            n - 1
        } else {
            j0
        }
    }
}

/// Every non-empty list has a lower median.
pub proof fn lemma_median_exists(f: Seq<u128>) -> (j: int)
    requires
        f.len() > 0,
    ensures
        0 <= j < f.len(),
        is_lower_median(f, f[j]),
{
    let n = f.len() as int;
    let k = (n - 1) / 2;
    let m = lemma_largest(f, n);
    lemma_count_all(f, f[m], n);
    let j = lemma_smallest_heavy(f, k, n);
    let x = f[j];
    if count_to(f, x, true, n) > k {
        lemma_count_positive(f, x, n);
        let y = lemma_largest_below(f, x, n);
        assert forall|i: int| 0 <= i < n implies (f[i] <= f[y] <==> f[i] < x) by {}
        lemma_count_same(f, f[y], x, n);
        assert(f[j] <= f[y]);
    }
    assert(f[j] == f[j]);
    assert(f.contains(x));
    j
}

/// Counts, among all values, those below `x` and those at most `x`.
fn counts(f: &Vec<u128>, x: u128) -> (r: (usize, usize))
    ensures
        r.0 == count_to(f@, x, true, f@.len() as int),
        r.1 == count_to(f@, x, false, f@.len() as int),
{
    let mut lt: usize = 0;
    let mut le: usize = 0;
    let mut i: usize = 0;
    while i < f.len()
        invariant
            i <= f@.len(),
            lt == count_to(f@, x, true, i as int),
            le == count_to(f@, x, false, i as int),
        decreases f@.len() - i,
    {
        proof {
            lemma_count_bound(f@, x, true, i as int);
            lemma_count_bound(f@, x, false, i as int);
        }
        if f[i] < x {
            lt = lt + 1;
        }
        if f[i] <= x {
            le = le + 1;
        }
        i = i + 1;
    }
    (lt, le)
}

/// The lower median of the values; zero for no values. Each candidate is
/// checked by counting, so the work grows with the square of the length.
pub fn lower_median(f: &Vec<u128>) -> (r: u128)
    ensures
        f@.len() == 0 ==> r == 0,
        f@.len() > 0 ==> is_lower_median(f@, r),
{
    if f.len() == 0 {
        return 0;
    }
    let k = (f.len() - 1) / 2;
    let ghost w = lemma_median_exists(f@);
    let mut j: usize = 0;
    while j < f.len()
        invariant
            f@.len() > 0,
            k == (f@.len() - 1) / 2,
            j <= f@.len(),
            0 <= w < f@.len(),
            is_lower_median(f@, f@[w]),
            forall|q: int| 0 <= q < j ==> !is_lower_median(f@, #[trigger] f@[q]),
        decreases f@.len() - j,
    {
        let (lt, le) = counts(f, f[j]);
        if lt <= k && k < le {
            assert(f@.contains(f@[j as int]));
            return f[j];
        }
        j = j + 1;
    }
    assert(!is_lower_median(f@, f@[w]));
    0
}

} // verus!
