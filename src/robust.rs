//! Robust primitives: sorting, median, median absolute deviation and
//! Huber's psi function.
use vstd::prelude::*;
use vstd::relations::{sorted_by, total_ordering};
use vstd::seq_lib::group_to_multiset_ensures;
use crate::error::CalculationError;
use crate::fixed::{abs, all_valid, valid_value, MAX_MAGNITUDE};

verus! {

/// The natural order of quantities.
pub open spec fn value_order() -> spec_fn(i64, i64) -> bool {
    |a: i64, b: i64| a <= b
}

/// `s` in ascending order.
pub open spec fn sorted_values(s: Seq<i64>) -> Seq<i64> {
    s.sort_by(value_order())
}

/// The median of a non-empty sequence: the middle element of its sorted
/// order, or the mean (rounded down) of the two central elements.
pub open spec fn median_of(s: Seq<i64>) -> int
    recommends
        s.len() > 0,
{
    let t = sorted_values(s);
    let n = s.len() as int;
    if n % 2 == 1 {
        t[n / 2] as int
    } else {
        (t[n / 2 - 1] + t[n / 2]) / 2
    }
}

/// The absolute deviations of `s` from `center`.
pub open spec fn abs_deviations(s: Seq<i64>, center: int) -> Seq<i64> {
    s.map_values(|x: i64| abs(x - center) as i64)
}

/// Sum of `f` over the elements of `s`.
pub open spec fn sum_by(s: Seq<i64>, f: spec_fn(i64) -> int) -> int
    decreases s.len(),
{
    if s.len() == 0 {
        0
    } else {
        sum_by(s.drop_last(), f) + f(s.last())
    }
}

/// Huber's psi: `x` itself within `[-c, c]`, else `c` with the sign of `x`.
pub open spec fn psi(x: int, c: int) -> int {
    if abs(x) <= c {
        x
    } else if x > 0 {
        c
    } else {
        -c
    }
}

proof fn lemma_value_order_total()
    ensures
        total_ordering(value_order()),
{
}

/// Sorting keeps the elements and puts them in ascending order.
pub proof fn lemma_sorted_values(s: Seq<i64>)
    ensures
        sorted_by(sorted_values(s), value_order()),
        sorted_values(s).to_multiset() == s.to_multiset(),
        sorted_values(s).len() == s.len(),
        forall|i: int|
            0 <= i < s.len() ==> s.contains(#[trigger] sorted_values(s)[i]),
{
    broadcast use group_to_multiset_ensures;

    lemma_value_order_total();
    s.lemma_sort_by_ensures(value_order());
    let t = sorted_values(s);
    assert(t.to_multiset().len() == t.len());
    assert forall|i: int| 0 <= i < s.len() implies s.contains(#[trigger] t[i]) by {
        assert(t.contains(t[i]));
        assert(t.to_multiset().count(t[i]) > 0);
    }
}

/// Removing one element takes its term out of the sum.
proof fn lemma_sum_by_remove(s: Seq<i64>, j: int, f: spec_fn(i64) -> int)
    requires
        0 <= j < s.len(),
    ensures
        sum_by(s, f) == sum_by(s.remove(j), f) + f(s[j]),
    decreases s.len(),
{
    if j == s.len() - 1 {
        assert(s.remove(j) =~= s.drop_last());
    } else {
        let t = s.drop_last();
        lemma_sum_by_remove(t, j, f);
        assert(t.remove(j) =~= s.remove(j).drop_last());
        assert(s.remove(j).last() == s.last());
    }
}

/// Two sequences with the same elements: `b` holds the last element of
/// `a` at some index, and dropping both leaves the same elements again.
proof fn lemma_permutation_step(a: Seq<i64>, b: Seq<i64>) -> (j: int)
    requires
        a.len() > 0,
        a.to_multiset() == b.to_multiset(),
    ensures
        0 <= j < b.len(),
        b[j] == a.last(),
        a.drop_last().to_multiset() == b.remove(j).to_multiset(),
{
    broadcast use group_to_multiset_ensures, vstd::multiset::group_multiset_axioms;

    let x = a.last();
    assert(a.drop_last().push(x) =~= a);
    assert(a.contains(x));
    assert(b.to_multiset().count(x) > 0);
    assert(b.contains(x));
    let j = choose|j: int| 0 <= j < b.len() && b[j] == x;
    assert(a.drop_last().to_multiset() =~= a.to_multiset().remove(x));
    assert(b.remove(j).to_multiset() =~= b.to_multiset().remove(x));
    j
}

/// A sum over a sequence depends on its elements only, not on their order.
pub proof fn lemma_sum_by_permutation(a: Seq<i64>, b: Seq<i64>, f: spec_fn(i64) -> int)
    requires
        a.to_multiset() == b.to_multiset(),
    ensures
        sum_by(a, f) == sum_by(b, f),
    decreases a.len(),
{
    broadcast use group_to_multiset_ensures;

    if a.len() == 0 {
        assert(b.to_multiset().len() == 0);
    } else {
        let j = lemma_permutation_step(a, b);
        lemma_sum_by_permutation(a.drop_last(), b.remove(j), f);
        lemma_sum_by_remove(b, j, f);
    }
}

/// The median depends on the elements only, not on their order.
pub proof fn lemma_median_permutation(a: Seq<i64>, b: Seq<i64>)
    requires
        a.to_multiset() == b.to_multiset(),
    ensures
        median_of(a) == median_of(b),
{
    lemma_value_order_total();
    lemma_sorted_values(a);
    lemma_sorted_values(b);
    vstd::seq_lib::lemma_sorted_unique(sorted_values(a), sorted_values(b), value_order());
}

/// Absolute deviations of two orderings of the same elements are again
/// two orderings of the same elements.
pub proof fn lemma_abs_deviations_permutation(a: Seq<i64>, b: Seq<i64>, center: int)
    requires
        a.to_multiset() == b.to_multiset(),
    ensures
        abs_deviations(a, center).to_multiset() == abs_deviations(b, center).to_multiset(),
    decreases a.len(),
{
    broadcast use group_to_multiset_ensures, vstd::multiset::group_multiset_axioms;

    if a.len() == 0 {
        assert(b.to_multiset().len() == 0);
        assert(abs_deviations(a, center) =~= abs_deviations(b, center));
    } else {
        let j = lemma_permutation_step(a, b);
        let x = a.last();
        lemma_abs_deviations_permutation(a.drop_last(), b.remove(j), center);
        let da = abs_deviations(a, center);
        let db = abs_deviations(b, center);
        let y = abs(x - center) as i64;
        assert(da =~= abs_deviations(a.drop_last(), center).push(y));
        assert(abs_deviations(b.remove(j), center) =~= db.remove(j));
        assert(db[j] == y);
        assert(db.contains(y));
        assert(db.to_multiset().count(y) > 0);
        assert(db.remove(j).to_multiset() == db.to_multiset().remove(y));
        assert(db.to_multiset() =~= db.to_multiset().remove(y).insert(y));
    }
}

/// Returns a copy of `data` in ascending order.
pub fn sorted_copy(data: &[i64]) -> (r: Vec<i64>)
    ensures
        r@ == sorted_values(data@),
{
    broadcast use group_to_multiset_ensures;

    let mut v: Vec<i64> = Vec::new();
    let mut i: usize = 0;
    while i < data.len()
        invariant
            i <= data.len(),
            v@.len() == i,
            sorted_by(v@, value_order()),
            v@.to_multiset() == data@.subrange(0, i as int).to_multiset(),
        decreases data.len() - i,
    {
        let x = data[i];
        let mut j: usize = 0;
        while j < v.len() && v[j] <= x
            invariant
                j <= v@.len(),
                forall|k: int| 0 <= k < j ==> v@[k] <= x,
            decreases v@.len() - j,
        {
            j = j + 1;
        }
        let ghost before = v@;
        v.insert(j, x);
        assert(sorted_by(v@, value_order())) by {
            assert forall|a: int, b: int| 0 <= a < b < v@.len() implies #[trigger] (value_order())(
                v@[a],
                v@[b],
            ) by {
                if b < j {
                } else if a < j && b == j {
                } else if a < j {
                    assert(before[a] <= before[b - 1]) by {
                        assert((value_order())(before[a], before[b - 1]));
                    }
                } else if a == j {
                    assert(before[j as int] > x);
                    if b - 1 > j {
                        assert((value_order())(before[j as int], before[b - 1]));
                    }
                } else {
                    assert((value_order())(before[a - 1], before[b - 1]));
                }
            }
        }
        assert(v@ == before.insert(j as int, x));
        assert(data@.subrange(0, i + 1) == data@.subrange(0, i as int).push(x));
        proof {
            vstd::seq_lib::to_multiset_insert(before, j as int, x);
            vstd::seq_lib::to_multiset_build(data@.subrange(0, i as int), x);
        }
        i = i + 1;
    }
    assert(data@.subrange(0, data.len() as int) == data@);
    proof {
        lemma_value_order_total();
        lemma_sorted_values(data@);
        vstd::seq_lib::lemma_sorted_unique(v@, sorted_values(data@), value_order());
    }
    v
}

/// The median of `data`, or `None` when it is empty. `data` is not changed.
pub fn median(data: &[i64]) -> (r: Option<i64>)
    ensures
        data@.len() == 0 <==> r is None,
        r matches Some(m) ==> m as int == median_of(data@),
{
    if data.len() == 0 {
        return None;
    }
    let sorted = sorted_copy(data);
    proof {
        lemma_sorted_values(data@);
    }
    let len = sorted.len();
    if len % 2 == 0 {
        let a = sorted[len / 2 - 1];
        let b = sorted[len / 2];
        assert((value_order())(sorted@[(len / 2 - 1) as int], sorted@[(len / 2) as int]));
        let half: i128 = (b as i128 - a as i128) / 2;
        let m: i128 = a as i128 + half;
        assert(m == (a + b) / 2);
        Some(m as i64)
    } else {
        Some(sorted[len / 2])
    }
}

/// The median of values that all lie in `[lo, hi]` lies there too.
pub proof fn lemma_median_within(s: Seq<i64>, lo: int, hi: int)
    requires
        s.len() > 0,
        forall|i: int| 0 <= i < s.len() ==> lo <= #[trigger] s[i] <= hi,
    ensures
        lo <= median_of(s) <= hi,
{
    lemma_sorted_values(s);
    let t = sorted_values(s);
    let n = s.len() as int;
    assert(s.contains(t[n / 2]));
    if n % 2 == 0 {
        assert(s.contains(t[n / 2 - 1]));
    }
}

/// The median of valid quantities is valid.
pub proof fn lemma_median_valid(s: Seq<i64>)
    requires
        s.len() > 0,
        all_valid(s),
    ensures
        valid_value(median_of(s)),
{
    lemma_median_within(s, -MAX_MAGNITUDE as int, MAX_MAGNITUDE as int);
}

/// The median absolute deviation of `data` about `median_value`.
pub fn mad(data: &[i64], median_value: i64) -> (r: Result<i64, CalculationError>)
    requires
        all_valid(data@),
        valid_value(median_value as int),
    ensures
        data@.len() == 0 <==> r is Err,
        r matches Err(e) ==> e matches CalculationError::InsufficientData { required, actual }
            && required == 1 && actual == 0,
        r matches Ok(m) ==> m as int == median_of(abs_deviations(data@, median_value as int)),
{
    if data.len() == 0 {
        return Err(CalculationError::InsufficientData { required: 1, actual: 0 });
    }
    let mut devs: Vec<i64> = Vec::new();
    let mut i: usize = 0;
    while i < data.len()
        invariant
            i <= data.len(),
            all_valid(data@),
            valid_value(median_value as int),
            devs@ == abs_deviations(data@.subrange(0, i as int), median_value as int),
        decreases data.len() - i,
    {
        let x = data[i];
        let d: i64 = if x >= median_value {
            x - median_value
        } else {
            median_value - x
        };
        assert(data@.subrange(0, i + 1) == data@.subrange(0, i as int).push(x));
        devs.push(d);
        i = i + 1;
        assert(devs@ =~= abs_deviations(data@.subrange(0, i as int), median_value as int));
    }
    assert(data@.subrange(0, data.len() as int) == data@);
    match median(&devs) {
        Some(m) => Ok(m),
        None => Err(CalculationError::InternalError {
            message: "median of absolute deviations is undefined".to_string(),
        }),
    }
}

/// Huber's psi function with tuning constant `c`.
pub fn huber_psi(x: i128, c: i128) -> (r: i128)
    requires
        c >= 0,
        x > i128::MIN,
    ensures
        r == psi(x as int, c as int),
{
    let ax: i128 = if x < 0 { -x } else { x };
    if ax <= c {
        x
    } else if x > 0 {
        c
    } else {
        -c
    }
}

} // verus!
