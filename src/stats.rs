//! Per-channel descriptive statistics: extrema, sum, upper median and the
//! summed absolute deviation from that median.
use vstd::prelude::*;
use vstd::seq_lib::*;

use crate::error::ImageError;

verus! {

/// Number of elements of `s` that satisfy `p`.
pub open spec fn count_where(s: Seq<i32>, p: spec_fn(i32) -> bool) -> nat
    decreases s.len(),
{
    if s.len() == 0 {
        0
    } else {
        count_where(s.drop_last(), p) + (if p(s.last()) {
            1nat
        } else {
            0nat
        })
    }
}

/// Number of elements strictly below `m`.
pub open spec fn count_below(s: Seq<i32>, m: int) -> nat {
    count_where(s, |x: i32| x < m)
}

/// Number of elements at most `m`.
pub open spec fn count_at_most(s: Seq<i32>, m: int) -> nat {
    count_where(s, |x: i32| x <= m)
}

/// `m` is the element of rank `s.len() / 2` (0-based) in ascending order:
/// the upper median for even lengths.
pub open spec fn is_upper_median(s: Seq<i32>, m: int) -> bool {
    count_below(s, m) <= s.len() / 2 < count_at_most(s, m)
}

pub open spec fn seq_sum(s: Seq<i32>) -> int
    decreases s.len(),
{
    if s.len() == 0 {
        0
    } else {
        seq_sum(s.drop_last()) + s.last()
    }
}

pub open spec fn abs(x: int) -> int {
    if x < 0 {
        -x
    } else {
        x
    }
}

/// Sum of `|x - m|` over the elements `x` of `s`.
pub open spec fn abs_dev_sum(s: Seq<i32>, m: int) -> int
    decreases s.len(),
{
    if s.len() == 0 {
        0
    } else {
        abs_dev_sum(s.drop_last(), m) + abs(s.last() - m)
    }
}

pub open spec fn is_min(s: Seq<i32>, m: int) -> bool {
    &&& exists|i: int| 0 <= i < s.len() && s[i] == m
    &&& forall|i: int| 0 <= i < s.len() ==> m <= s[i]
}

pub open spec fn is_max(s: Seq<i32>, m: int) -> bool {
    &&& exists|i: int| 0 <= i < s.len() && s[i] == m
    &&& forall|i: int| 0 <= i < s.len() ==> s[i] <= m
}

/// Statistics of one channel. The mean is `sum / count` and the mean
/// absolute deviation `abs_dev_sum / count`, both held exactly.
#[derive(Clone, Copy, Debug, PartialEq, Eq)]
pub struct Stat {
    pub min: i32,
    pub max: i32,
    pub median: i32,
    pub sum: i128,
    pub abs_dev_sum: u128,
    pub count: usize,
}

impl Stat {
    /// `self` holds exactly the statistics of the non-empty sample list `s`.
    pub open spec fn describes(self, s: Seq<i32>) -> bool {
        &&& s.len() > 0
        &&& self.count == s.len()
        &&& is_min(s, self.min as int)
        &&& is_max(s, self.max as int)
        &&& is_upper_median(s, self.median as int)
        &&& self.sum == seq_sum(s)
        &&& self.abs_dev_sum == abs_dev_sum(s, self.median as int)
    }
}

// ---- counting lemmas ----
proof fn lemma_count_concat(a: Seq<i32>, b: Seq<i32>, p: spec_fn(i32) -> bool)
    ensures
        count_where(a + b, p) == count_where(a, p) + count_where(b, p),
    decreases b.len(),
{
    if b.len() == 0 {
        assert(a + b =~= a);
    } else {
        assert((a + b).drop_last() =~= a + b.drop_last());
        lemma_count_concat(a, b.drop_last(), p);
    }
}

proof fn lemma_count_bounds(s: Seq<i32>, p: spec_fn(i32) -> bool)
    ensures
        count_where(s, p) <= s.len(),
        (forall|i: int| 0 <= i < s.len() ==> !p(#[trigger] s[i])) ==> count_where(s, p) == 0,
        (forall|i: int| 0 <= i < s.len() ==> p(#[trigger] s[i])) ==> count_where(s, p) == s.len(),
    decreases s.len(),
{
    if s.len() > 0 {
        lemma_count_bounds(s.drop_last(), p);
        if forall|i: int| 0 <= i < s.len() ==> !p(#[trigger] s[i]) {
            assert forall|i: int| 0 <= i < s.drop_last().len() implies !p(
                #[trigger] s.drop_last()[i],
            ) by {
                assert(s.drop_last()[i] == s[i]);
            }
            assert(!p(s[s.len() - 1]));
        }
        if forall|i: int| 0 <= i < s.len() ==> p(#[trigger] s[i]) {
            assert forall|i: int| 0 <= i < s.drop_last().len() implies p(
                #[trigger] s.drop_last()[i],
            ) by {
                assert(s.drop_last()[i] == s[i]);
            }
            assert(p(s[s.len() - 1]));
        }
    }
}

proof fn lemma_count_monotone(s: Seq<i32>, p: spec_fn(i32) -> bool, q: spec_fn(i32) -> bool)
    requires
        forall|x: i32| #[trigger] p(x) ==> q(x),
    ensures
        count_where(s, p) <= count_where(s, q),
    decreases s.len(),
{
    if s.len() > 0 {
        lemma_count_monotone(s.drop_last(), p, q);
    }
}

/// Counting is blind to order.
proof fn lemma_count_permutation(a: Seq<i32>, b: Seq<i32>, p: spec_fn(i32) -> bool)
    requires
        a.to_multiset() == b.to_multiset(),
    ensures
        count_where(a, p) == count_where(b, p),
    decreases a.len(),
{
    a.to_multiset_ensures();
    b.to_multiset_ensures();
    assert(a.len() == b.len());
    if a.len() > 0 {
        let x = a.last();
        assert(a.contains(x)) by {
            assert(a[a.len() - 1] == x);
        }
        assert(a.to_multiset().count(x) > 0);
        assert(b.to_multiset().count(x) > 0);
        assert(b.contains(x));
        let i = choose|i: int| 0 <= i < b.len() && b[i] == x;
        let a2 = a.drop_last();
        let b2 = b.remove(i);
        assert(a2 =~= a.remove(a.len() - 1));
        assert(a2.to_multiset() == b2.to_multiset());
        lemma_count_permutation(a2, b2, p);
        let left = b.subrange(0, i);
        let right = b.subrange(i + 1, b.len() as int);
        let one = seq![x];
        assert(b2 =~= left + right);
        assert(b =~= left + (one + right));
        lemma_count_concat(left, right, p);
        lemma_count_concat(left, one + right, p);
        lemma_count_concat(one, right, p);
        assert(one.drop_last() =~= Seq::<i32>::empty());
        assert(count_where(Seq::<i32>::empty(), p) == 0);
        assert(one.last() == x);
        assert(count_where(one, p) == if p(x) {
            1nat
        } else {
            0nat
        });
    }
}

/// The upper median is unique.
pub proof fn lemma_upper_median_unique(s: Seq<i32>, m1: int, m2: int)
    requires
        is_upper_median(s, m1),
        is_upper_median(s, m2),
    ensures
        m1 == m2,
{
    if m1 < m2 {
        lemma_count_monotone(s, |x: i32| x <= m1, |x: i32| x < m2);
    } else if m2 < m1 {
        lemma_count_monotone(s, |x: i32| x <= m2, |x: i32| x < m1);
    }
}

/// A sequence partitioned around position `k` has its rank-`k` element there.
proof fn lemma_partition_rank(v: Seq<i32>, k: int)
    requires
        0 <= k < v.len(),
        forall|i: int| 0 <= i < k ==> v[i] <= v[k],
        forall|j: int| k < j < v.len() ==> v[j] >= v[k],
    ensures
        count_below(v, v[k] as int) <= k < count_at_most(v, v[k] as int),
{
    let m = v[k] as int;
    let lt = |x: i32| x < m;
    let le = |x: i32| x <= m;
    let pre = v.subrange(0, k);
    let mid = seq![v[k]];
    let post = v.subrange(k + 1, v.len() as int);
    assert(v =~= pre + (mid + post));
    lemma_count_concat(pre, mid + post, lt);
    lemma_count_concat(mid, post, lt);
    lemma_count_concat(pre, mid + post, le);
    lemma_count_concat(mid, post, le);
    lemma_count_bounds(pre, lt);
    assert forall|i: int| 0 <= i < pre.len() implies le(#[trigger] pre[i]) by {
        assert(pre[i] == v[i]);
    }
    lemma_count_bounds(pre, le);
    assert forall|i: int| 0 <= i < post.len() implies !lt(#[trigger] post[i]) by {
        assert(post[i] == v[k + 1 + i]);
    }
    lemma_count_bounds(post, lt);
    lemma_count_bounds(post, le);
    assert(mid.drop_last() =~= Seq::<i32>::empty());
    assert(count_where(Seq::<i32>::empty(), lt) == 0);
    assert(count_where(Seq::<i32>::empty(), le) == 0);
    assert(mid.last() == v[k]);
    assert(count_where(mid, lt) == 0);
    assert(count_where(mid, le) == 1);
    assert(count_where(v, lt) <= k);
    assert(count_where(v, le) >= k + 1);
}

/// Relies on `slice::select_nth_unstable`: it reorders the slice so that no
/// element before position `k` is greater, and none after it smaller, than
/// the element it leaves at `k`. It panics when `k` is out of bounds.
#[verifier::external_body]
fn select_nth(v: &mut Vec<i32>, k: usize)
    requires
        k < old(v)@.len(),
    ensures
        final(v)@.to_multiset() == old(v)@.to_multiset(),
        final(v)@.len() == old(v)@.len(),
        forall|i: int| 0 <= i < k ==> final(v)@[i] <= final(v)@[k as int],
        forall|j: int| k < j < final(v)@.len() ==> final(v)@[j] >= final(v)@[k as int],
{
    v.select_nth_unstable(k);
}

/// The element of rank `len / 2` in ascending order (the upper median for
/// even lengths); an error on an empty list.
pub fn median(data: &[i32]) -> (r: Result<i32, ImageError>)
    ensures
        data@.len() == 0 <==> r is Err,
        r matches Err(e) ==> e == ImageError::Statistics,
        r matches Ok(m) ==> is_upper_median(data@, m as int),
{
    let len = data.len();
    if len == 0 {
        return Err(ImageError::Statistics);
    }
    let mid = len / 2;
    let mut v: Vec<i32> = Vec::with_capacity(len);
    let mut j: usize = 0;
    while j < len
        invariant
            len == data@.len(),
            j <= len,
            v@ == data@.subrange(0, j as int),
        decreases len - j,
    {
        v.push(data[j]);
        j = j + 1;
    }
    assert(v@ =~= data@);
    let ghost before = v@;
    select_nth(&mut v, mid);
    let m = v[mid];
    proof {
        lemma_partition_rank(v@, mid as int);
        lemma_count_permutation(v@, before, |x: i32| x < m);
        lemma_count_permutation(v@, before, |x: i32| x <= m);
        assert(before == data@);
    }
    Ok(m)
}

/// Statistics of one channel's samples; an error on an empty list.
pub fn calc_channel_stats(data: &[i32]) -> (r: Result<Stat, ImageError>)
    ensures
        data@.len() == 0 <==> r is Err,
        r matches Err(e) ==> e == ImageError::Statistics,
        r matches Ok(st) ==> st.describes(data@),
{
    let median_val = match median(data) {
        Ok(m) => m,
        Err(e) => {
            return Err(e);
        },
    };
    let len = data.len();
    let mut min_val: i32 = data[0];
    let mut max_val: i32 = data[0];
    let mut sum: i128 = 0;
    let mut dev: u128 = 0;
    let mut i: usize = 0;
    while i < len
        invariant
            len == data@.len(),
            0 < len,
            0 <= i <= len,
            exists|j: int| 0 <= j < len && data@[j] == min_val,
            exists|j: int| 0 <= j < len && data@[j] == max_val,
            forall|j: int| 0 <= j < i ==> min_val <= #[trigger] data@[j] <= max_val,
            sum == seq_sum(data@.subrange(0, i as int)),
            dev == abs_dev_sum(data@.subrange(0, i as int), median_val as int),
            -0x8000_0000 * i <= sum <= 0x7fff_ffff * i,
            dev <= 0xffff_ffff * i,
        decreases len - i,
    {
        let v = data[i];
        if v < min_val {
            min_val = v;
        }
        if v > max_val {
            max_val = v;
        }
        proof {
            let s = data@.subrange(0, i as int + 1);
            assert(s.drop_last() =~= data@.subrange(0, i as int));
        }
        sum = sum + v as i128;
        let d: u128 = if v >= median_val {
            (v as i64 - median_val as i64) as u128
        } else {
            (median_val as i64 - v as i64) as u128
        };
        dev = dev + d;
        i = i + 1;
    }
    proof {
        assert(data@.subrange(0, len as int) =~= data@);
    }
    Ok(Stat { min: min_val, max: max_val, median: median_val, sum, abs_dev_sum: dev, count: len })
}

/// A constant channel has that constant as its median and no deviation.
pub proof fn lemma_constant_channel(s: Seq<i32>, c: i32, m: int)
    requires
        s.len() > 0,
        forall|i: int| 0 <= i < s.len() ==> s[i] == c,
        is_upper_median(s, m),
    ensures
        m == c,
        abs_dev_sum(s, m) == 0,
{
    if m < c {
        assert forall|i: int| 0 <= i < s.len() implies !((|x: i32| x <= m)(#[trigger] s[i])) by {}
        lemma_count_bounds(s, |x: i32| x <= m);
    } else if m > c {
        assert forall|i: int| 0 <= i < s.len() implies (|x: i32| x < m)(#[trigger] s[i]) by {}
        lemma_count_bounds(s, |x: i32| x < m);
    }
    lemma_abs_dev_constant(s, c);
}

proof fn lemma_abs_dev_constant(s: Seq<i32>, c: i32)
    requires
        forall|i: int| 0 <= i < s.len() ==> s[i] == c,
    ensures
        abs_dev_sum(s, c as int) == 0,
    decreases s.len(),
{
    if s.len() > 0 {
        lemma_abs_dev_constant(s.drop_last(), c);
    }
}

} // verus!
