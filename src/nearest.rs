//! Exact nearest-sample queries by Euclidean distance, first sample winning ties.

use vstd::prelude::*;
use crate::extract::Sample;

verus! {

/// Squared Euclidean distance from a sample to `(x, y)`; it orders samples as
/// the distance itself does.
pub open spec fn dist2(s: Sample, x: int, y: int) -> int {
    (s.x - x) * (s.x - x) + (s.y - y) * (s.y - y)
}

/// Position of the nearest of the first `n` samples, the earliest among equals.
pub open spec fn nearest_upto(s: Seq<Sample>, x: int, y: int, n: nat) -> nat
    decreases n,
{
    if n <= 1 {
        0
    } else {
        let k = nearest_upto(s, x, y, (n - 1) as nat);
        if dist2(s[n - 1], x, y) < dist2(s[k as int], x, y) {
            (n - 1) as nat
        } else {
            k
        }
    }
}

/// Position of the nearest sample of the whole sequence.
pub open spec fn nearest_index(s: Seq<Sample>, x: int, y: int) -> nat {
    nearest_upto(s, x, y, s.len())
}

/// `k` is a position of a sample no farther than any other, and strictly nearer
/// than every sample before it.
pub open spec fn is_first_nearest(s: Seq<Sample>, x: int, y: int, k: int) -> bool {
    &&& 0 <= k < s.len()
    &&& forall|j: int| 0 <= j < s.len() ==> dist2(s[k], x, y) <= #[trigger] dist2(s[j], x, y)
    &&& forall|j: int| 0 <= j < k ==> dist2(s[k], x, y) < #[trigger] dist2(s[j], x, y)
}

pub proof fn lemma_nearest_upto(s: Seq<Sample>, x: int, y: int, n: nat)
    requires
        1 <= n <= s.len(),
    ensures
        nearest_upto(s, x, y, n) < n,
        forall|j: int|
            0 <= j < n ==> dist2(s[nearest_upto(s, x, y, n) as int], x, y) <= #[trigger] dist2(
                s[j],
                x,
                y,
            ),
        forall|j: int|
            0 <= j < nearest_upto(s, x, y, n) ==> dist2(s[nearest_upto(s, x, y, n) as int], x, y)
                < #[trigger] dist2(s[j], x, y),
    decreases n,
{
    if n > 1 {
        lemma_nearest_upto(s, x, y, (n - 1) as nat);
    }
}

/// The nearest sample of a non-empty sequence is the first of the nearest ones.
pub proof fn lemma_nearest_index(s: Seq<Sample>, x: int, y: int)
    requires
        s.len() > 0,
    ensures
        is_first_nearest(s, x, y, nearest_index(s, x, y) as int),
{
    lemma_nearest_upto(s, x, y, s.len());
}

fn distance_squared(s: Sample, x: u32, y: u32) -> (r: u128)
    ensures
        r == dist2(s, x as int, y as int),
{
    let dx: u64 = if s.x >= x {
        (s.x - x) as u64
    } else {
        (x - s.x) as u64
    };
    let dy: u64 = if s.y >= y {
        (s.y - y) as u64
    } else {
        (y - s.y) as u64
    };
    let ghost ex: int = s.x - x;
    let ghost ey: int = s.y - y;
    proof {
        assert(dx * dx == ex * ex) by (nonlinear_arith)
            requires
                dx == ex || dx == -ex,
        ;
        assert(dy * dy == ey * ey) by (nonlinear_arith)
            requires
                dy == ey || dy == -ey,
        ;
        assert(dx * dx <= u32::MAX as int * u32::MAX as int) by (nonlinear_arith)
            requires
                dx <= u32::MAX,
        ;
        assert(dy * dy <= u32::MAX as int * u32::MAX as int) by (nonlinear_arith)
            requires
                dy <= u32::MAX,
        ;
    }
    let dx2: u128 = dx as u128 * dx as u128;
    let dy2: u128 = dy as u128 * dy as u128;
    dx2 + dy2
}

/// Position of the sample nearest to `(x, y)`, the earliest among equally near
/// ones; `None` exactly when there is no sample.
pub fn nearest_sample(samples: &Vec<Sample>, x: u32, y: u32) -> (r: Option<usize>)
    ensures
        r is None <==> samples@.len() == 0,
        r is Some ==> r->0 == nearest_index(samples@, x as int, y as int),
        r is Some ==> is_first_nearest(samples@, x as int, y as int, r->0 as int),
{
    let n: usize = samples.len();
    if n == 0 {
        return None;
    }
    let mut best: usize = 0;
    let mut best_d: u128 = distance_squared(samples[0], x, y);
    let mut i: usize = 1;
    while i < n
        invariant
            n == samples@.len(),
            1 <= i <= n,
            best == nearest_upto(samples@, x as int, y as int, i as nat),
            best < i,
            best_d == dist2(samples@[best as int], x as int, y as int),
        decreases n - i,
    {
        proof {
            lemma_nearest_upto(samples@, x as int, y as int, i as nat);
        }
        let d: u128 = distance_squared(samples[i], x, y);
        if d < best_d {
            best = i;
            best_d = d;
        }
        i += 1;
    }
    proof {
        lemma_nearest_index(samples@, x as int, y as int);
    }
    Some(best)
}

} // verus!
