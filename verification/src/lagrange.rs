//! Lagrange interpolation at zero in the pairing target group.
//!
//! Given evaluation points `x_j` (small nonzero integers, pairwise
//! distinct) and values `y_j` in the target group, the reconstruction is
//! `Π_j y_j ^ λ_j` with the Lagrange coefficients at zero
//! `λ_j = Π_{k≠j} x_k / (x_k − x_j)` computed in the scalar field. All
//! present pairs are used, so the result is a function of the pair
//! sequence alone: two parties holding the same pairs reconstruct the same
//! element.

use crate::curve::fr_from_u64;
use crate::curve::fr_from_u64_s;
use crate::curve::fr_inv;
use crate::curve::fr_inv_s;
use crate::curve::fr_mul;
use crate::curve::fr_mul_s;
use crate::curve::fr_sub;
use crate::curve::fr_sub_s;
use crate::curve::gt_mul;
use crate::curve::gt_mul_s;
use crate::curve::gt_pow;
use crate::curve::gt_pow_s;
use crate::curve::FrElem;
use crate::curve::GtElem;
use vstd::pervasive::unreached;
use vstd::prelude::*;

verus! {

/// Pairwise distinctness of the evaluation points.
pub open spec fn distinct_points_s(pairs: Seq<(u64, GtElem)>) -> bool {
    forall|i: int, j: int| 0 <= i < j < pairs.len() ==> pairs[i].0 != pairs[j].0
}

/// The partial product over the first `k` factors of the Lagrange
/// coefficient at zero for index `j`: factors `x_k · (x_k − x_j)⁻¹` for
/// every index other than `j`.
pub open spec fn lag_coeff_upto_s(pairs: Seq<(u64, GtElem)>, j: int, k: int) -> FrElem
    decreases k,
{
    if k <= 0 {
        fr_from_u64_s(1)
    } else if k - 1 == j {
        lag_coeff_upto_s(pairs, j, k - 1)
    } else {
        fr_mul_s(
            lag_coeff_upto_s(pairs, j, k - 1),
            fr_mul_s(
                fr_from_u64_s(pairs[k - 1].0),
                fr_inv_s(fr_sub_s(fr_from_u64_s(pairs[k - 1].0), fr_from_u64_s(pairs[j].0))),
            ),
        )
    }
}

/// The Lagrange coefficient at zero for index `j`.
pub open spec fn lag_coeff_s(pairs: Seq<(u64, GtElem)>, j: int) -> FrElem {
    lag_coeff_upto_s(pairs, j, pairs.len() as int)
}

/// The partial reconstruction product over the first `j` pairs.
pub open spec fn recon_upto_s(pairs: Seq<(u64, GtElem)>, j: int) -> GtElem
    decreases j,
{
    if j <= 1 {
        gt_pow_s(pairs[0].1, lag_coeff_s(pairs, 0))
    } else {
        gt_mul_s(recon_upto_s(pairs, j - 1), gt_pow_s(pairs[j - 1].1, lag_coeff_s(pairs, j - 1)))
    }
}

/// The value reconstructed from a nonempty sequence of pairs: the full
/// product of the powered values.
pub open spec fn reconstruct_s(pairs: Seq<(u64, GtElem)>) -> GtElem
    recommends
        pairs.len() >= 1,
{
    recon_upto_s(pairs, pairs.len() as int)
}

/// Computes the Lagrange coefficient at zero for index `j`.
fn lag_coeff(pairs: &Vec<(u64, GtElem)>, j: usize) -> (c: FrElem)
    requires
        j < pairs@.len(),
        distinct_points_s(pairs@),
    ensures
        c == lag_coeff_s(pairs@, j as int),
{
    let xj = fr_from_u64(pairs[j].0);
    let mut c = fr_from_u64(1);
    let mut k: usize = 0;
    while k < pairs.len()
        invariant
            j < pairs@.len(),
            distinct_points_s(pairs@),
            0 <= k <= pairs@.len(),
            xj == fr_from_u64_s(pairs@[j as int].0),
            forall|y: u64| y != pairs@[j as int].0 ==> xj != fr_from_u64_s(y),
            c == lag_coeff_upto_s(pairs@, j as int, k as int),
        decreases pairs@.len() - k,
    {
        if k != j {
            let xk = fr_from_u64(pairs[k].0);
            let d = fr_sub(&xk, &xj);
            proof {
                assert(pairs@[k as int].0 != pairs@[j as int].0);
                assert(xj != fr_from_u64_s(pairs@[k as int].0));
            }
            let di = match fr_inv(&d) {
                Some(x) => x,
                None => unreached(),
            };
            c = fr_mul(&c, &fr_mul(&xk, &di));
        }
        k = k + 1;
    }
    c
}

/// Reconstructs the shared target-group element from a nonempty sequence
/// of evaluation pairs with pairwise distinct points.
pub fn lagrange_interpolate_gt(pairs: &Vec<(u64, GtElem)>) -> (r: GtElem)
    requires
        pairs@.len() >= 1,
        distinct_points_s(pairs@),
    ensures
        r == reconstruct_s(pairs@),
{
    let c0 = lag_coeff(pairs, 0);
    let mut acc = gt_pow(&pairs[0].1, &c0);
    let mut j: usize = 1;
    while j < pairs.len()
        invariant
            1 <= j <= pairs@.len(),
            distinct_points_s(pairs@),
            acc == recon_upto_s(pairs@, j as int),
        decreases pairs@.len() - j,
    {
        let cj = lag_coeff(pairs, j);
        let p = gt_pow(&pairs[j].1, &cj);
        acc = gt_mul(&acc, &p);
        j = j + 1;
    }
    acc
}

} // verus!
