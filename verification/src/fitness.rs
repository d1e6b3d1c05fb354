//! Fitness evaluation: the mean squared error of a candidate polynomial
//! against the observed point set. Pure and deterministic; lower is better.

use vstd::prelude::*;
use crate::fx::{fx_add, fx_add_spec, fx_div_count, fx_mul, fx_mul_spec, fx_sub, fx_sub_spec,
    scale_down, FX_ONE};
use crate::GaError;

verus! {

/// One observed sample: fixed-point coordinates of a target point.
#[derive(Clone, Copy, Debug, PartialEq, Eq, Structural)]
pub struct Point {
    pub x: i64,
    pub y: i64,
}

/// Fixed-point power: `x` raised to `k`, one saturating multiplication per
/// step, exactly as the evaluator accumulates it.
pub open spec fn fx_pow_spec(x: int, k: nat) -> int
    decreases k,
{
    if k == 0 {
        FX_ONE as int
    } else {
        fx_mul_spec(fx_pow_spec(x, (k - 1) as nat), x)
    }
}

/// Value of the polynomial whose first `k` coefficients are taken from `c`,
/// at the point `x`: sum of `c[j] * x^j` in fixed-point arithmetic.
pub open spec fn predicted_prefix(c: Seq<i64>, x: int, k: nat) -> int
    decreases k,
{
    if k == 0 {
        0
    } else {
        fx_add_spec(
            predicted_prefix(c, x, (k - 1) as nat),
            fx_mul_spec(c[k - 1] as int, fx_pow_spec(x, (k - 1) as nat)),
        )
    }
}

/// Predicted value of the full chromosome `c` at `x`; gene `j` is the
/// coefficient of `x^j`.
pub open spec fn predicted_spec(c: Seq<i64>, x: int) -> int {
    predicted_prefix(c, x, c.len())
}

/// Squared deviation of the prediction from one observed point.
pub open spec fn sq_err_spec(c: Seq<i64>, p: Point) -> int {
    fx_mul_spec(
        fx_sub_spec(predicted_spec(c, p.x as int), p.y as int),
        fx_sub_spec(predicted_spec(c, p.x as int), p.y as int),
    )
}

/// Sum of squared deviations over the first `k` points.
pub open spec fn err_sum_prefix(c: Seq<i64>, pts: Seq<Point>, k: nat) -> int
    decreases k,
{
    if k == 0 {
        0
    } else {
        fx_add_spec(err_sum_prefix(c, pts, (k - 1) as nat), sq_err_spec(c, pts[k - 1]))
    }
}

/// Mean squared error of chromosome `c` against the point set `pts`
/// (zero, by convention, for an empty set, which the evaluator rejects).
pub open spec fn mse_spec(c: Seq<i64>, pts: Seq<Point>) -> int {
    if pts.len() == 0 {
        0
    } else {
        err_sum_prefix(c, pts, pts.len()) / pts.len() as int
    }
}

/// Evaluate the polynomial `c` at `x` in fixed-point arithmetic.
pub fn predicted(c: &Vec<i64>, x: i64) -> (r: i64)
    ensures
        r as int == predicted_spec(c@, x as int),
{
    let mut acc: i64 = 0;
    let mut pw: i64 = FX_ONE;
    let mut j: usize = 0;
    while j < c.len()
        invariant
            j <= c@.len(),
            acc as int == predicted_prefix(c@, x as int, j as nat),
            pw as int == fx_pow_spec(x as int, j as nat),
        decreases c@.len() - j,
    {
        let term = fx_mul(c[j], pw);
        acc = fx_add(acc, term);
        pw = fx_mul(pw, x);
        j += 1;
    }
    acc
}

proof fn lemma_sq_nonneg(d: int)
    requires
        i64::MIN as int <= d <= i64::MAX as int,
    ensures
        fx_mul_spec(d, d) >= 0,
{
    assert(d * d >= 0) by (nonlinear_arith);
    assert(scale_down(d * d) == (d * d) / (FX_ONE as int));
    assert((d * d) / (FX_ONE as int) >= 0) by {
        vstd::arithmetic::div_mod::lemma_div_is_ordered(0, d * d, FX_ONE as int);
    }
}

/// Mean squared error against a point set known to be non-empty.
pub fn mse_nonempty(c: &Vec<i64>, pts: &Vec<Point>) -> (r: i64)
    requires
        pts@.len() >= 1,
    ensures
        r as int == mse_spec(c@, pts@),
        r >= 0,
{
    let mut sum: i64 = 0;
    let mut k: usize = 0;
    while k < pts.len()
        invariant
            k <= pts@.len(),
            sum as int == err_sum_prefix(c@, pts@, k as nat),
            sum >= 0,
        decreases pts@.len() - k,
    {
        let p = pts[k];
        let pred = predicted(c, p.x);
        let d = fx_sub(pred, p.y);
        let sq = fx_mul(d, d);
        proof {
            lemma_sq_nonneg(d as int);
        }
        sum = fx_add(sum, sq);
        k += 1;
    }
    let n: u64 = pts.len() as u64;
    let r = fx_div_count(sum, n);
    proof {
        vstd::arithmetic::div_mod::lemma_div_is_ordered(0, sum as int, pts@.len() as int);
    }
    r
}

/// Mean squared error of `c` against `pts`; fails exactly when the point set
/// is empty.
pub fn mse(c: &Vec<i64>, pts: &Vec<Point>) -> (r: Result<i64, GaError>)
    ensures
        r is Err <==> pts@.len() == 0,
        r matches Err(e) ==> e == GaError::EmptyPointSet,
        r matches Ok(v) ==> v as int == mse_spec(c@, pts@) && v >= 0,
{
    if pts.len() == 0 {
        Err(GaError::EmptyPointSet)
    } else {
        Ok(mse_nonempty(c, pts))
    }
}

/// A chromosome that predicts every observed point exactly has zero mean
/// squared error.
pub proof fn lemma_perfect_fit_zero_mse(c: Seq<i64>, pts: Seq<Point>)
    requires
        pts.len() > 0,
        forall|i: int| 0 <= i < pts.len() ==> pts[i].y as int == predicted_spec(c, pts[i].x as int),
    ensures
        mse_spec(c, pts) == 0,
{
    lemma_perfect_fit_zero_sum(c, pts, pts.len());
    assert(err_sum_prefix(c, pts, pts.len()) / pts.len() as int == 0) by {
        vstd::arithmetic::div_mod::lemma_div_basics(pts.len() as int);
    }
}

proof fn lemma_perfect_fit_zero_sum(c: Seq<i64>, pts: Seq<Point>, k: nat)
    requires
        k <= pts.len(),
        forall|i: int| 0 <= i < pts.len() ==> pts[i].y as int == predicted_spec(c, pts[i].x as int),
    ensures
        err_sum_prefix(c, pts, k) == 0,
    decreases k,
{
    if k > 0 {
        lemma_perfect_fit_zero_sum(c, pts, (k - 1) as nat);
        let p = pts[k - 1];
        assert(fx_sub_spec(predicted_spec(c, p.x as int), p.y as int) == 0);
        assert(sq_err_spec(c, p) == 0);
    }
}

} // verus!
