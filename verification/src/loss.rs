//! The cross-entropy loss and its derivative, expressed as matrix
//! operations over the engine.

use vstd::prelude::*;
use vstd::pervasive::unreached;
use crate::scalar::add_bits;
use crate::scalar::div_bits;
use crate::scalar::neg_bits;
use crate::scalar::neg_bits_spec;
use crate::scalar::real_div;
use crate::scalar::real_of_u64;
use crate::scalar::sub_bits;
use crate::scalar::u64_to_bits;
use crate::vector2d::add_vals;
use crate::vector2d::dot_vals;
use crate::vector2d::ln_vals;
use crate::vector2d::mul_scalar_vals;
use crate::vector2d::scalar_sub_vals;
use crate::vector2d::transpose_vals;
use crate::vector2d::MatrixError;
use crate::vector2d::Vector2D;

verus! {

/// The loss over predictions h and labels y, both single-column with n rows:
/// (-1/n) * (y-transposed dot ln h, plus (1 - y-transposed) dot ln(1 - h)),
/// a single value, written over the named binary64 operations. A zero factor
/// drops its product term inside each dot, so a label of 0 silences even an
/// infinite ln h there; a surviving infinite term drives the loss to
/// infinity.
pub open spec fn ce_loss_vals(hv: Seq<u64>, yv: Seq<u64>, n: int) -> Seq<u64> {
    let one: u64 = u64_to_bits(1);
    let t1: Seq<u64> = dot_vals(transpose_vals(yv, n, 1), ln_vals(hv), 1, n, 1);
    let t2: Seq<u64> = dot_vals(
        scalar_sub_vals(one, transpose_vals(yv, n, 1)),
        ln_vals(scalar_sub_vals(one, hv)),
        1,
        n,
        1,
    );
    let factor: u64 = div_bits(neg_bits_spec(one), u64_to_bits(n as u64));
    mul_scalar_vals(add_vals(t1, t2), factor)
}

/// One entry of the loss derivative: -(y/h) + (1-y)/(1-h) over the named
/// binary64 operations. At h = 0, y = 0 (and h = 1, y = 1) this is a NaN, a
/// 0/0 form that is deliberately not guarded.
pub open spec fn ce_derivative_entry(h: u64, y: u64) -> u64 {
    let one: u64 = u64_to_bits(1);
    add_bits(neg_bits_spec(div_bits(y, h)), div_bits(sub_bits(one, y), sub_bits(one, h)))
}

/// The loss derivative applied entry by entry.
pub open spec fn ce_derivative_vals(hv: Seq<u64>, yv: Seq<u64>) -> Seq<u64> {
    Seq::new(hv.len(), |n: int| ce_derivative_entry(hv[n], yv[n]))
}

/// The cross-entropy loss of predictions against labels. Both operands must
/// be single-column matrices of the same shape; any other pairing is a shape
/// mismatch. The result is a 1-by-1 matrix holding the loss.
pub fn cross_entropy_loss(h: &Vector2D, y: &Vector2D) -> (r: Result<Vector2D, MatrixError>)
    requires
        h.wf(),
        y.wf(),
    ensures
        r is Ok <==> h.rows == y.rows && h.cols == y.cols && h.cols == 1,
        r matches Ok(m) ==> m.wf() && m.rows == 1 && m.cols == 1
            && m.values@ == ce_loss_vals(h.values@, y.values@, h.rows as int),
        r matches Err(e) ==> e == MatrixError::ShapeMismatch,
{
    if h.rows == y.rows && h.cols == y.cols && h.cols == 1 {
        let one: u64 = real_of_u64(1);
        let yt: Vector2D = y.transpose();
        let lnh: Vector2D = h.ln();
        let t1: Vector2D = match yt.dot(&lnh) {
            Ok(m) => m,
            Err(_) => unreached(),
        };
        let one_minus_yt: Vector2D = yt.scalar_sub(one);
        let ln_one_minus_h: Vector2D = h.scalar_sub(one).ln();
        let t2: Vector2D = match one_minus_yt.dot(&ln_one_minus_h) {
            Ok(m) => m,
            Err(_) => unreached(),
        };
        let total: Vector2D = match t1.add(&t2) {
            Ok(m) => m,
            Err(_) => unreached(),
        };
        let factor: u64 = real_div(neg_bits(one), real_of_u64(h.rows as u64));
        Ok(total.mul_scalar(factor))
    } else {
        Err(MatrixError::ShapeMismatch)
    }
}

/// The derivative of the cross-entropy loss with respect to each prediction
/// entry: -(y/h) + (1-y)/(1-h), elementwise; the operands must agree in
/// shape, and a shape mismatch is the one failure.
pub fn cross_entropy_derivative(h: &Vector2D, y: &Vector2D) -> (r: Result<
    Vector2D,
    MatrixError,
>)
    requires
        h.wf(),
        y.wf(),
    ensures
        r is Ok <==> h.rows == y.rows && h.cols == y.cols,
        r matches Ok(m) ==> m.wf() && m.rows == h.rows && m.cols == h.cols
            && m.values@ == ce_derivative_vals(h.values@, y.values@),
        r matches Err(e) ==> e == MatrixError::ShapeMismatch,
{
    if h.rows == y.rows && h.cols == y.cols {
        let one: u64 = real_of_u64(1);
        let quotient: Vector2D = match y.div(h) {
            Ok(m) => m,
            Err(_) => unreached(),
        };
        let first: Vector2D = quotient.negate();
        let second: Vector2D = match y.scalar_sub(one).div(&h.scalar_sub(one)) {
            Ok(m) => m,
            Err(_) => unreached(),
        };
        let r: Vector2D = match first.add(&second) {
            Ok(m) => m,
            Err(_) => unreached(),
        };
        proof {
            assert(r.values@ =~= ce_derivative_vals(h.values@, y.values@));
        }
        Ok(r)
    } else {
        Err(MatrixError::ShapeMismatch)
    }
}

} // verus!
