//! The sigmoid activation and its derivative, applied elementwise over a
//! matrix.

use vstd::prelude::*;
use vstd::pervasive::unreached;
use crate::scalar::add_bits;
use crate::scalar::div_bits;
use crate::scalar::exp_bits;
use crate::scalar::exp_spec;
use crate::scalar::mul_bits;
use crate::scalar::neg_bits;
use crate::scalar::neg_bits_spec;
use crate::scalar::real_add;
use crate::scalar::real_div;
use crate::scalar::real_of_u64;
use crate::scalar::sub_bits;
use crate::scalar::u64_to_bits;
use crate::vector2d::Vector2D;

verus! {

/// The sigmoid of one encoded value: 1 / (1 + exp(-x)) over the named
/// binary64 operations, with the crate's own exponential. At x = +0.0 or
/// -0.0 the chain gives exactly 0.5; it is increasing and saturates toward
/// 0 and 1.
pub open spec fn sigmoid_spec(x: u64) -> u64 {
    let one: u64 = u64_to_bits(1);
    div_bits(one, add_bits(one, exp_spec(neg_bits_spec(x))))
}

/// The derivative chain sigmoid(x) * (1 - sigmoid(x)) over the named
/// binary64 operations.
pub open spec fn sigmoid_derivative_spec(x: u64) -> u64 {
    mul_bits(sigmoid_spec(x), sub_bits(u64_to_bits(1), sigmoid_spec(x)))
}

/// The sigmoid applied to every entry.
pub open spec fn sigmoid_vals(a: Seq<u64>) -> Seq<u64> {
    Seq::new(a.len(), |n: int| sigmoid_spec(a[n]))
}

/// The sigmoid derivative applied to every entry.
pub open spec fn sigmoid_derivative_vals(a: Seq<u64>) -> Seq<u64> {
    Seq::new(a.len(), |n: int| sigmoid_derivative_spec(a[n]))
}

/// The sigmoid of a single encoded value.
pub fn solo_sigmoid(v: u64) -> (r: u64)
    ensures
        r == sigmoid_spec(v),
{
    let one: u64 = real_of_u64(1);
    let e: u64 = exp_bits(neg_bits(v));
    real_div(one, real_add(one, e))
}

/// The sigmoid of every entry; the shape is kept.
pub fn sigmoid(v: &Vector2D) -> (r: Vector2D)
    requires
        v.wf(),
    ensures
        r.wf(),
        r.rows == v.rows,
        r.cols == v.cols,
        r.values@ == sigmoid_vals(v.values@),
{
    let mut vals: Vec<u64> = Vec::new();
    let mut n: usize = 0;
    let l: usize = v.values.len();
    while n < l
        invariant
            n <= l,
            l == v.values@.len(),
            vals@.len() == n,
            forall|q: int| 0 <= q < n ==> vals@[q] == sigmoid_spec(v.values@[q]),
        decreases l - n,
    {
        vals.push(solo_sigmoid(v.values[n]));
        n += 1;
    }
    proof {
        assert(vals@ =~= sigmoid_vals(v.values@));
    }
    Vector2D { values: vals, rows: v.rows, cols: v.cols }
}

/// The sigmoid derivative of every entry, computed as the sigmoid times one
/// minus the sigmoid; the shape is kept.
pub fn sigmoid_derivative(v: &Vector2D) -> (r: Vector2D)
    requires
        v.wf(),
    ensures
        r.wf(),
        r.rows == v.rows,
        r.cols == v.cols,
        r.values@ == sigmoid_derivative_vals(v.values@),
{
    let one: u64 = real_of_u64(1);
    let sig: Vector2D = sigmoid(v);
    let sag: Vector2D = sig.scalar_sub(one);
    let r: Vector2D = match sig.mul(&sag) {
        Ok(m) => m,
        Err(_) => unreached(),
    };
    proof {
        assert(r.values@ =~= sigmoid_derivative_vals(v.values@));
    }
    r
}

} // verus!
