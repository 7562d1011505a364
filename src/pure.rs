//! Stateless scalar shapes used by the oscillator and panner nodes.
use vstd::prelude::*;
use crate::scalar::{Scalar, one, two, zero};

verus! {

/// `+1` where `phase < 2·duty − 1`, else `−1`.
pub open spec fn rectangle_spec<T: Scalar>(phase: T, duty: T) -> T {
    if T::lt_spec(phase, T::sub_spec(T::mul_spec(two(), duty), one())) {
        one()
    } else {
        T::neg_spec(one())
    }
}

/// A rectangle wave of the given duty cycle over a bipolar phase.
pub fn rectangle<T: Scalar>(phase: T, duty: T) -> (r: T)
    ensures
        r == rectangle_spec(phase, duty),
{
    let one = T::from_usize(1);
    let edge = T::sub(T::mul(T::from_usize(2), duty), one);
    if T::lt(phase, edge) {
        one
    } else {
        T::neg(one)
    }
}

/// `√max(0, x)`.
pub open spec fn root_spec<T: Scalar>(x: T) -> T {
    T::sqrt_spec(T::max_spec(zero(), x))
}

/// The left channel of the equal-power mix of `l` and `r` at position `c`:
/// `√(1−c)·l + √(−c)·r`, each radicand clamped to at least zero.
pub open spec fn pan_left_spec<T: Scalar>(l: T, r: T, c: T) -> T {
    T::add_spec(
        T::mul_spec(root_spec(T::sub_spec(one(), c)), l),
        T::mul_spec(root_spec(T::neg_spec(c)), r),
    )
}

/// The right channel of the equal-power mix of `l` and `r` at position `c`:
/// `√c·l + √(1+c)·r`, each radicand clamped to at least zero.
pub open spec fn pan_right_spec<T: Scalar>(l: T, r: T, c: T) -> T {
    T::add_spec(
        T::mul_spec(root_spec(c), l),
        T::mul_spec(root_spec(T::add_spec(one(), c)), r),
    )
}

fn root<T: Scalar>(x: T) -> (r: T)
    ensures
        r == root_spec(x),
{
    T::sqrt(T::max(T::from_usize(0), x))
}

/// The equal-power stereo mix of `l` and `r` at position `c` in `[−1, 1]`.
pub fn pan<T: Scalar>(l: T, r: T, c: T) -> (res: (T, T))
    ensures
        res == (pan_left_spec(l, r, c), pan_right_spec(l, r, c)),
{
    let one = T::from_usize(1);
    let left = T::add(T::mul(root(T::sub(one, c)), l), T::mul(root(T::neg(c)), r));
    let right = T::add(T::mul(root(c), l), T::mul(root(T::add(one, c)), r));
    (left, right)
}

} // verus!
