//! The sample scalar.
use vstd::prelude::*;

verus! {

/// Arithmetic on sample scalars.
///
/// Each operation is a deterministic function of its arguments; the spec
/// function of the same role names its result, so the contracts of the nodes
/// can state an update as an exact composition of these operations (in the
/// order the operations are performed, which matters for rounding).
pub trait Scalar: Copy + Sized {
    spec fn from_usize_spec(n: usize) -> Self;
    spec fn pi_spec() -> Self;
    spec fn add_spec(a: Self, b: Self) -> Self;
    spec fn sub_spec(a: Self, b: Self) -> Self;
    spec fn mul_spec(a: Self, b: Self) -> Self;
    spec fn div_spec(a: Self, b: Self) -> Self;
    spec fn rem_euclid_spec(a: Self, b: Self) -> Self;
    spec fn neg_spec(a: Self) -> Self;
    spec fn min_spec(a: Self, b: Self) -> Self;
    spec fn max_spec(a: Self, b: Self) -> Self;
    spec fn sqrt_spec(a: Self) -> Self;
    spec fn sin_spec(a: Self) -> Self;
    spec fn cos_spec(a: Self) -> Self;
    spec fn fract_spec(a: Self) -> Self;
    spec fn lt_spec(a: Self, b: Self) -> bool;
    spec fn le_spec(a: Self, b: Self) -> bool;
    spec fn eq_spec(a: Self, b: Self) -> bool;
    /// Conversion to `usize` that truncates toward zero and saturates.
    spec fn to_usize_spec(a: Self) -> usize;
    spec fn from_u64_spec(n: u64) -> Self;

    /// The scalar nearest to `n`.
    fn from_usize(n: usize) -> (r: Self)
        ensures
            r == Self::from_usize_spec(n),
    ;

    /// The scalar nearest to the ratio of a circle's circumference to its diameter.
    fn pi() -> (r: Self)
        ensures
            r == Self::pi_spec(),
    ;

    fn add(a: Self, b: Self) -> (r: Self)
        ensures
            r == Self::add_spec(a, b),
    ;

    fn sub(a: Self, b: Self) -> (r: Self)
        ensures
            r == Self::sub_spec(a, b),
    ;

    fn mul(a: Self, b: Self) -> (r: Self)
        ensures
            r == Self::mul_spec(a, b),
    ;

    fn div(a: Self, b: Self) -> (r: Self)
        ensures
            r == Self::div_spec(a, b),
    ;

    /// The least non-negative remainder of `a` divided by `b`: in `[0, |b|)`,
    /// except that rounding may give `|b|` itself for a tiny negative `a`.
    fn rem_euclid(a: Self, b: Self) -> (r: Self)
        ensures
            r == Self::rem_euclid_spec(a, b),
    ;

    fn neg(a: Self) -> (r: Self)
        ensures
            r == Self::neg_spec(a),
    ;

    fn min(a: Self, b: Self) -> (r: Self)
        ensures
            r == Self::min_spec(a, b),
    ;

    fn max(a: Self, b: Self) -> (r: Self)
        ensures
            r == Self::max_spec(a, b),
    ;

    fn sqrt(a: Self) -> (r: Self)
        ensures
            r == Self::sqrt_spec(a),
    ;

    fn sin(a: Self) -> (r: Self)
        ensures
            r == Self::sin_spec(a),
    ;

    fn cos(a: Self) -> (r: Self)
        ensures
            r == Self::cos_spec(a),
    ;

    /// The fractional part: `a` minus `a` truncated toward zero.
    fn fract(a: Self) -> (r: Self)
        ensures
            r == Self::fract_spec(a),
    ;

    fn lt(a: Self, b: Self) -> (r: bool)
        ensures
            r == Self::lt_spec(a, b),
    ;

    fn le(a: Self, b: Self) -> (r: bool)
        ensures
            r == Self::le_spec(a, b),
    ;

    fn eq(a: Self, b: Self) -> (r: bool)
        ensures
            r == Self::eq_spec(a, b),
    ;

    fn to_usize(a: Self) -> (r: usize)
        ensures
            r == Self::to_usize_spec(a),
    ;

    /// The scalar nearest to `n`.
    fn from_u64(n: u64) -> (r: Self)
        ensures
            r == Self::from_u64_spec(n),
    ;
}

/// The scalar zero.
pub open spec fn zero<T: Scalar>() -> T {
    T::from_usize_spec(0)
}

/// The scalar one.
pub open spec fn one<T: Scalar>() -> T {
    T::from_usize_spec(1)
}

/// The scalar two.
pub open spec fn two<T: Scalar>() -> T {
    T::from_usize_spec(2)
}

} // verus!
