//! Implementations of the node contract.
use vstd::prelude::*;

pub mod any;
pub mod biquad;
pub mod constant;
pub mod delay;
pub mod feedback;
pub mod filter;
pub mod function;
pub mod input;
pub mod metro;
pub mod noise;
pub mod osc;
pub mod pan;
pub mod parameter;
pub mod phasor;
pub mod prelude;
pub mod pulse;
pub mod sample_and_hold;
pub mod yin;
pub mod zip;

verus! {

/// A vector of `n` copies of `x`.
pub fn filled<T: Copy>(n: usize, x: T) -> (r: Vec<T>)
    ensures
        r@ == Seq::new(n as nat, |_i: int| x),
{
    let mut v: Vec<T> = Vec::with_capacity(n);
    let mut i: usize = 0;
    while i < n
        invariant
            i <= n,
            v@ == Seq::new(i as nat, |_i: int| x),
        decreases n - i,
    {
        v.push(x);
        i = i + 1;
    }
    v
}

} // verus!
