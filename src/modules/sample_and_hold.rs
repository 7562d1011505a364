//! Sample and hold.
use vstd::prelude::*;
use crate::module::Module;
use crate::modules::filled;
use crate::scalar::{Scalar, one, zero};

verus! {

/// `y·(1 − t) + x·t`: the held value cross-faded toward the signal by the trigger.
pub open spec fn hold_spec<T: Scalar>(y: T, t: T, x: T) -> T {
    T::add_spec(T::mul_spec(y, T::sub_spec(one(), t)), T::mul_spec(x, t))
}

/// Takes a trigger and a signal: with a trigger of 1 it takes the signal, with
/// 0 it holds its output, and in between it cross-fades.
pub struct SampleAndHold<T> {
    output: Vec<T>,
}

impl<T: Scalar> SampleAndHold<T> {
    pub fn new(channels: usize) -> (r: Self)
        ensures
            r.frame() == Seq::new(channels as nat, |_i: int| zero::<T>()),
    {
        SampleAndHold { output: filled(channels, T::from_usize(0)) }
    }
}

impl<T: Scalar> Module<T> for SampleAndHold<T> {
    open spec fn arity(&self) -> u8 {
        2
    }

    closed spec fn frame(&self) -> Seq<T> {
        self.output@
    }

    open spec fn reads(&self) -> nat {
        2 * self.frame().len()
    }

    open spec fn valid(&self) -> bool {
        true
    }

    open spec fn emits(&self, input: Seq<T>, next: Seq<T>) -> bool {
        next == Seq::new(
            self.frame().len(),
            |c: int| hold_spec(self.frame()[c], input[c], input[c + self.frame().len()]),
        )
    }

    fn inputs(&self) -> (r: u8) {
        2
    }

    fn output(&self) -> (r: &[T]) {
        self.output.as_slice()
    }

    fn sample(&mut self, input: &[T])
        ensures
            final(self).frame() == Seq::new(
                old(self).frame().len(),
                |c: int|
                    hold_spec(old(self).frame()[c], input@[c], input@[c + old(self).frame().len()]),
            ),
    {
        let n = self.output.len();
        let mut i: usize = 0;
        while i < n
            invariant
                n == self.output@.len(),
                n == old(self).output@.len(),
                2 * n <= input@.len(),
                i <= n,
                forall|c: int|
                    0 <= c < i ==> self.output@[c] == hold_spec(
                        old(self).output@[c],
                        input@[c],
                        input@[c + n],
                    ),
                forall|c: int| i <= c < n ==> self.output@[c] == old(self).output@[c],
            decreases n - i,
        {
            let t = input[i];
            let x = input[i + n];
            let y = self.output[i];
            let next = T::add(T::mul(y, T::sub(T::from_usize(1), t)), T::mul(x, t));
            self.output.set(i, next);
            i = i + 1;
        }
        assert(self.output@ =~= Seq::new(
            n as nat,
            |c: int| hold_spec(old(self).output@[c], input@[c], input@[c + n]),
        ));
    }
}

} // verus!
