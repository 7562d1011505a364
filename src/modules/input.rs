//! Forwards the external frame to the output; sources: none.
use vstd::prelude::*;
use crate::module::Module;
use crate::modules::filled;
use crate::scalar::{Scalar, zero};

verus! {

/// Forwards the external frame to its output.
pub struct Input<T> {
    output: Vec<T>,
}

impl<T: Scalar> Input<T> {
    pub fn new(channels: usize) -> (r: Self)
        ensures
            r.frame() == Seq::new(channels as nat, |_i: int| zero::<T>()),
    {
        Input { output: filled(channels, T::from_usize(0)) }
    }
}

impl<T: Scalar> Module<T> for Input<T> {
    open spec fn arity(&self) -> u8 {
        0
    }

    closed spec fn frame(&self) -> Seq<T> {
        self.output@
    }

    open spec fn reads(&self) -> nat {
        self.frame().len()
    }

    open spec fn valid(&self) -> bool {
        true
    }

    open spec fn emits(&self, input: Seq<T>, next: Seq<T>) -> bool {
        next == input.take(self.frame().len() as int)
    }

    fn inputs(&self) -> (r: u8) {
        0
    }

    fn output(&self) -> (r: &[T]) {
        self.output.as_slice()
    }

    fn sample(&mut self, input: &[T])
        ensures
            final(self).frame() == input@.take(old(self).frame().len() as int),
    {
        let n = self.output.len();
        let mut i: usize = 0;
        while i < n
            invariant
                n == self.output@.len(),
                n <= input@.len(),
                i <= n,
                forall|c: int| 0 <= c < i ==> self.output@[c] == input@[c],
            decreases n - i,
        {
            self.output.set(i, input[i]);
            i = i + 1;
        }
        assert(self.output@ =~= input@.take(n as int));
    }
}

} // verus!
