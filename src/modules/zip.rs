//! Zips the first channel of each source into a multi-channel frame.
use vstd::prelude::*;
use crate::module::Module;
use crate::modules::filled;
use crate::scalar::{Scalar, zero};

verus! {

/// Channel `c` of the output is channel 0 of the `c`-th source; there is one
/// source per channel.
pub struct Zip<T> {
    channels: usize,
    output: Vec<T>,
}

impl<T: Scalar> Zip<T> {
    pub fn new(channels: usize) -> (r: Self)
        requires
            channels * channels <= usize::MAX,
        ensures
            r.frame() == Seq::new(channels as nat, |_i: int| zero::<T>()),
            r.arity() == (channels % 256) as u8,
            r.valid(),
    {
        Zip { channels, output: filled(channels, T::from_usize(0)) }
    }
}

impl<T: Scalar> Module<T> for Zip<T> {
    open spec fn arity(&self) -> u8 {
        (self.frame().len() % 256) as u8
    }

    closed spec fn frame(&self) -> Seq<T> {
        self.output@
    }

    open spec fn reads(&self) -> nat {
        self.frame().len() * self.frame().len()
    }

    closed spec fn valid(&self) -> bool {
        self.output@.len() == self.channels && self.channels * self.channels <= usize::MAX
    }

    open spec fn emits(&self, input: Seq<T>, next: Seq<T>) -> bool {
        next == Seq::new(self.frame().len(), |c: int| input[c * self.frame().len()])
    }

    fn inputs(&self) -> (r: u8) {
        (self.output.len() % 256) as u8
    }

    fn output(&self) -> (r: &[T]) {
        self.output.as_slice()
    }

    fn sample(&mut self, input: &[T])
        ensures
            final(self).frame() == Seq::new(
                old(self).frame().len(),
                |c: int| input@[c * old(self).frame().len()],
            ),
    {
        let n = self.channels;
        let len = input.len();
        let mut i: usize = 0;
        while i < n
            invariant
                n == self.channels,
                n == self.output@.len(),
                n * n <= input@.len(),
                len == input@.len(),
                self.channels == old(self).channels,
                i <= n,
                forall|c: int| 0 <= c < i ==> self.output@[c] == input@[c * n],
            decreases n - i,
        {
            assert(i * n + n <= n * n) by (nonlinear_arith)
                requires
                    i < n,
            ;
            assert(i * n < len);
            self.output.set(i, input[i * n]);
            i = i + 1;
        }
        assert(self.output@ =~= Seq::new(n as nat, |c: int| input@[c * n]));
    }
}

} // verus!
