//! Extracts one automation parameter from the external frame; sources: none.
use vstd::prelude::*;
use crate::module::Module;
use crate::modules::filled;
use crate::scalar::{Scalar, zero};

verus! {

/// Emits one automation parameter of the external frame in every channel:
/// parameter `index` follows the channels' scalars.
pub struct Parameter<T> {
    index: usize,
    output: Vec<T>,
}

impl<T: Scalar> Parameter<T> {
    /// Which parameter the node emits.
    pub closed spec fn index(&self) -> nat {
        self.index as nat
    }

    pub fn new(channels: usize, index: usize) -> (r: Self)
        requires
            channels + index < usize::MAX,
        ensures
            r.frame() == Seq::new(channels as nat, |_i: int| zero::<T>()),
            r.index() == index,
    {
        Parameter { index, output: filled(channels, T::from_usize(0)) }
    }
}

impl<T: Scalar> Module<T> for Parameter<T> {
    open spec fn arity(&self) -> u8 {
        0
    }

    closed spec fn frame(&self) -> Seq<T> {
        self.output@
    }

    open spec fn reads(&self) -> nat {
        self.frame().len() + self.index() + 1
    }

    open spec fn valid(&self) -> bool {
        true
    }

    open spec fn emits(&self, input: Seq<T>, next: Seq<T>) -> bool {
        next == Seq::new(
            self.frame().len(),
            |_i: int| input[self.frame().len() + self.index() as int],
        )
    }

    fn inputs(&self) -> (r: u8) {
        0
    }

    fn output(&self) -> (r: &[T]) {
        self.output.as_slice()
    }

    fn sample(&mut self, input: &[T])
        ensures
            final(self).index() == old(self).index(),
            final(self).frame() == Seq::new(
                old(self).frame().len(),
                |_i: int| input@[old(self).frame().len() + old(self).index() as int],
            ),
    {
        let n = self.output.len();
        let len = input.len();
        let value = input[n + self.index];
        let mut i: usize = 0;
        while i < n
            invariant
                n == self.output@.len(),
                self.index == old(self).index,
                i <= n,
                forall|c: int| 0 <= c < i ==> self.output@[c] == value,
            decreases n - i,
        {
            self.output.set(i, value);
            i = i + 1;
        }
        assert(self.output@ =~= Seq::new(n as nat, |_i: int| value));
    }
}

} // verus!
