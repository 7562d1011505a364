//! A node that always outputs the same scalar in every channel.
use vstd::prelude::*;
use crate::module::Module;

verus! {

pub struct Constant<T> {
    values: Vec<T>,
}

impl<T: Copy> Constant<T> {
    pub fn new(channels: usize, x: T) -> (r: Self)
        ensures
            r.frame() == Seq::new(channels as nat, |_i: int| x),
    {
        let mut values: Vec<T> = Vec::with_capacity(channels);
        let mut i: usize = 0;
        while i < channels
            invariant
                i <= channels,
                values@ == Seq::new(i as nat, |_i: int| x),
            decreases channels - i,
        {
            values.push(x);
            i = i + 1;
        }
        Constant { values }
    }
}

impl<T: Copy> Module<T> for Constant<T> {
    open spec fn arity(&self) -> u8 {
        0
    }

    closed spec fn frame(&self) -> Seq<T> {
        self.values@
    }

    open spec fn reads(&self) -> nat {
        0
    }

    open spec fn valid(&self) -> bool {
        true
    }

    open spec fn emits(&self, input: Seq<T>, next: Seq<T>) -> bool {
        next == self.frame()
    }

    fn inputs(&self) -> (r: u8) {
        0
    }

    fn output(&self) -> (r: &[T]) {
        self.values.as_slice()
    }

    fn sample(&mut self, input: &[T])
        ensures
            *final(self) == *old(self),
    {
    }
}

} // verus!
