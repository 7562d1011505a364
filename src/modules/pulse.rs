//! A pulse wave; sources: frequency, duty cycle.
use vstd::prelude::*;
use crate::module::Module;
use crate::modules::filled;
use crate::modules::phasor::{advance_spec, Phasor};
use crate::pure::{rectangle, rectangle_spec};
use crate::scalar::{Scalar, zero};

verus! {

/// A pulse wave: a phasor driven by frequency, shaped into a rectangle by the
/// duty cycle source.
pub struct Pulse<T> {
    phasor: Phasor<T>,
    output: Vec<T>,
}

impl<T: Scalar> Pulse<T> {
    /// The phases of the inner phasor.
    pub closed spec fn phases(&self) -> Seq<T> {
        self.phasor.frame()
    }

    /// The sample rate as a scalar.
    pub closed spec fn rate(&self) -> T {
        self.phasor.rate()
    }

    pub fn new(channels: usize, sample_rate: usize) -> (r: Self)
        ensures
            r.valid(),
            r.frame() == Seq::new(channels as nat, |_i: int| zero::<T>()),
            r.phases() == Seq::new(channels as nat, |_i: int| zero::<T>()),
            r.rate() == T::from_usize_spec(sample_rate),
    {
        Pulse { phasor: Phasor::new(channels, sample_rate), output: filled(channels, T::from_usize(0)) }
    }
}

impl<T: Scalar> Module<T> for Pulse<T> {
    open spec fn arity(&self) -> u8 {
        2
    }

    closed spec fn frame(&self) -> Seq<T> {
        self.output@
    }

    open spec fn reads(&self) -> nat {
        2 * self.frame().len()
    }

    closed spec fn valid(&self) -> bool {
        self.phasor.frame().len() == self.output@.len()
    }

    open spec fn emits(&self, input: Seq<T>, next: Seq<T>) -> bool {
        next == Seq::new(
            self.frame().len(),
            |c: int|
                rectangle_spec(
                    advance_spec(self.phases(), input, self.rate(), false)[c],
                    input[c + self.frame().len()],
                ),
        )
    }

    fn inputs(&self) -> (r: u8) {
        2
    }

    fn output(&self) -> (r: &[T]) {
        self.output.as_slice()
    }

    fn sample(&mut self, input: &[T])
        ensures
            final(self).rate() == old(self).rate(),
            final(self).phases() == advance_spec(old(self).phases(), input@, old(self).rate(), false),
            final(self).frame() == Seq::new(
                old(self).frame().len(),
                |c: int|
                    rectangle_spec(final(self).phases()[c], input@[c + old(self).frame().len()]),
            ),
    {
        self.phasor.sample(input);
        let ghost stepped_phasor = self.phasor;
        let len = input.len();
        let n = self.output.len();
        let mut i: usize = 0;
        while i < n
            invariant
                n == self.output@.len(),
                n == self.phasor.frame().len(),
                2 * n <= input@.len(),
                len == input@.len(),
                i <= n,
                self.phasor == stepped_phasor,
                forall|c: int|
                    0 <= c < i ==> self.output@[c] == rectangle_spec(
                        self.phasor.frame()[c],
                        input@[c + n],
                    ),
            decreases n - i,
        {
            let y = rectangle(self.phasor.output()[i], input[i + n]);
            self.output.set(i, y);
            i = i + 1;
        }
        assert(self.output@ =~= Seq::new(
            n as nat,
            |c: int| rectangle_spec(self.phasor.frame()[c], input@[c + n]),
        ));
    }
}

} // verus!
