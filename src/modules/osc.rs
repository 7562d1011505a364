//! Oscillators: a phasor shaped by a scalar function.
use vstd::prelude::*;
use crate::module::Module;
use crate::modules::function::Fn1;
use crate::modules::phasor::{advance_spec, Phasor, Phasor0};
use crate::scalar::{Scalar, zero};

verus! {

/// A phasor driven by frequency, shaped by `f`.
#[verifier::reject_recursive_types(T)]
pub struct Osc<T, F: Fn(T) -> T> {
    phasor: Phasor<T>,
    osc: Fn1<T, F>,
}

impl<T: Scalar, F: Fn(T) -> T> Osc<T, F> {
    /// The phases of the inner phasor.
    pub closed spec fn phases(&self) -> Seq<T> {
        self.phasor.frame()
    }

    /// The sample rate as a scalar.
    pub closed spec fn rate(&self) -> T {
        self.phasor.rate()
    }

    /// The shaping function.
    pub closed spec fn function(&self) -> F {
        self.osc.function()
    }

    pub fn new(channels: usize, sample_rate: usize, f: F) -> (r: Self)
        requires
            forall|x: T| f.requires((x,)),
        ensures
            r.valid(),
            r.frame() == Seq::new(channels as nat, |_i: int| zero::<T>()),
            r.phases() == Seq::new(channels as nat, |_i: int| zero::<T>()),
            r.rate() == T::from_usize_spec(sample_rate),
            r.function() == f,
    {
        Osc { phasor: Phasor::new(channels, sample_rate), osc: Fn1::new(channels, f) }
    }
}

impl<T: Scalar, F: Fn(T) -> T> Module<T> for Osc<T, F> {
    open spec fn arity(&self) -> u8 {
        1
    }

    closed spec fn frame(&self) -> Seq<T> {
        self.osc.frame()
    }

    open spec fn reads(&self) -> nat {
        self.frame().len()
    }

    closed spec fn valid(&self) -> bool {
        self.phasor.frame().len() == self.osc.frame().len()
    }

    open spec fn emits(&self, input: Seq<T>, next: Seq<T>) -> bool {
        next.len() == self.frame().len() && forall|c: int|
            0 <= c < next.len() ==> self.function().ensures(
                (advance_spec(self.phases(), input, self.rate(), false)[c],),
                #[trigger] next[c],
            )
    }

    fn inputs(&self) -> (r: u8) {
        1
    }

    fn output(&self) -> (r: &[T]) {
        self.osc.output()
    }

    fn sample(&mut self, input: &[T])
        ensures
            final(self).rate() == old(self).rate(),
            final(self).function() == old(self).function(),
            final(self).phases() == advance_spec(old(self).phases(), input@, old(self).rate(), false),
            forall|c: int|
                0 <= c < old(self).frame().len() ==> old(self).function().ensures(
                    (final(self).phases()[c],),
                    #[trigger] final(self).frame()[c],
                ),
    {
        self.phasor.sample(input);
        self.osc.sample(self.phasor.output());
    }
}

/// A phasor driven by frequency and phase offset, shaped by `f`.
#[verifier::reject_recursive_types(T)]
pub struct OscPhase<T, F: Fn(T) -> T> {
    phasor: Phasor0<T>,
    osc: Fn1<T, F>,
}

impl<T: Scalar, F: Fn(T) -> T> OscPhase<T, F> {
    /// The phases of the inner phasor.
    pub closed spec fn phases(&self) -> Seq<T> {
        self.phasor.frame()
    }

    /// The sample rate as a scalar.
    pub closed spec fn rate(&self) -> T {
        self.phasor.rate()
    }

    /// The shaping function.
    pub closed spec fn function(&self) -> F {
        self.osc.function()
    }

    pub fn new(channels: usize, sample_rate: usize, f: F) -> (r: Self)
        requires
            forall|x: T| f.requires((x,)),
        ensures
            r.valid(),
            r.frame() == Seq::new(channels as nat, |_i: int| zero::<T>()),
            r.phases() == Seq::new(channels as nat, |_i: int| zero::<T>()),
            r.rate() == T::from_usize_spec(sample_rate),
            r.function() == f,
    {
        OscPhase { phasor: Phasor0::new(channels, sample_rate), osc: Fn1::new(channels, f) }
    }
}

impl<T: Scalar, F: Fn(T) -> T> Module<T> for OscPhase<T, F> {
    open spec fn arity(&self) -> u8 {
        2
    }

    closed spec fn frame(&self) -> Seq<T> {
        self.osc.frame()
    }

    open spec fn reads(&self) -> nat {
        2 * self.frame().len()
    }

    closed spec fn valid(&self) -> bool {
        self.phasor.frame().len() == self.osc.frame().len()
    }

    open spec fn emits(&self, input: Seq<T>, next: Seq<T>) -> bool {
        next.len() == self.frame().len() && forall|c: int|
            0 <= c < next.len() ==> self.function().ensures(
                (advance_spec(self.phases(), input, self.rate(), true)[c],),
                #[trigger] next[c],
            )
    }

    fn inputs(&self) -> (r: u8) {
        2
    }

    fn output(&self) -> (r: &[T]) {
        self.osc.output()
    }

    fn sample(&mut self, input: &[T])
        ensures
            final(self).rate() == old(self).rate(),
            final(self).function() == old(self).function(),
            final(self).phases() == advance_spec(old(self).phases(), input@, old(self).rate(), true),
            forall|c: int|
                0 <= c < old(self).frame().len() ==> old(self).function().ensures(
                    (final(self).phases()[c],),
                    #[trigger] final(self).frame()[c],
                ),
    {
        self.phasor.sample(input);
        self.osc.sample(self.phasor.output());
    }
}

} // verus!
