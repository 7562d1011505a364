//! Phasors: bipolar saw waves in `[−1, 1)` whose frequency is an input, used
//! as the phase of other oscillators.
use vstd::prelude::*;
use crate::module::Module;
use crate::modules::filled;
use crate::scalar::{Scalar, one, two, zero};

verus! {

/// `((x + 1) mod 2) − 1` with the Euclidean remainder: `x` wrapped into
/// `[−1, 1)`. Where rounding makes the remainder 2 (for an argument just below
/// −1), the result would be 1, and it goes round once more, to −1.
pub open spec fn wrap_spec<T: Scalar>(x: T) -> T {
    let w = T::sub_spec(T::rem_euclid_spec(T::add_spec(x, one()), two()), one());
    if T::lt_spec(w, one()) {
        w
    } else {
        T::sub_spec(w, two())
    }
}

/// The phases after one frame: each advances by its frequency over the sample
/// rate, plus an offset, and wraps.
pub open spec fn advance_spec<T: Scalar>(
    phases: Seq<T>,
    input: Seq<T>,
    rate: T,
    with_offset: bool,
) -> Seq<T> {
    Seq::new(
        phases.len(),
        |c: int|
            {
                let dx = T::div_spec(input[c], rate);
                if with_offset {
                    wrap_spec(T::add_spec(T::add_spec(phases[c], input[c + phases.len()]), dx))
                } else {
                    wrap_spec(T::add_spec(phases[c], dx))
                }
            },
    )
}

fn wrap<T: Scalar>(x: T) -> (r: T)
    ensures
        r == wrap_spec(x),
{
    let one = T::from_usize(1);
    let two = T::from_usize(2);
    let w = T::sub(T::rem_euclid(T::add(x, one), two), one);
    if T::lt(w, one) {
        w
    } else {
        T::sub(w, two)
    }
}

/// Advances `phases` by one frame, as `advance_spec` says.
fn advance<T: Scalar>(phases: &mut Vec<T>, input: &[T], rate: T, with_offset: bool)
    requires
        input@.len() >= if with_offset {
            2 * old(phases)@.len()
        } else {
            old(phases)@.len()
        },
    ensures
        final(phases)@ == advance_spec(old(phases)@, input@, rate, with_offset),
{
    let n = phases.len();
    let mut i: usize = 0;
    while i < n
        invariant
            n == phases@.len(),
            n == old(phases)@.len(),
            input@.len() >= if with_offset {
                    2 * n
            } else {
                n as int
            },
            i <= n,
            forall|c: int|
                0 <= c < i ==> phases@[c] == advance_spec(old(phases)@, input@, rate, with_offset)[c],
            forall|c: int| i <= c < n ==> phases@[c] == old(phases)@[c],
        decreases n - i,
    {
        let dx = T::div(input[i], rate);
        let p = if with_offset {
            wrap(T::add(T::add(phases[i], input[i + n]), dx))
        } else {
            wrap(T::add(phases[i], dx))
        };
        phases.set(i, p);
        i = i + 1;
    }
    assert(phases@ =~= advance_spec(old(phases)@, input@, rate, with_offset));
}

/// A phasor driven by its frequency source.
pub struct Phasor<T> {
    phases: Vec<T>,
    sample_rate: T,
}

/// A phasor driven by frequency and by a phase offset added before the wrap.
pub struct Phasor0<T> {
    phases: Vec<T>,
    sample_rate: T,
}

impl<T: Scalar> Phasor<T> {
    /// The sample rate as a scalar.
    pub closed spec fn rate(&self) -> T {
        self.sample_rate
    }

    pub fn new(channels: usize, sample_rate: usize) -> (r: Self)
        ensures
            r.frame() == Seq::new(channels as nat, |_i: int| zero::<T>()),
            r.rate() == T::from_usize_spec(sample_rate),
    {
        Phasor { phases: filled(channels, T::from_usize(0)), sample_rate: T::from_usize(sample_rate) }
    }
}

impl<T: Scalar> Module<T> for Phasor<T> {
    open spec fn arity(&self) -> u8 {
        1
    }

    closed spec fn frame(&self) -> Seq<T> {
        self.phases@
    }

    open spec fn reads(&self) -> nat {
        self.frame().len()
    }

    open spec fn valid(&self) -> bool {
        true
    }

    open spec fn emits(&self, input: Seq<T>, next: Seq<T>) -> bool {
        next == advance_spec(self.frame(), input, self.rate(), false)
    }

    fn inputs(&self) -> (r: u8) {
        1
    }

    fn output(&self) -> (r: &[T]) {
        self.phases.as_slice()
    }

    fn sample(&mut self, input: &[T])
        ensures
            final(self).rate() == old(self).rate(),
            final(self).frame() == advance_spec(old(self).frame(), input@, old(self).rate(), false),
    {
        advance(&mut self.phases, input, self.sample_rate, false);
    }
}

impl<T: Scalar> Phasor0<T> {
    /// The sample rate as a scalar.
    pub closed spec fn rate(&self) -> T {
        self.sample_rate
    }

    pub fn new(channels: usize, sample_rate: usize) -> (r: Self)
        ensures
            r.frame() == Seq::new(channels as nat, |_i: int| zero::<T>()),
            r.rate() == T::from_usize_spec(sample_rate),
    {
        Phasor0 { phases: filled(channels, T::from_usize(0)), sample_rate: T::from_usize(sample_rate) }
    }
}

impl<T: Scalar> Module<T> for Phasor0<T> {
    open spec fn arity(&self) -> u8 {
        2
    }

    closed spec fn frame(&self) -> Seq<T> {
        self.phases@
    }

    open spec fn reads(&self) -> nat {
        2 * self.frame().len()
    }

    open spec fn valid(&self) -> bool {
        true
    }

    open spec fn emits(&self, input: Seq<T>, next: Seq<T>) -> bool {
        next == advance_spec(self.frame(), input, self.rate(), true)
    }

    fn inputs(&self) -> (r: u8) {
        2
    }

    fn output(&self) -> (r: &[T]) {
        self.phases.as_slice()
    }

    fn sample(&mut self, input: &[T])
        ensures
            final(self).rate() == old(self).rate(),
            final(self).frame() == advance_spec(old(self).frame(), input@, old(self).rate(), true),
    {
        advance(&mut self.phases, input, self.sample_rate, true);
    }
}

} // verus!
