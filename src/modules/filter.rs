//! One-pole IIR low-pass and high-pass filters.
use vstd::prelude::*;
use crate::module::Module;
use crate::modules::filled;
use crate::scalar::{Scalar, one, two, zero};

verus! {

/// `2π / sample_rate`: the angle one frame spans at a frequency of one.
pub open spec fn angular_period_spec<T: Scalar>(sample_rate: usize) -> T {
    T::div_spec(T::mul_spec(two(), T::pi_spec()), T::from_usize_spec(sample_rate))
}

pub fn angular_period<T: Scalar>(sample_rate: usize) -> (r: T)
    ensures
        r == angular_period_spec::<T>(sample_rate),
{
    T::div(T::mul(T::from_usize(2), T::pi()), T::from_usize(sample_rate))
}

/// One low-pass step: `k = freq·period`, `a = k/(k + 1)`, `y + a·(x − y)`.
pub open spec fn lpf_spec<T: Scalar>(y: T, x: T, freq: T, period: T) -> T {
    let k = T::mul_spec(freq, period);
    let a = T::div_spec(k, T::add_spec(k, one()));
    T::add_spec(y, T::mul_spec(a, T::sub_spec(x, y)))
}

/// One high-pass step with previous input `xp`: `a = 1/(k + 1)`, `a·(y + x − xp)`.
pub open spec fn hpf_spec<T: Scalar>(y: T, x: T, xp: T, freq: T, period: T) -> T {
    let k = T::mul_spec(freq, period);
    let a = T::div_spec(one(), T::add_spec(k, one()));
    T::mul_spec(a, T::sub_spec(T::add_spec(y, x), xp))
}

/// A one-pole low-pass filter; sources: signal, cut-off frequency.
pub struct LPF<T> {
    output: Vec<T>,
    sample_angular_period: T,
}

impl<T: Scalar> LPF<T> {
    /// `2π / sample_rate`.
    pub closed spec fn period(&self) -> T {
        self.sample_angular_period
    }

    pub fn new(channels: usize, sample_rate: usize) -> (r: Self)
        ensures
            r.frame() == Seq::new(channels as nat, |_i: int| zero::<T>()),
            r.period() == angular_period_spec::<T>(sample_rate),
    {
        LPF {
            output: filled(channels, T::from_usize(0)),
            sample_angular_period: angular_period(sample_rate),
        }
    }
}

impl<T: Scalar> Module<T> for LPF<T> {
    open spec fn arity(&self) -> u8 {
        2
    }

    closed spec fn frame(&self) -> Seq<T> {
        self.output@
    }

    open spec fn reads(&self) -> nat {
        2 * self.frame().len()
    }

    open spec fn valid(&self) -> bool {
        true
    }

    open spec fn emits(&self, input: Seq<T>, next: Seq<T>) -> bool {
        next == Seq::new(
            self.frame().len(),
            |c: int|
                lpf_spec(self.frame()[c], input[c], input[c + self.frame().len()], self.period()),
        )
    }

    fn inputs(&self) -> (r: u8) {
        2
    }

    fn output(&self) -> (r: &[T]) {
        self.output.as_slice()
    }

    fn sample(&mut self, input: &[T])
        ensures
            final(self).period() == old(self).period(),
            final(self).frame() == Seq::new(
                old(self).frame().len(),
                |c: int|
                    lpf_spec(
                        old(self).frame()[c],
                        input@[c],
                        input@[c + old(self).frame().len()],
                        old(self).period(),
                    ),
            ),
    {
        let n = self.output.len();
        let len = input.len();
        let p = self.sample_angular_period;
        let mut i: usize = 0;
        while i < n
            invariant
                n == self.output@.len(),
                n == old(self).output@.len(),
                2 * n <= input@.len(),
                len == input@.len(),
                p == self.sample_angular_period,
                p == old(self).sample_angular_period,
                i <= n,
                forall|c: int|
                    0 <= c < i ==> self.output@[c] == lpf_spec(
                        old(self).output@[c],
                        input@[c],
                        input@[c + n],
                        p,
                    ),
                forall|c: int| i <= c < n ==> self.output@[c] == old(self).output@[c],
            decreases n - i,
        {
            let y = self.output[i];
            let x = input[i];
            let k = T::mul(input[i + n], p);
            let a = T::div(k, T::add(k, T::from_usize(1)));
            self.output.set(i, T::add(y, T::mul(a, T::sub(x, y))));
            i = i + 1;
        }
        assert(self.output@ =~= Seq::new(
            n as nat,
            |c: int| lpf_spec(old(self).output@[c], input@[c], input@[c + n], p),
        ));
    }
}

/// A one-pole high-pass filter; sources: signal, cut-off frequency.
pub struct HPF<T> {
    output: Vec<T>,
    sample_angular_period: T,
    x_prime: Vec<T>,
}

impl<T: Scalar> HPF<T> {
    /// `2π / sample_rate`.
    pub closed spec fn period(&self) -> T {
        self.sample_angular_period
    }

    /// The previous input frame.
    pub closed spec fn previous(&self) -> Seq<T> {
        self.x_prime@
    }

    pub fn new(channels: usize, sample_rate: usize) -> (r: Self)
        ensures
            r.valid(),
            r.frame() == Seq::new(channels as nat, |_i: int| zero::<T>()),
            r.previous() == Seq::new(channels as nat, |_i: int| zero::<T>()),
            r.period() == angular_period_spec::<T>(sample_rate),
    {
        HPF {
            output: filled(channels, T::from_usize(0)),
            sample_angular_period: angular_period(sample_rate),
            x_prime: filled(channels, T::from_usize(0)),
        }
    }
}

impl<T: Scalar> Module<T> for HPF<T> {
    open spec fn arity(&self) -> u8 {
        2
    }

    closed spec fn frame(&self) -> Seq<T> {
        self.output@
    }

    open spec fn reads(&self) -> nat {
        2 * self.frame().len()
    }

    closed spec fn valid(&self) -> bool {
        self.x_prime@.len() == self.output@.len()
    }

    open spec fn emits(&self, input: Seq<T>, next: Seq<T>) -> bool {
        next == Seq::new(
            self.frame().len(),
            |c: int|
                hpf_spec(
                    self.frame()[c],
                    input[c],
                    self.previous()[c],
                    input[c + self.frame().len()],
                    self.period(),
                ),
        )
    }

    fn inputs(&self) -> (r: u8) {
        2
    }

    fn output(&self) -> (r: &[T]) {
        self.output.as_slice()
    }

    fn sample(&mut self, input: &[T])
        ensures
            final(self).period() == old(self).period(),
            final(self).previous() == input@.take(old(self).frame().len() as int),
            final(self).frame() == Seq::new(
                old(self).frame().len(),
                |c: int|
                    hpf_spec(
                        old(self).frame()[c],
                        input@[c],
                        old(self).previous()[c],
                        input@[c + old(self).frame().len()],
                        old(self).period(),
                    ),
            ),
    {
        let n = self.output.len();
        let len = input.len();
        let p = self.sample_angular_period;
        let mut i: usize = 0;
        while i < n
            invariant
                n == self.output@.len(),
                n == old(self).output@.len(),
                n == self.x_prime@.len(),
                2 * n <= input@.len(),
                len == input@.len(),
                p == self.sample_angular_period,
                p == old(self).sample_angular_period,
                i <= n,
                forall|c: int|
                    0 <= c < i ==> self.output@[c] == hpf_spec(
                        old(self).output@[c],
                        input@[c],
                        old(self).x_prime@[c],
                        input@[c + n],
                        p,
                    ),
                forall|c: int| 0 <= c < i ==> self.x_prime@[c] == input@[c],
                forall|c: int| i <= c < n ==> self.output@[c] == old(self).output@[c],
                forall|c: int| i <= c < n ==> self.x_prime@[c] == old(self).x_prime@[c],
            decreases n - i,
        {
            let y = self.output[i];
            let x = input[i];
            let xp = self.x_prime[i];
            let k = T::mul(input[i + n], p);
            let a = T::div(T::from_usize(1), T::add(k, T::from_usize(1)));
            self.output.set(i, T::mul(a, T::sub(T::add(y, x), xp)));
            self.x_prime.set(i, x);
            i = i + 1;
        }
        assert(self.output@ =~= Seq::new(
            n as nat,
            |c: int| hpf_spec(old(self).output@[c], input@[c], old(self).x_prime@[c], input@[c + n], p),
        ));
        assert(self.x_prime@ =~= input@.take(n as int));
    }
}

} // verus!
