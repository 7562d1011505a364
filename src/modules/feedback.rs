//! A feedback comb filter built on a delay line.
use vstd::prelude::*;
use crate::module::Module;
use crate::modules::delay::{delay_frames_spec, delayed_spec, stepped, Delay};
use crate::modules::filled;
use crate::scalar::{Scalar, zero};

verus! {

/// A feedback comb filter `y = x + gain · delayed(y)`; sources: signal, delay
/// in seconds, gain.
pub struct Feedback<T> {
    channels: usize,
    delay: Delay<T>,
    delay_input: Vec<T>,
    output: Vec<T>,
}

impl<T: Scalar> Feedback<T> {
    /// The delay line that the output is fed back through.
    pub closed spec fn delay(&self) -> Delay<T> {
        self.delay
    }

    pub fn new(channels: usize, sample_rate: usize, max_delay: T) -> (r: Self)
        requires
            delay_frames_spec(sample_rate, max_delay) <= usize::MAX,
            channels * delay_frames_spec(sample_rate, max_delay) <= usize::MAX,
            2 * channels <= usize::MAX,
        ensures
            r.valid(),
            r.frame() == Seq::new(channels as nat, |_i: int| zero::<T>()),
            r.delay().frame() == Seq::new(channels as nat, |_i: int| zero::<T>()),
            r.delay().mask() + 1 == delay_frames_spec(sample_rate, max_delay),
            r.delay().frame_number() == 0,
            r.delay().rate() == T::from_usize_spec(sample_rate),
    {
        let zero = T::from_usize(0);
        Feedback {
            channels,
            delay: Delay::new(channels, sample_rate, max_delay),
            delay_input: filled(2 * channels, zero),
            output: filled(channels, zero),
        }
    }
}

impl<T: Scalar> Feedback<T> {
    /// `new`, where the delay line fits in memory; `None` where it does not.
    pub fn try_new(channels: usize, sample_rate: usize, max_delay: T) -> (r: Option<Self>)
        ensures
            r is Some <==> (delay_frames_spec(sample_rate, max_delay) <= usize::MAX && channels
                * delay_frames_spec(sample_rate, max_delay) <= usize::MAX && 2 * channels
                <= usize::MAX),
            r matches Some(f) ==> f.valid() && f.frame() == Seq::new(
                channels as nat,
                |_i: int| zero::<T>(),
            ) && f.delay().mask() + 1 == delay_frames_spec(sample_rate, max_delay),
    {
        if channels > usize::MAX / 2 {
            return None;
        }
        match Delay::<T>::try_new(channels, sample_rate, max_delay) {
            Some(_) => Some(Feedback::new(channels, sample_rate, max_delay)),
            None => None,
        }
    }
}

impl<T: Scalar> Module<T> for Feedback<T> {
    open spec fn arity(&self) -> u8 {
        3
    }

    closed spec fn frame(&self) -> Seq<T> {
        self.output@
    }

    open spec fn reads(&self) -> nat {
        3 * self.frame().len()
    }

    closed spec fn valid(&self) -> bool {
        &&& self.output@.len() == self.channels
        &&& self.delay_input@.len() == 2 * self.channels
        &&& self.delay.valid()
        &&& self.delay.frame().len() == self.channels
    }

    open spec fn emits(&self, input: Seq<T>, next: Seq<T>) -> bool {
        next == Seq::new(
            self.frame().len(),
            |c: int|
                T::add_spec(
                    input[c],
                    T::mul_spec(
                        input[c + 2 * self.frame().len()],
                        delayed_spec(
                            self.delay().buffer(),
                            self.delay().mask(),
                            self.frame().len() as int,
                            self.delay().frame_number(),
                            self.delay().rate(),
                            self.delay().frame()[c],
                            input[c + self.frame().len()],
                            c,
                        ),
                    ),
                ),
        )
    }

    fn inputs(&self) -> (r: u8) {
        3
    }

    fn output(&self) -> (r: &[T]) {
        self.output.as_slice()
    }

    fn sample(&mut self, input: &[T])
        ensures
            ({
                let n = old(self).frame().len() as int;
                &&& stepped(
                    old(self).delay(),
                    old(self).frame() + input@.subrange(n, 2 * n),
                    final(self).delay(),
                )
                &&& final(self).frame() == Seq::new(
                    n as nat,
                    |c: int|
                        T::add_spec(
                            input@[c],
                            T::mul_spec(input@[c + 2 * n], final(self).delay().frame()[c]),
                        ),
                )
            }),
    {
        let n = self.channels;
        let len = input.len();
        let mut c: usize = 0;
        while c < n
            invariant
                self.valid(),
                n == self.channels,
                self.output == old(self).output,
                self.delay == old(self).delay,
                3 * n <= input@.len(),
                len == input@.len(),
                c <= n,
                forall|c2: int| 0 <= c2 < c ==> self.delay_input@[c2] == self.output@[c2],
                forall|j: int| n <= j < n + c ==> self.delay_input@[j] == input@[j],
            decreases n - c,
        {
            let y = self.output[c];
            self.delay_input.set(c, y);
            self.delay_input.set(c + n, input[c + n]);
            c = c + 1;
        }
        assert(self.delay_input@ =~= old(self).output@ + input@.subrange(n as int, 2 * n as int));
        self.delay.sample(self.delay_input.as_slice());
        let ghost d1 = self.delay;
        let mut c: usize = 0;
        while c < n
            invariant
                self.valid(),
                self.delay == d1,
                n == self.channels,
                3 * n <= input@.len(),
                len == input@.len(),
                c <= n,
                forall|c2: int|
                    0 <= c2 < c ==> self.output@[c2] == T::add_spec(
                        input@[c2],
                        T::mul_spec(input@[c2 + 2 * n], self.delay.frame()[c2]),
                    ),
            decreases n - c,
        {
            let y = T::add(input[c], T::mul(input[c + 2 * n], self.delay.output()[c]));
            self.output.set(c, y);
            c = c + 1;
        }
        assert(self.output@ =~= Seq::new(
            n as nat,
            |c: int| T::add_spec(input@[c], T::mul_spec(input@[c + 2 * n], self.delay.frame()[c])),
        ));
        proof {
            let dinput = old(self).output@ + input@.subrange(n as int, 2 * n as int);
            assert forall|c: int| 0 <= c < n implies self.delay.frame()[c] == delayed_spec(
                old(self).delay.buffer(),
                old(self).delay.mask(),
                n as int,
                old(self).delay.frame_number(),
                old(self).delay.rate(),
                old(self).delay.frame()[c],
                input@[c + n],
                c,
            ) by {
                assert(dinput[c + n] == input@[c + n]);
            }
            assert(self.output@ =~= Seq::new(
                n as nat,
                |c: int|
                    T::add_spec(
                        input@[c],
                        T::mul_spec(
                            input@[c + 2 * n],
                            delayed_spec(
                                old(self).delay.buffer(),
                                old(self).delay.mask(),
                                n as int,
                                old(self).delay.frame_number(),
                                old(self).delay.rate(),
                                old(self).delay.frame()[c],
                                input@[c + n],
                                c,
                            ),
                        ),
                    ),
            ));
        }
    }
}

} // verus!
