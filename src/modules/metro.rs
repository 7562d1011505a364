//! Metronomes: spikes of 1 at a rate given by a frequency or a period.
use vstd::prelude::*;
use crate::module::Module;
use crate::modules::filled;
use crate::scalar::{Scalar, one, zero};

verus! {

/// How a metronome turns its input into a period in frames.
#[derive(Clone, Copy, Debug, PartialEq, Eq, Structural)]
pub enum Rate {
    /// The input is a frequency: `sample_rate / input` frames.
    Frequency,
    /// The input is a period in seconds: `sample_rate · input` frames.
    Period,
}

/// The period in frames for input `x`, as a scalar.
pub open spec fn period_spec<T: Scalar>(rate: Rate, sample_rate: T, x: T) -> T {
    match rate {
        Rate::Frequency => T::div_spec(sample_rate, x),
        Rate::Period => T::mul_spec(sample_rate, x),
    }
}

/// At least a period for input `x` has passed in `elapsed` frames.
pub open spec fn reached_spec<T: Scalar>(rate: Rate, sample_rate: T, x: T, elapsed: u64) -> bool {
    T::le_spec(period_spec(rate, sample_rate, x), T::from_u64_spec(elapsed))
}

fn reached<T: Scalar>(rate: Rate, sample_rate: T, x: T, elapsed: u64) -> (r: bool)
    ensures
        r == reached_spec(rate, sample_rate, x, elapsed),
{
    let period = match rate {
        Rate::Frequency => T::div(sample_rate, x),
        Rate::Period => T::mul(sample_rate, x),
    };
    T::le(period, T::from_u64(elapsed))
}

/// The frame count after one more frame, saturating at the largest `u64`.
pub open spec fn next_count(n: u64) -> u64 {
    if n < u64::MAX {
        (n + 1) as u64
    } else {
        n
    }
}

/// The per-channel state of a metronome.
pub struct Beat<T> {
    pub output: T,
    pub last_trigger: u64,
    /// The rate latched at the last fire (holding metronomes only).
    pub held: T,
}

/// One channel of a metronome after one frame: it fires when the frames since
/// the last fire are at least the period, compared as scalars. A holding metronome measures the
/// period with the input latched at the last fire (the first non-zero input
/// before any), and latches the new input when it fires.
pub open spec fn beat_spec<T: Scalar>(
    rate: Rate,
    hold: bool,
    sample_rate: T,
    frame: u64,
    b: Beat<T>,
    x: T,
) -> Beat<T> {
    let held = if hold && T::eq_spec(b.held, zero()) {
        x
    } else {
        b.held
    };
    if reached_spec(rate, sample_rate, if hold {
        held
    } else {
        x
    }, (frame - b.last_trigger) as u64) {
        Beat { output: one(), last_trigger: frame, held: if hold {
            x
        } else {
            held
        } }
    } else {
        Beat { output: zero(), last_trigger: b.last_trigger, held }
    }
}

/// The metronome shared by `Metro`, `DMetro`, `MetroHold` and `DMetroHold`.
pub struct Metronome<T> {
    rate: Rate,
    hold: bool,
    output: Vec<T>,
    last_trigger: Vec<u64>,
    held: Vec<T>,
    frame_number: u64,
    sample_rate: T,
}

impl<T: Scalar> Metronome<T> {
    /// The state of channel `c`.
    pub closed spec fn beat(&self, c: int) -> Beat<T> {
        Beat { output: self.output@[c], last_trigger: self.last_trigger@[c], held: self.held@[c] }
    }

    /// The frames counted so far.
    pub closed spec fn frame_number(&self) -> u64 {
        self.frame_number
    }

    /// The sample rate as a scalar.
    pub closed spec fn rate(&self) -> T {
        self.sample_rate
    }

    /// What the input means.
    pub closed spec fn kind(&self) -> Rate {
        self.rate
    }

    /// Whether the rate is latched between fires.
    pub closed spec fn holds(&self) -> bool {
        self.hold
    }

    pub closed spec fn frame(&self) -> Seq<T> {
        self.output@
    }

    pub closed spec fn valid(&self) -> bool {
        &&& self.last_trigger@.len() == self.output@.len()
        &&& self.held@.len() == self.output@.len()
        &&& forall|c: int| 0 <= c < self.output@.len() ==> self.last_trigger@[c] <= self.frame_number
    }

    pub fn new(channels: usize, sample_rate: usize, rate: Rate, hold: bool) -> (r: Self)
        ensures
            r.valid(),
            r.frame() == Seq::new(channels as nat, |_i: int| zero::<T>()),
            r.frame_number() == 0,
            r.rate() == T::from_usize_spec(sample_rate),
            r.kind() == rate,
            r.holds() == hold,
            forall|c: int|
                0 <= c < channels ==> #[trigger] r.beat(c) == (Beat {
                    output: zero::<T>(),
                    last_trigger: 0,
                    held: zero::<T>(),
                }),
    {
        let zero = T::from_usize(0);
        Metronome {
            rate,
            hold,
            output: filled(channels, zero),
            last_trigger: filled(channels, 0u64),
            held: filled(channels, zero),
            frame_number: 0,
            sample_rate: T::from_usize(sample_rate),
        }
    }

    /// Advances every channel by one frame; the frame count saturates at the
    /// largest `u64`.
    pub fn step(&mut self, input: &[T])
        requires
            old(self).valid(),
            input@.len() >= old(self).frame().len(),
        ensures
            final(self).valid(),
            final(self).frame().len() == old(self).frame().len(),
            final(self).rate() == old(self).rate(),
            final(self).kind() == old(self).kind(),
            final(self).holds() == old(self).holds(),
            final(self).frame_number() == next_count(old(self).frame_number()),
            forall|c: int|
                0 <= c < old(self).frame().len() ==> #[trigger] final(self).beat(c) == beat_spec(
                    old(self).kind(),
                    old(self).holds(),
                    old(self).rate(),
                    old(self).frame_number(),
                    old(self).beat(c),
                    input@[c],
                ),
    {
        let n = self.output.len();
        let frame = self.frame_number;
        let mut i: usize = 0;
        while i < n
            invariant
                n == self.output@.len(),
                n == old(self).output@.len(),
                n == self.last_trigger@.len(),
                n == self.held@.len(),
                n <= input@.len(),
                frame == self.frame_number,
                frame == old(self).frame_number,
                self.rate == old(self).rate,
                self.hold == old(self).hold,
                self.sample_rate == old(self).sample_rate,
                old(self).valid(),
                i <= n,
                forall|c: int|
                    0 <= c < i ==> #[trigger] self.beat(c) == beat_spec(
                        old(self).rate,
                        old(self).hold,
                        old(self).sample_rate,
                        frame,
                        old(self).beat(c),
                        input@[c],
                    ),
                forall|c: int| i <= c < n ==> #[trigger] self.beat(c) == old(self).beat(c),
                forall|c: int| 0 <= c < n ==> self.last_trigger@[c] <= frame,
            decreases n - i,
        {
            let ghost before = *self;
            let x = input[i];
            let last = self.last_trigger[i];
            let mut held = self.held[i];
            if self.hold && T::eq(held, T::from_usize(0)) {
                held = x;
            }
            let fire = reached(self.rate, self.sample_rate, if self.hold {
                held
            } else {
                x
            }, frame - last);
            assert(self.beat(i as int) == old(self).beat(i as int));
            if fire {
                self.output.set(i, T::from_usize(1));
                self.last_trigger.set(i, frame);
                self.held.set(i, if self.hold {
                    x
                } else {
                    held
                });
            } else {
                self.output.set(i, T::from_usize(0));
                self.held.set(i, held);
            }
            assert(self.beat(i as int) == beat_spec(
                old(self).rate,
                old(self).hold,
                old(self).sample_rate,
                frame,
                old(self).beat(i as int),
                input@[i as int],
            ));
            proof {
                assert forall|c: int| 0 <= c < n && c != i implies #[trigger] self.beat(c)
                    == before.beat(c) by {
                    assert(self.output@[c] == before.output@[c]);
                    assert(self.last_trigger@[c] == before.last_trigger@[c]);
                    assert(self.held@[c] == before.held@[c]);
                }
            }
            i = i + 1;
        }
        let ghost pre = *self;
        self.frame_number = self.frame_number.saturating_add(1);
        assert forall|c: int| 0 <= c < n implies #[trigger] self.beat(c) == pre.beat(c) by {}
    }
}

/// Fires every `sample_rate / frequency` frames; source: frequency.
pub struct Metro<T> {
    inner: Metronome<T>,
}

/// Fires every `sample_rate · period` frames; source: period in seconds.
pub struct DMetro<T> {
    inner: Metronome<T>,
}

/// `Metro` with the frequency latched at each fire.
pub struct MetroHold<T> {
    inner: Metronome<T>,
}

/// `DMetro` with the period latched at each fire.
pub struct DMetroHold<T> {
    inner: Metronome<T>,
}

impl<T: Scalar> Metro<T> {
    /// The metronome inside.
    pub closed spec fn metronome(&self) -> Metronome<T> {
        self.inner
    }

    pub fn new(channels: usize, sample_rate: usize) -> (r: Self)
        ensures
            r.valid(),
            r.frame() == Seq::new(channels as nat, |_i: int| zero::<T>()),
            r.metronome().frame_number() == 0,
            r.metronome().rate() == T::from_usize_spec(sample_rate),
            r.metronome().kind() == Rate::Frequency,
            r.metronome().holds() == false,
            forall|c: int|
                0 <= c < channels ==> #[trigger] r.metronome().beat(c) == (Beat {
                    output: zero::<T>(),
                    last_trigger: 0,
                    held: zero::<T>(),
                }),
    {
        Metro { inner: Metronome::new(channels, sample_rate, Rate::Frequency, false) }
    }
}

impl<T: Scalar> Module<T> for Metro<T> {
    open spec fn arity(&self) -> u8 {
        1
    }

    closed spec fn frame(&self) -> Seq<T> {
        self.inner.frame()
    }

    open spec fn reads(&self) -> nat {
        self.frame().len()
    }

    closed spec fn valid(&self) -> bool {
        self.inner.valid() && self.inner.kind() == Rate::Frequency && self.inner.holds() == false
    }

    open spec fn emits(&self, input: Seq<T>, next: Seq<T>) -> bool {
        next == Seq::new(
            self.frame().len(),
            |c: int|
                beat_spec(
                    Rate::Frequency,
                    false,
                    self.metronome().rate(),
                    self.metronome().frame_number(),
                    self.metronome().beat(c),
                    input[c],
                ).output,
        )
    }

    fn inputs(&self) -> (r: u8) {
        1
    }

    fn output(&self) -> (r: &[T]) {
        self.inner.output.as_slice()
    }

    fn sample(&mut self, input: &[T])
        ensures
            final(self).metronome().rate() == old(self).metronome().rate(),
            final(self).metronome().frame_number() == next_count(old(self).metronome().frame_number()),
            forall|c: int|
                0 <= c < old(self).frame().len() ==> #[trigger] final(self).metronome().beat(c)
                    == beat_spec(
                    Rate::Frequency,
                    false,
                    old(self).metronome().rate(),
                    old(self).metronome().frame_number(),
                    old(self).metronome().beat(c),
                    input@[c],
                ),
    {
        self.inner.step(input);
        assert(self.inner.output@ =~= Seq::new(
            old(self).inner.output@.len(),
            |c: int|
                beat_spec(
                    Rate::Frequency,
                    false,
                    old(self).inner.sample_rate,
                    old(self).inner.frame_number,
                    old(self).inner.beat(c),
                    input@[c],
                ).output,
        )) by {
            assert forall|c: int| 0 <= c < old(self).inner.output@.len() implies self.inner.output@[c]
                == beat_spec(
                Rate::Frequency,
                false,
                old(self).inner.sample_rate,
                old(self).inner.frame_number,
                old(self).inner.beat(c),
                input@[c],
            ).output by {
                assert(self.inner.beat(c) == beat_spec(
                    Rate::Frequency,
                    false,
                    old(self).inner.sample_rate,
                    old(self).inner.frame_number,
                    old(self).inner.beat(c),
                    input@[c],
                ));
            }
        }
    }
}

impl<T: Scalar> DMetro<T> {
    /// The metronome inside.
    pub closed spec fn metronome(&self) -> Metronome<T> {
        self.inner
    }

    pub fn new(channels: usize, sample_rate: usize) -> (r: Self)
        ensures
            r.valid(),
            r.frame() == Seq::new(channels as nat, |_i: int| zero::<T>()),
            r.metronome().frame_number() == 0,
            r.metronome().rate() == T::from_usize_spec(sample_rate),
            r.metronome().kind() == Rate::Period,
            r.metronome().holds() == false,
            forall|c: int|
                0 <= c < channels ==> #[trigger] r.metronome().beat(c) == (Beat {
                    output: zero::<T>(),
                    last_trigger: 0,
                    held: zero::<T>(),
                }),
    {
        DMetro { inner: Metronome::new(channels, sample_rate, Rate::Period, false) }
    }
}

impl<T: Scalar> Module<T> for DMetro<T> {
    open spec fn arity(&self) -> u8 {
        1
    }

    closed spec fn frame(&self) -> Seq<T> {
        self.inner.frame()
    }

    open spec fn reads(&self) -> nat {
        self.frame().len()
    }

    closed spec fn valid(&self) -> bool {
        self.inner.valid() && self.inner.kind() == Rate::Period && self.inner.holds() == false
    }

    open spec fn emits(&self, input: Seq<T>, next: Seq<T>) -> bool {
        next == Seq::new(
            self.frame().len(),
            |c: int|
                beat_spec(
                    Rate::Period,
                    false,
                    self.metronome().rate(),
                    self.metronome().frame_number(),
                    self.metronome().beat(c),
                    input[c],
                ).output,
        )
    }

    fn inputs(&self) -> (r: u8) {
        1
    }

    fn output(&self) -> (r: &[T]) {
        self.inner.output.as_slice()
    }

    fn sample(&mut self, input: &[T])
        ensures
            final(self).metronome().rate() == old(self).metronome().rate(),
            final(self).metronome().frame_number() == next_count(old(self).metronome().frame_number()),
            forall|c: int|
                0 <= c < old(self).frame().len() ==> #[trigger] final(self).metronome().beat(c)
                    == beat_spec(
                    Rate::Period,
                    false,
                    old(self).metronome().rate(),
                    old(self).metronome().frame_number(),
                    old(self).metronome().beat(c),
                    input@[c],
                ),
    {
        self.inner.step(input);
        assert(self.inner.output@ =~= Seq::new(
            old(self).inner.output@.len(),
            |c: int|
                beat_spec(
                    Rate::Period,
                    false,
                    old(self).inner.sample_rate,
                    old(self).inner.frame_number,
                    old(self).inner.beat(c),
                    input@[c],
                ).output,
        )) by {
            assert forall|c: int| 0 <= c < old(self).inner.output@.len() implies self.inner.output@[c]
                == beat_spec(
                Rate::Period,
                false,
                old(self).inner.sample_rate,
                old(self).inner.frame_number,
                old(self).inner.beat(c),
                input@[c],
            ).output by {
                assert(self.inner.beat(c) == beat_spec(
                    Rate::Period,
                    false,
                    old(self).inner.sample_rate,
                    old(self).inner.frame_number,
                    old(self).inner.beat(c),
                    input@[c],
                ));
            }
        }
    }
}

impl<T: Scalar> MetroHold<T> {
    /// The metronome inside.
    pub closed spec fn metronome(&self) -> Metronome<T> {
        self.inner
    }

    pub fn new(channels: usize, sample_rate: usize) -> (r: Self)
        ensures
            r.valid(),
            r.frame() == Seq::new(channels as nat, |_i: int| zero::<T>()),
            r.metronome().frame_number() == 0,
            r.metronome().rate() == T::from_usize_spec(sample_rate),
            r.metronome().kind() == Rate::Frequency,
            r.metronome().holds() == true,
            forall|c: int|
                0 <= c < channels ==> #[trigger] r.metronome().beat(c) == (Beat {
                    output: zero::<T>(),
                    last_trigger: 0,
                    held: zero::<T>(),
                }),
    {
        MetroHold { inner: Metronome::new(channels, sample_rate, Rate::Frequency, true) }
    }
}

impl<T: Scalar> Module<T> for MetroHold<T> {
    open spec fn arity(&self) -> u8 {
        1
    }

    closed spec fn frame(&self) -> Seq<T> {
        self.inner.frame()
    }

    open spec fn reads(&self) -> nat {
        self.frame().len()
    }

    closed spec fn valid(&self) -> bool {
        self.inner.valid() && self.inner.kind() == Rate::Frequency && self.inner.holds() == true
    }

    open spec fn emits(&self, input: Seq<T>, next: Seq<T>) -> bool {
        next == Seq::new(
            self.frame().len(),
            |c: int|
                beat_spec(
                    Rate::Frequency,
                    true,
                    self.metronome().rate(),
                    self.metronome().frame_number(),
                    self.metronome().beat(c),
                    input[c],
                ).output,
        )
    }

    fn inputs(&self) -> (r: u8) {
        1
    }

    fn output(&self) -> (r: &[T]) {
        self.inner.output.as_slice()
    }

    fn sample(&mut self, input: &[T])
        ensures
            final(self).metronome().rate() == old(self).metronome().rate(),
            final(self).metronome().frame_number() == next_count(old(self).metronome().frame_number()),
            forall|c: int|
                0 <= c < old(self).frame().len() ==> #[trigger] final(self).metronome().beat(c)
                    == beat_spec(
                    Rate::Frequency,
                    true,
                    old(self).metronome().rate(),
                    old(self).metronome().frame_number(),
                    old(self).metronome().beat(c),
                    input@[c],
                ),
    {
        self.inner.step(input);
        assert(self.inner.output@ =~= Seq::new(
            old(self).inner.output@.len(),
            |c: int|
                beat_spec(
                    Rate::Frequency,
                    true,
                    old(self).inner.sample_rate,
                    old(self).inner.frame_number,
                    old(self).inner.beat(c),
                    input@[c],
                ).output,
        )) by {
            assert forall|c: int| 0 <= c < old(self).inner.output@.len() implies self.inner.output@[c]
                == beat_spec(
                Rate::Frequency,
                true,
                old(self).inner.sample_rate,
                old(self).inner.frame_number,
                old(self).inner.beat(c),
                input@[c],
            ).output by {
                assert(self.inner.beat(c) == beat_spec(
                    Rate::Frequency,
                    true,
                    old(self).inner.sample_rate,
                    old(self).inner.frame_number,
                    old(self).inner.beat(c),
                    input@[c],
                ));
            }
        }
    }
}

impl<T: Scalar> DMetroHold<T> {
    /// The metronome inside.
    pub closed spec fn metronome(&self) -> Metronome<T> {
        self.inner
    }

    pub fn new(channels: usize, sample_rate: usize) -> (r: Self)
        ensures
            r.valid(),
            r.frame() == Seq::new(channels as nat, |_i: int| zero::<T>()),
            r.metronome().frame_number() == 0,
            r.metronome().rate() == T::from_usize_spec(sample_rate),
            r.metronome().kind() == Rate::Period,
            r.metronome().holds() == true,
            forall|c: int|
                0 <= c < channels ==> #[trigger] r.metronome().beat(c) == (Beat {
                    output: zero::<T>(),
                    last_trigger: 0,
                    held: zero::<T>(),
                }),
    {
        DMetroHold { inner: Metronome::new(channels, sample_rate, Rate::Period, true) }
    }
}

impl<T: Scalar> Module<T> for DMetroHold<T> {
    open spec fn arity(&self) -> u8 {
        1
    }

    closed spec fn frame(&self) -> Seq<T> {
        self.inner.frame()
    }

    open spec fn reads(&self) -> nat {
        self.frame().len()
    }

    closed spec fn valid(&self) -> bool {
        self.inner.valid() && self.inner.kind() == Rate::Period && self.inner.holds() == true
    }

    open spec fn emits(&self, input: Seq<T>, next: Seq<T>) -> bool {
        next == Seq::new(
            self.frame().len(),
            |c: int|
                beat_spec(
                    Rate::Period,
                    true,
                    self.metronome().rate(),
                    self.metronome().frame_number(),
                    self.metronome().beat(c),
                    input[c],
                ).output,
        )
    }

    fn inputs(&self) -> (r: u8) {
        1
    }

    fn output(&self) -> (r: &[T]) {
        self.inner.output.as_slice()
    }

    fn sample(&mut self, input: &[T])
        ensures
            final(self).metronome().rate() == old(self).metronome().rate(),
            final(self).metronome().frame_number() == next_count(old(self).metronome().frame_number()),
            forall|c: int|
                0 <= c < old(self).frame().len() ==> #[trigger] final(self).metronome().beat(c)
                    == beat_spec(
                    Rate::Period,
                    true,
                    old(self).metronome().rate(),
                    old(self).metronome().frame_number(),
                    old(self).metronome().beat(c),
                    input@[c],
                ),
    {
        self.inner.step(input);
        assert(self.inner.output@ =~= Seq::new(
            old(self).inner.output@.len(),
            |c: int|
                beat_spec(
                    Rate::Period,
                    true,
                    old(self).inner.sample_rate,
                    old(self).inner.frame_number,
                    old(self).inner.beat(c),
                    input@[c],
                ).output,
        )) by {
            assert forall|c: int| 0 <= c < old(self).inner.output@.len() implies self.inner.output@[c]
                == beat_spec(
                Rate::Period,
                true,
                old(self).inner.sample_rate,
                old(self).inner.frame_number,
                old(self).inner.beat(c),
                input@[c],
            ).output by {
                assert(self.inner.beat(c) == beat_spec(
                    Rate::Period,
                    true,
                    old(self).inner.sample_rate,
                    old(self).inner.frame_number,
                    old(self).inner.beat(c),
                    input@[c],
                ));
            }
        }
    }
}

} // verus!
