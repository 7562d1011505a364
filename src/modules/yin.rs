//! The Yin pitch detector; source: the signal whose pitch is tracked.
use vstd::prelude::*;
use std::collections::VecDeque;
use crate::module::Module;
use crate::modules::filled;
use crate::scalar::{Scalar, one, two, zero};

verus! {

/// `Σ_{i < count} (w[i] − w[i + tau])²`, summed from left to right.
pub open spec fn squared_difference<T: Scalar>(w: Seq<T>, tau: int, count: nat) -> T
    decreases count,
{
    if count == 0 {
        zero()
    } else {
        let i = count - 1;
        let d = T::sub_spec(w[i], w[i + tau]);
        T::add_spec(squared_difference(w, tau, (count - 1) as nat), T::mul_spec(d, d))
    }
}

/// The difference function of window `w` over the first `len` lags; lag 0 keeps `b0`.
pub open spec fn differences<T: Scalar>(w: Seq<T>, b0: T, len: nat) -> Seq<T> {
    Seq::new(len, |tau: int| if tau == 0 {
        b0
    } else {
        squared_difference(w, tau, len)
    })
}

/// `b[1] + … + b[tau]`, summed from left to right.
pub open spec fn running_sum<T: Scalar>(b: Seq<T>, tau: int) -> T
    decreases tau,
{
    if tau <= 0 {
        zero()
    } else {
        T::add_spec(running_sum(b, tau - 1), b[tau])
    }
}

/// The cumulative mean normalized difference: `d[0] = 1`, `d[τ] = b[τ]·τ / Σ b[1..τ]`.
pub open spec fn normalized<T: Scalar>(b: Seq<T>) -> Seq<T> {
    Seq::new(b.len(), |tau: int| if tau == 0 {
        one()
    } else {
        T::mul_spec(b[tau], T::div_spec(T::from_usize_spec(tau as usize), running_sum(b, tau)))
    })
}

/// The first lag at or after `t` whose value is below `th`, or the length.
pub open spec fn first_below<T: Scalar>(b: Seq<T>, th: T, t: int) -> int
    decreases b.len() - t,
{
    if t >= b.len() || T::lt_spec(b[t], th) {
        t
    } else {
        first_below(b, th, t + 1)
    }
}

/// From lag `t`, the lag where the values stop decreasing.
pub open spec fn descend<T: Scalar>(b: Seq<T>, t: int) -> int
    decreases b.len() - t,
{
    if t + 1 < b.len() && T::lt_spec(b[t + 1], b[t]) {
        descend(b, t + 1)
    } else {
        t
    }
}

/// The smallest lag from 2 on that is below the threshold, moved on to the
/// local minimum after it; `None` where there is none.
pub open spec fn threshold_spec<T: Scalar>(b: Seq<T>, th: T) -> Option<usize> {
    let t = descend(b, first_below(b, th, 2));
    if t >= b.len() || T::le_spec(th, b[t]) {
        None
    } else {
        Some(t as usize)
    }
}

/// The lag `x1` refined by a parabola through its neighbours.
pub open spec fn parabolic_spec<T: Scalar>(b: Seq<T>, x1: int) -> T {
    let s0 = b[x1 - 1];
    let s1 = b[x1];
    if x1 + 1 < b.len() {
        let s2 = b[x1 + 1];
        let d = T::sub_spec(T::sub_spec(T::mul_spec(two(), s1), s2), s0);
        let delta = T::sub_spec(s2, s0);
        T::add_spec(
            T::from_usize_spec(x1 as usize),
            if !T::eq_spec(d, zero()) {
                T::div_spec(delta, T::mul_spec(two(), d))
            } else {
                zero()
            },
        )
    } else if T::lt_spec(s0, s1) {
        T::from_usize_spec((x1 - 1) as usize)
    } else {
        T::from_usize_spec(x1 as usize)
    }
}

/// The pitch estimated from window `w`: the sample rate over the refined lag,
/// or zero where no lag is below the threshold.
pub open spec fn pitch_spec<T: Scalar>(w: Seq<T>, len: nat, th: T, rate: T) -> T {
    let b = normalized(differences(w, zero(), len));
    match threshold_spec(b, th) {
        Some(t) => T::div_spec(rate, parabolic_spec(b, t as int)),
        None => zero(),
    }
}

proof fn lemma_running_sum_skips_first<T: Scalar>(b: Seq<T>, x: T, tau: int)
    requires
        0 <= tau < b.len(),
    ensures
        running_sum(b.update(0, x), tau) == running_sum(b, tau),
    decreases tau,
{
    if tau > 0 {
        lemma_running_sum_skips_first(b, x, tau - 1);
    }
}

proof fn lemma_normalized_skips_first<T: Scalar>(b: Seq<T>, x: T)
    requires
        b.len() > 0,
    ensures
        normalized(b.update(0, x)) == normalized(b),
{
    assert forall|tau: int| 0 <= tau < b.len() implies normalized(b.update(0, x))[tau]
        == normalized(b)[tau] by {
        lemma_running_sum_skips_first(b, x, tau);
    }
    assert(normalized(b.update(0, x)) =~= normalized(b));
}

/// Tracks the pitch of each channel over a sliding window, every `period` frames.
pub struct Yin<T> {
    buffer: Vec<T>,
    channels: usize,
    output: Vec<T>,
    period: usize,
    frame_number: usize,
    sample_rate: T,
    threshold: T,
    windows: Vec<VecDeque<T>>,
}

impl<T: Scalar> Yin<T> {
    /// The window of each channel, oldest scalar first.
    pub closed spec fn windows(&self) -> Seq<Seq<T>> {
        self.windows@.map_values(|w: VecDeque<T>| w@)
    }

    /// How many lags are examined: half the window.
    pub closed spec fn lags(&self) -> nat {
        self.buffer@.len()
    }

    pub closed spec fn threshold(&self) -> T {
        self.threshold
    }

    pub closed spec fn rate(&self) -> T {
        self.sample_rate
    }

    pub closed spec fn period(&self) -> nat {
        self.period as nat
    }

    pub closed spec fn frame_number(&self) -> usize {
        self.frame_number
    }

    pub fn new(channels: usize, sample_rate: usize, window_size: usize, period: usize, threshold: T) -> (r: Self)
        requires
            window_size >= 1,
            period >= 1,
        ensures
            r.valid(),
            r.frame() == Seq::new(channels as nat, |_i: int| zero::<T>()),
            r.windows() == Seq::new(
                channels as nat,
                |_c: int| Seq::new(window_size as nat, |_i: int| zero::<T>()),
            ),
            r.lags() == window_size / 2,
            r.threshold() == threshold,
            r.rate() == T::from_usize_spec(sample_rate),
            r.period() == period,
            r.frame_number() == 0,
    {
        let z = T::from_usize(0);
        let mut windows: Vec<VecDeque<T>> = Vec::with_capacity(channels);
        let mut c: usize = 0;
        while c < channels
            invariant
                c <= channels,
                windows@.len() == c,
                forall|k: int|
                    0 <= k < c ==> (#[trigger] windows@[k])@ == Seq::new(
                        window_size as nat,
                        |_i: int| z,
                    ),
            decreases channels - c,
        {
            let mut window: VecDeque<T> = VecDeque::with_capacity(window_size);
            let mut i: usize = 0;
            while i < window_size
                invariant
                    i <= window_size,
                    window@ == Seq::new(i as nat, |_i: int| z),
                decreases window_size - i,
            {
                window.push_back(z);
                i = i + 1;
            }
            windows.push(window);
            c = c + 1;
        }
        let r = Yin {
            buffer: filled(window_size / 2, z),
            channels,
            output: filled(channels, z),
            period,
            frame_number: 0,
            sample_rate: T::from_usize(sample_rate),
            threshold,
            windows,
        };
        assert(r.windows() =~= Seq::new(
            channels as nat,
            |_c: int| Seq::new(window_size as nat, |_i: int| zero::<T>()),
        ));
        r
    }

    /// Fills the lags from 1 on with the difference function of window `channel`.
    fn difference(&mut self, channel: usize)
        requires
            old(self).valid(),
            channel < old(self).channels,
        ensures
            final(self).valid(),
            final(self).buffer@ == differences(
                old(self).windows()[channel as int],
                old(self).buffer@[0],
                old(self).buffer@.len(),
            ),
            final(self).windows@ == old(self).windows@,
            final(self).output@ == old(self).output@,
            final(self).frame_number == old(self).frame_number,
            final(self).channels == old(self).channels,
            final(self).period == old(self).period,
            final(self).sample_rate == old(self).sample_rate,
            final(self).threshold == old(self).threshold,
    {
        let len = self.buffer.len();
        if len == 0 {
            assert(self.buffer@ =~= differences(
                old(self).windows()[channel as int],
                old(self).buffer@[0],
                0,
            ));
            return;
        }
        let ghost w = self.windows()[channel as int];
        assert(self.windows@[channel as int]@ == w);
        let wlen = self.windows[channel].len();
        let mut tau: usize = 1;
        while tau < len
            invariant
                self.valid(),
                len == self.buffer@.len(),
                len == old(self).buffer@.len(),
                w == self.windows@[channel as int]@,
                wlen == w.len(),
                channel < self.channels,
                self.windows@ == old(self).windows@,
                self.output@ == old(self).output@,
                self.frame_number == old(self).frame_number,
                self.channels == old(self).channels,
                self.period == old(self).period,
                self.sample_rate == old(self).sample_rate,
                self.threshold == old(self).threshold,
                1 <= tau <= len,
                self.buffer@[0] == old(self).buffer@[0],
                forall|t: int| 1 <= t < tau ==> self.buffer@[t] == squared_difference(w, t, len as nat),
            decreases len - tau,
        {
            let mut x = T::from_usize(0);
            let mut i: usize = 0;
            while i < len
                invariant
                    self.valid(),
                    len == self.buffer@.len(),
                    w == self.windows@[channel as int]@,
                    wlen == w.len(),
                    channel < self.channels,
                    1 <= tau < len,
                    i <= len,
                    x == squared_difference(w, tau as int, i as nat),
                decreases len - i,
            {
                let ghost wc = self.windows@[channel as int];
                assert(wc@.len() >= 2 * len);
                let a = self.windows[channel][i];
                let b = self.windows[channel][i + tau];
                let d = T::sub(a, b);
                x = T::add(x, T::mul(d, d));
                i = i + 1;
            }
            self.buffer.set(tau, x);
            tau = tau + 1;
        }
        assert(self.buffer@ =~= differences(w, old(self).buffer@[0], len as nat));
    }

    /// Turns the difference function into its cumulative mean normalized form.
    fn cumulative_mean_normalized_difference(&mut self)
        requires
            old(self).valid(),
        ensures
            final(self).valid(),
            final(self).buffer@ == normalized(old(self).buffer@),
            final(self).windows@ == old(self).windows@,
            final(self).output@ == old(self).output@,
            final(self).frame_number == old(self).frame_number,
            final(self).channels == old(self).channels,
            final(self).period == old(self).period,
            final(self).sample_rate == old(self).sample_rate,
            final(self).threshold == old(self).threshold,
    {
        let ghost b = self.buffer@;
        let len = self.buffer.len();
        if len == 0 {
            assert(self.buffer@ =~= normalized(b));
            return;
        }
        let mut running = T::from_usize(0);
        self.buffer.set(0, T::from_usize(1));
        let mut tau: usize = 1;
        while tau < len
            invariant
                self.valid(),
                len == self.buffer@.len(),
                b.len() == len,
                self.windows@ == old(self).windows@,
                self.output@ == old(self).output@,
                self.frame_number == old(self).frame_number,
                self.channels == old(self).channels,
                self.period == old(self).period,
                self.sample_rate == old(self).sample_rate,
                self.threshold == old(self).threshold,
                1 <= tau <= len,
                running == running_sum(b, tau - 1),
                self.buffer@[0] == one::<T>(),
                forall|t: int| 1 <= t < tau ==> self.buffer@[t] == normalized(b)[t],
                forall|t: int| tau <= t < len ==> self.buffer@[t] == b[t],
            decreases len - tau,
        {
            let x = self.buffer[tau];
            running = T::add(running, x);
            let y = T::mul(x, T::div(T::from_usize(tau), running));
            self.buffer.set(tau, y);
            tau = tau + 1;
        }
        assert(self.buffer@ =~= normalized(b));
    }

    /// The lag that the threshold search settles on.
    fn absolute_threshold(&self) -> (r: Option<usize>)
        requires
            self.valid(),
        ensures
            r == threshold_spec(self.buffer@, self.threshold),
            r matches Some(t) ==> 2 <= t < self.buffer@.len(),
    {
        let len = self.buffer.len();
        if len < 3 {
            return None;
        }
        let mut tau: usize = 2;
        while tau < len && !T::lt(self.buffer[tau], self.threshold)
            invariant
                2 <= tau <= len,
                len == self.buffer@.len(),
                first_below(self.buffer@, self.threshold, 2) == first_below(
                    self.buffer@,
                    self.threshold,
                    tau as int,
                ),
            decreases len - tau,
        {
            tau = tau + 1;
        }
        let ghost start = tau as int;
        while tau < len - 1 && T::lt(self.buffer[tau + 1], self.buffer[tau])
            invariant
                2 <= tau <= len,
                len == self.buffer@.len(),
                start == first_below(self.buffer@, self.threshold, 2),
                descend(self.buffer@, start) == descend(self.buffer@, tau as int),
            decreases len - tau,
        {
            tau = tau + 1;
        }
        if tau == len || T::le(self.threshold, self.buffer[tau]) {
            None
        } else {
            Some(tau)
        }
    }

    /// Refines lag `x1` by a parabola through its neighbours.
    fn parabolic_interpolation(&self, x1: usize) -> (r: T)
        requires
            self.valid(),
            1 <= x1 < self.buffer@.len(),
        ensures
            r == parabolic_spec(self.buffer@, x1 as int),
    {
        let len = self.buffer.len();
        let x0 = x1 - 1;
        let x2 = x1 + 1;
        let s0 = self.buffer[x0];
        let s1 = self.buffer[x1];
        if x2 < self.buffer.len() {
            let s2 = self.buffer[x2];
            let two = T::from_usize(2);
            let d = T::sub(T::sub(T::mul(two, s1), s2), s0);
            let delta = T::sub(s2, s0);
            let shift = if !T::eq(d, T::from_usize(0)) {
                T::div(delta, T::mul(two, d))
            } else {
                T::from_usize(0)
            };
            T::add(T::from_usize(x1), shift)
        } else if T::lt(s0, s1) {
            T::from_usize(x0)
        } else {
            T::from_usize(x1)
        }
    }
}

impl<T: Scalar> Module<T> for Yin<T> {
    open spec fn arity(&self) -> u8 {
        1
    }

    closed spec fn frame(&self) -> Seq<T> {
        self.output@
    }

    open spec fn reads(&self) -> nat {
        self.frame().len()
    }

    closed spec fn valid(&self) -> bool {
        &&& self.output@.len() == self.channels
        &&& self.windows@.len() == self.channels
        &&& self.period >= 1
        &&& forall|c: int|
            0 <= c < self.channels ==> (#[trigger] self.windows@[c])@.len() >= 2 * self.buffer@.len()
                && self.windows@[c]@.len() >= 1
    }

    open spec fn emits(&self, input: Seq<T>, next: Seq<T>) -> bool {
        next == if self.frame_number() as nat % self.period() == 0 {
            Seq::new(
                self.frame().len(),
                |c: int|
                    pitch_spec(
                        self.windows()[c].drop_first().push(input[c]),
                        self.lags(),
                        self.threshold(),
                        self.rate(),
                    ),
            )
        } else {
            self.frame()
        }
    }

    fn inputs(&self) -> (r: u8) {
        1
    }

    fn output(&self) -> (r: &[T]) {
        self.output.as_slice()
    }

    fn sample(&mut self, input: &[T])
        ensures
            final(self).lags() == old(self).lags(),
            final(self).threshold() == old(self).threshold(),
            final(self).rate() == old(self).rate(),
            final(self).period() == old(self).period(),
            final(self).frame_number() == old(self).frame_number().wrapping_add(1),
            final(self).windows() == Seq::new(
                old(self).windows().len(),
                |c: int| old(self).windows()[c].drop_first().push(input@[c]),
            ),
            final(self).frame() == if old(self).frame_number() as nat % old(self).period() == 0 {
                Seq::new(
                    old(self).frame().len(),
                    |c: int|
                        pitch_spec(
                            final(self).windows()[c],
                            old(self).lags(),
                            old(self).threshold(),
                            old(self).rate(),
                        ),
                )
            } else {
                old(self).frame()
            },
    {
        let n = self.channels;
        let mut c: usize = 0;
        while c < n
            invariant
                self.valid(),
                n == self.channels,
                n == old(self).channels,
                n <= input@.len(),
                self.buffer@ == old(self).buffer@,
                self.output@ == old(self).output@,
                self.frame_number == old(self).frame_number,
                self.period == old(self).period,
                self.sample_rate == old(self).sample_rate,
                self.threshold == old(self).threshold,
                c <= n,
                forall|k: int|
                    0 <= k < c ==> (#[trigger] self.windows@[k])@ == old(self).windows@[k]@.drop_first().push(
                        input@[k],
                    ),
                forall|k: int| c <= k < n ==> (#[trigger] self.windows@[k])@ == old(self).windows@[k]@,
            decreases n - c,
        {
            let ghost before = self.windows@;
            self.windows[c].pop_front();
            self.windows[c].push_back(input[c]);
            proof {
                assert forall|k: int| 0 <= k < n && k != c implies (#[trigger] self.windows@[k])
                    == before[k] by {}
            }
            c = c + 1;
        }
        let ghost w1 = self.windows();
        assert(w1 =~= Seq::new(
            old(self).windows().len(),
            |c: int| old(self).windows()[c].drop_first().push(input@[c]),
        ));
        if self.frame_number % self.period == 0 {
            let mut c: usize = 0;
            while c < n
                invariant
                    self.valid(),
                    n == self.channels,
                    n == old(self).channels,
                    self.windows() == w1,
                    self.buffer@.len() == old(self).buffer@.len(),
                    self.frame_number == old(self).frame_number,
                    self.period == old(self).period,
                    self.sample_rate == old(self).sample_rate,
                    self.threshold == old(self).threshold,
                    c <= n,
                    forall|k: int|
                        0 <= k < c ==> #[trigger] self.output@[k] == pitch_spec(
                            w1[k],
                            old(self).buffer@.len(),
                            old(self).threshold,
                            old(self).sample_rate,
                        ),
                decreases n - c,
            {
                let ghost b0 = self.buffer@;
                self.difference(c);
                proof {
                    if self.buffer@.len() > 0 {
                        lemma_normalized_skips_first(self.buffer@, zero::<T>());
                        assert(self.buffer@.update(0, zero::<T>()) =~= differences(
                            w1[c as int],
                            zero::<T>(),
                            b0.len(),
                        ));
                    } else {
                        assert(self.buffer@ =~= differences(w1[c as int], zero::<T>(), 0));
                    }
                }
                self.cumulative_mean_normalized_difference();
                let o = match self.absolute_threshold() {
                    Some(t) => T::div(self.sample_rate, self.parabolic_interpolation(t)),
                    None => T::from_usize(0),
                };
                self.output.set(c, o);
                c = c + 1;
            }
            assert(self.output@ =~= Seq::new(
                n as nat,
                |c: int| pitch_spec(w1[c], old(self).buffer@.len(), old(self).threshold, old(self).sample_rate),
            ));
            assert(self.output@ =~= Seq::new(
                n as nat,
                |c: int|
                    pitch_spec(
                        old(self).windows()[c].drop_first().push(input@[c]),
                        old(self).buffer@.len(),
                        old(self).threshold,
                        old(self).sample_rate,
                    ),
            ));
        }
        self.frame_number = self.frame_number.wrapping_add(1);
    }
}

} // verus!
