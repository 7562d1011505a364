//! Variable delay up to a maximum time.
use vstd::prelude::*;
use crate::module::Module;
use crate::modules::filled;
use crate::scalar::{Scalar, one, zero};

verus! {

/// The smallest power of two that is at least `n`, searching upward from `p`.
pub open spec fn ring_len(n: nat, p: nat) -> nat
    decreases (if p >= n {
        0
    } else {
        n - p
    }),
{
    if p >= n {
        p
    } else if p == 0 {
        ring_len(n, 1)
    } else {
        ring_len(n, 2 * p)
    }
}

proof fn lemma_ring_len_bounds(n: nat, p: nat)
    ensures
        ring_len(n, p) >= p,
        ring_len(n, p) >= n,
        p >= 1 ==> ring_len(n, p) >= 1,
    decreases (if p >= n {
        0
    } else {
        n - p
    }),
{
    if p >= n {
    } else if p == 0 {
        lemma_ring_len_bounds(n, 1);
    } else {
        lemma_ring_len_bounds(n, 2 * p);
    }
}

/// The smallest power of two that is at least `n`, where it fits in a `usize`.
pub fn next_power_of_two(n: usize) -> (r: Option<usize>)
    ensures
        r is Some <==> ring_len(n as nat, 1) <= usize::MAX,
        r matches Some(p) ==> p == ring_len(n as nat, 1) && p >= n && p >= 1,
{
    proof {
        lemma_ring_len_bounds(n as nat, 1);
    }
    let mut p: usize = 1;
    while p < n
        invariant
            1 <= p,
            ring_len(n as nat, p as nat) == ring_len(n as nat, 1),
        decreases usize::MAX - p,
    {
        if p > usize::MAX / 2 {
            proof {
                lemma_ring_len_bounds(n as nat, 2 * p as nat);
            }
            return None;
        }
        p = p * 2;
    }
    Some(p)
}

/// How many frames a delay line keeps for a longest delay of `max_delay`
/// seconds: the next power of two above `max_delay · sample_rate` frames.
pub open spec fn delay_frames_spec<T: Scalar>(sample_rate: usize, max_delay: T) -> nat {
    ring_len(
        (T::to_usize_spec(T::mul_spec(T::from_usize_spec(sample_rate), max_delay)) + 1) as nat,
        1,
    )
}

/// `k·a + (1 − k)·b`.
pub open spec fn interpolate_spec<T: Scalar>(k: T, a: T, b: T) -> T {
    T::add_spec(T::mul_spec(k, a), T::mul_spec(T::sub_spec(one(), k), b))
}

/// Channel `c` of the output after one frame, with `d = ⌊delay · sample_rate⌋`
/// frames and frame number `f`: where `d < f`, the interpolation between the
/// inputs of frames `f − d − 1` and `f − d`, weighted by the fractional part
/// `k`; a delay below one frame (`d = 0`) gives the input of frame `f − 1`, so
/// the latency is at least one frame. Until `f > d` the output is held.
pub open spec fn delayed_spec<T: Scalar>(
    buffer: Seq<T>,
    mask: usize,
    channels: int,
    frame: usize,
    rate: T,
    held: T,
    x_delay: T,
    c: int,
) -> T {
    let z = T::mul_spec(x_delay, rate);
    let d = T::to_usize_spec(z);
    if frame > d {
        if d == 0 {
            buffer[(((frame - 1) as usize) & mask) * channels + c]
        } else {
            let i = (frame - d) as usize;
            interpolate_spec(
                T::fract_spec(z),
                buffer[(((i - 1) as usize) & mask) * channels + c],
                buffer[(i & mask) * channels + c],
            )
        }
    } else {
        held
    }
}

/// A delay line; sources: signal, delay in seconds.
pub struct Delay<T> {
    buffer: Vec<T>,
    channels: usize,
    mask: usize,
    frame_number: usize,
    sample_rate: T,
    output: Vec<T>,
}

proof fn lemma_cells_apart(a: int, b: int, c: int, c2: int, n: int)
    requires
        0 <= c < n,
        0 <= c2 < n,
        c != c2,
        0 <= a,
        0 <= b,
    ensures
        a * n + c != b * n + c2,
{
    if a == b {
    } else if a < b {
        assert(a * n + n <= b * n) by (nonlinear_arith)
            requires
                a < b,
                0 <= n,
        ;
    } else {
        assert(b * n + n <= a * n) by (nonlinear_arith)
            requires
                b < a,
                0 <= n,
        ;
    }
}

proof fn lemma_cell_in_ring(j: usize, mask: usize, n: int)
    requires
        0 <= n,
    ensures
        0 <= (j & mask) * n,
        (j & mask) * n + n <= (mask + 1) * n,
{
    assert(j & mask <= mask) by (bit_vector);
    assert((j & mask) * n + n <= (mask + 1) * n) by (nonlinear_arith)
        requires
            (j & mask) <= mask,
            0 <= n,
    ;
    assert(0 <= (j & mask) * n) by (nonlinear_arith)
        requires
            0 <= n,
    ;
}

impl<T: Scalar> Delay<T> {
    /// The ring buffer: frame `j` is kept at slot `j & mask`, channel-minor.
    pub closed spec fn buffer(&self) -> Seq<T> {
        self.buffer@
    }

    /// The ring length minus one.
    pub closed spec fn mask(&self) -> usize {
        self.mask
    }

    /// The frames taken so far, wrapping.
    pub closed spec fn frame_number(&self) -> usize {
        self.frame_number
    }

    /// The sample rate as a scalar.
    pub closed spec fn rate(&self) -> T {
        self.sample_rate
    }

    /// A delay line of `channels` channels holding up to `max_delay` seconds.
    pub fn new(channels: usize, sample_rate: usize, max_delay: T) -> (r: Self)
        requires
            delay_frames_spec(sample_rate, max_delay) <= usize::MAX,
            channels * delay_frames_spec(sample_rate, max_delay) <= usize::MAX,
        ensures
            r.valid(),
            r.frame() == Seq::new(channels as nat, |_i: int| zero::<T>()),
            r.mask() + 1 == delay_frames_spec(sample_rate, max_delay),
            r.buffer() == Seq::new(
                (channels * delay_frames_spec(sample_rate, max_delay)) as nat,
                |_i: int| zero::<T>(),
            ),
            r.frame_number() == 0,
            r.rate() == T::from_usize_spec(sample_rate),
    {
        let rate = T::from_usize(sample_rate);
        let longest = T::to_usize(T::mul(rate, max_delay));
        proof {
            lemma_ring_len_bounds((longest + 1) as nat, 1);
        }
        let frames = match next_power_of_two(longest + 1) {
            Some(p) => p,
            None => 1,
        };
        let zero = T::from_usize(0);
        assert((frames - 1 + 1) * channels == channels * frames) by (nonlinear_arith)
            requires
                frames >= 1,
        ;
        Delay {
            buffer: filled(channels * frames, zero),
            channels,
            frame_number: 0,
            mask: frames - 1,
            output: filled(channels, zero),
            sample_rate: rate,
        }
    }

    /// `new`, where the delay line fits in memory; `None` where it does not.
    pub fn try_new(channels: usize, sample_rate: usize, max_delay: T) -> (r: Option<Self>)
        ensures
            r is Some <==> (delay_frames_spec(sample_rate, max_delay) <= usize::MAX && channels
                * delay_frames_spec(sample_rate, max_delay) <= usize::MAX),
            r matches Some(d) ==> d.valid() && d.mask() + 1 == delay_frames_spec(sample_rate, max_delay)
                && d.frame() == Seq::new(channels as nat, |_i: int| zero::<T>()),
    {
        let longest = T::to_usize(T::mul(T::from_usize(sample_rate), max_delay));
        if longest == usize::MAX {
            proof {
                lemma_ring_len_bounds((longest + 1) as nat, 1);
            }
            return None;
        }
        let frames = match next_power_of_two(longest + 1) {
            Some(p) => p,
            None => {
                return None;
            },
        };
        if channels > usize::MAX / frames {
            proof {
                assert(channels * frames > usize::MAX) by (nonlinear_arith)
                    requires
                        channels > usize::MAX / frames,
                        frames >= 1,
                ;
            }
            return None;
        }
        proof {
            assert(channels * frames <= usize::MAX) by (nonlinear_arith)
                requires
                    channels <= usize::MAX / frames,
                    frames >= 1,
            ;
        }
        Some(Delay::new(channels, sample_rate, max_delay))
    }
}

/// The state of `d1` is that of `d0` after one frame with input `input`.
pub open spec fn stepped<T: Scalar>(d0: Delay<T>, input: Seq<T>, d1: Delay<T>) -> bool {
    let n = d0.frame().len() as int;
    let f = d0.frame_number();
    &&& d1.mask() == d0.mask()
    &&& d1.rate() == d0.rate()
    &&& d1.frame_number() == f.wrapping_add(1)
    &&& d1.frame().len() == n
    &&& forall|c: int|
        0 <= c < n ==> #[trigger] d1.frame()[c] == delayed_spec(
            d0.buffer(),
            d0.mask(),
            n,
            f,
            d0.rate(),
            d0.frame()[c],
            input[c + n],
            c,
        )
    &&& d1.buffer().len() == d0.buffer().len()
    &&& forall|j: int|
        0 <= j < d0.buffer().len() ==> #[trigger] d1.buffer()[j] == if (f & d0.mask()) * n <= j < (
        f & d0.mask()) * n + n {
            input[j - (f & d0.mask()) * n]
        } else {
            d0.buffer()[j]
        }
}

impl<T: Scalar> Module<T> for Delay<T> {
    open spec fn arity(&self) -> u8 {
        2
    }

    closed spec fn frame(&self) -> Seq<T> {
        self.output@
    }

    open spec fn reads(&self) -> nat {
        2 * self.frame().len()
    }

    closed spec fn valid(&self) -> bool {
        &&& self.output@.len() == self.channels
        &&& self.buffer@.len() == (self.mask + 1) * self.channels
        &&& (self.mask + 1) * self.channels <= usize::MAX
    }

    open spec fn emits(&self, input: Seq<T>, next: Seq<T>) -> bool {
        next == Seq::new(
            self.frame().len(),
            |c: int|
                delayed_spec(
                    self.buffer(),
                    self.mask(),
                    self.frame().len() as int,
                    self.frame_number(),
                    self.rate(),
                    self.frame()[c],
                    input[c + self.frame().len()],
                    c,
                ),
        )
    }

    fn inputs(&self) -> (r: u8) {
        2
    }

    fn output(&self) -> (r: &[T]) {
        self.output.as_slice()
    }

    fn sample(&mut self, input: &[T])
        ensures
            stepped(*old(self), input@, *final(self)),
    {
        let n = self.channels;
        let f = self.frame_number;
        let mask = self.mask;
        proof {
            lemma_cell_in_ring(f, mask, n as int);
        }
        let w = (f & mask) * n;
        let len = input.len();
        let mut c: usize = 0;
        while c < n
            invariant
                self.valid(),
                n == self.channels,
                n == old(self).channels,
                mask == self.mask,
                mask == old(self).mask,
                f == self.frame_number,
                f == old(self).frame_number,
                self.sample_rate == old(self).sample_rate,
                w == (f & mask) * n,
                2 * n <= input@.len(),
                len == input@.len(),
                self.buffer@.len() == old(self).buffer@.len(),
                c <= n,
                forall|c2: int|
                    0 <= c2 < c ==> #[trigger] self.output@[c2] == delayed_spec(
                        old(self).buffer@,
                        mask,
                        n as int,
                        f,
                        old(self).sample_rate,
                        old(self).output@[c2],
                        input@[c2 + n],
                        c2,
                    ),
                forall|c2: int| c <= c2 < n ==> self.output@[c2] == old(self).output@[c2],
                forall|j: int|
                    0 <= j < self.buffer@.len() ==> #[trigger] self.buffer@[j] == if w <= j < w + c {
                        input@[j - w]
                    } else {
                        old(self).buffer@[j]
                    },
            decreases n - c,
        {
            let x = input[c];
            let z = T::mul(input[c + n], self.sample_rate);
            let d = T::to_usize(z);
            let k = T::fract(z);
            if f > d && d == 0 {
                let j = f - 1;
                proof {
                    lemma_cell_in_ring(j, mask, n as int);
                    let rj = ((j & mask) * n + c) as int;
                    if w <= rj < w + c {
                        lemma_cells_apart((j & mask) as int, (f & mask) as int, c as int, rj - w, n as int);
                    }
                }
                let y = self.buffer[(j & mask) * n + c];
                self.output.set(c, y);
            } else if f > d {
                let i = f - d;
                proof {
                    lemma_cell_in_ring((i - 1) as usize, mask, n as int);
                    lemma_cell_in_ring(i, mask, n as int);
                    lemma_cell_in_ring(f, mask, n as int);
                    let ra = ((((i - 1) as usize) & mask) * n + c) as int;
                    let rb = ((i & mask) * n + c) as int;
                    if w <= ra < w + c {
                        lemma_cells_apart(((i - 1) as usize & mask) as int, (f & mask) as int, c as int, ra - w, n as int);
                    }
                    if w <= rb < w + c {
                        lemma_cells_apart((i & mask) as int, (f & mask) as int, c as int, rb - w, n as int);
                    }
                }
                let a = self.buffer[((i - 1) & mask) * n + c];
                let b = self.buffer[(i & mask) * n + c];
                let one = T::from_usize(1);
                self.output.set(c, T::add(T::mul(k, a), T::mul(T::sub(one, k), b)));
            }
            proof {
                lemma_cell_in_ring(f, mask, n as int);
            }
            self.buffer.set(w + c, x);
            c = c + 1;
        }
        self.frame_number = f.wrapping_add(1);
        assert(self.output@ =~= Seq::new(
            n as nat,
            |c: int|
                delayed_spec(
                    old(self).buffer@,
                    mask,
                    n as int,
                    f,
                    old(self).sample_rate,
                    old(self).output@[c],
                    input@[c + n],
                    c,
                ),
        ));
        assert forall|j: int| 0 <= j < self.buffer@.len() implies #[trigger] self.buffer@[j] == if w
            <= j < w + n {
            input@[j - w]
        } else {
            old(self).buffer@[j]
        } by {}
    }
}

} // verus!
