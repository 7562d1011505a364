//! Biquad filters in direct form I; sources: signal, cut-off frequency, Q.
use vstd::prelude::*;
use crate::module::Module;
use crate::modules::filled;
use crate::modules::filter::{angular_period, angular_period_spec};
use crate::modules::function::Ternary;
use crate::scalar::{Scalar, one, two, zero};

verus! {

/// Filter coefficients `(b0, b1, b2, a0, a1, a2)`.
pub type Coefficients<T> = (T, T, T, T, T, T);

/// One half, as `1 / 2`.
pub open spec fn half<T: Scalar>() -> T {
    T::div_spec(one(), two())
}

/// The low-pass coefficients for `cos ω` and `α`.
pub open spec fn lpf_coefficients_spec<T: Scalar>(cos_o: T, alpha: T) -> Coefficients<T> {
    let b1 = T::sub_spec(one(), cos_o);
    let b0 = T::mul_spec(half(), b1);
    (
        b0,
        b1,
        b0,
        T::add_spec(one(), alpha),
        T::mul_spec(T::neg_spec(two()), cos_o),
        T::sub_spec(one(), alpha),
    )
}

/// The high-pass coefficients for `cos ω` and `α`.
pub open spec fn hpf_coefficients_spec<T: Scalar>(cos_o: T, alpha: T) -> Coefficients<T> {
    let k = T::add_spec(one(), cos_o);
    let b0 = T::mul_spec(half(), k);
    (
        b0,
        T::neg_spec(k),
        b0,
        T::add_spec(one(), alpha),
        T::mul_spec(T::neg_spec(two()), cos_o),
        T::sub_spec(one(), alpha),
    )
}

/// Low-pass coefficients (audio EQ cookbook) from `sin ω`, `cos ω` and `α`.
pub fn make_lpf_coefficients<T: Scalar>(sin_o: T, cos_o: T, alpha: T) -> (r: Coefficients<T>)
    ensures
        r == lpf_coefficients_spec(cos_o, alpha),
{
    let one = T::from_usize(1);
    let two = T::from_usize(2);
    let b1 = T::sub(one, cos_o);
    let b0 = T::mul(T::div(one, two), b1);
    (b0, b1, b0, T::add(one, alpha), T::mul(T::neg(two), cos_o), T::sub(one, alpha))
}

/// High-pass coefficients (audio EQ cookbook) from `sin ω`, `cos ω` and `α`.
pub fn make_hpf_coefficients<T: Scalar>(sin_o: T, cos_o: T, alpha: T) -> (r: Coefficients<T>)
    ensures
        r == hpf_coefficients_spec(cos_o, alpha),
{
    let one = T::from_usize(1);
    let two = T::from_usize(2);
    let k = T::add(one, cos_o);
    let b0 = T::mul(T::div(one, two), k);
    (b0, T::neg(k), b0, T::add(one, alpha), T::mul(T::neg(two), cos_o), T::sub(one, alpha))
}

/// `(b0·x + b1·x1 + b2·x2 − a1·y1 − a2·y2) / a0`.
pub open spec fn difference_spec<T: Scalar>(
    k: Coefficients<T>,
    x: T,
    x1: T,
    x2: T,
    y1: T,
    y2: T,
) -> T {
    let (b0, b1, b2, a0, a1, a2) = k;
    T::div_spec(
        T::sub_spec(
            T::sub_spec(
                T::add_spec(T::add_spec(T::mul_spec(x, b0), T::mul_spec(x1, b1)), T::mul_spec(x2, b2)),
                T::mul_spec(y1, a1),
            ),
            T::mul_spec(y2, a2),
        ),
        a0,
    )
}

/// The arguments handed to the coefficient function for a cut-off frequency and
/// Q: `ω = freq·period`, then `(sin ω, cos ω, sin ω / (2Q))`.
pub open spec fn angles_spec<T: Scalar>(freq: T, q: T, period: T) -> (T, T, T) {
    let o = T::mul_spec(freq, period);
    let s = T::sin_spec(o);
    (s, T::cos_spec(o), T::div_spec(s, T::mul_spec(two(), q)))
}

/// `y` is the filter's output for some coefficients that `f` returns for `angles`.
pub open spec fn filtered<T: Scalar, F: Fn(T, T, T) -> Coefficients<T>>(
    f: F,
    angles: (T, T, T),
    x: T,
    x1: T,
    x2: T,
    y1: T,
    y2: T,
    y: T,
) -> bool {
    exists|k: Coefficients<T>|
        #[trigger] f.ensures(angles, k) && y == difference_spec(k, x, x1, x2, y1, y2)
}

/// A biquad filter whose coefficients come from `make_coefficients`.
#[verifier::reject_recursive_types(T)]
pub struct BiQuad<T, F: Fn(T, T, T) -> Coefficients<T>> {
    make_coefficients: Ternary<T, Coefficients<T>, F>,
    output: Vec<T>,
    sample_angular_period: T,
    x1: Vec<T>,
    x2: Vec<T>,
    y2: Vec<T>,
}

impl<T: Scalar, F: Fn(T, T, T) -> Coefficients<T>> BiQuad<T, F> {
    /// `2π / sample_rate`.
    pub closed spec fn period(&self) -> T {
        self.sample_angular_period
    }

    /// The coefficient function.
    pub closed spec fn function(&self) -> F {
        self.make_coefficients.function()
    }

    /// The previous input, the one before it, and the output before the previous one.
    pub closed spec fn history(&self) -> (Seq<T>, Seq<T>, Seq<T>) {
        (self.x1@, self.x2@, self.y2@)
    }

    pub fn new(channels: usize, sample_rate: usize, make_coefficients: F) -> (r: Self)
        requires
            forall|x: T, y: T, z: T| make_coefficients.requires((x, y, z)),
        ensures
            r.valid(),
            r.frame() == Seq::new(channels as nat, |_i: int| zero::<T>()),
            r.period() == angular_period_spec::<T>(sample_rate),
            r.function() == make_coefficients,
            r.history() == (
                Seq::new(channels as nat, |_i: int| zero::<T>()),
                Seq::new(channels as nat, |_i: int| zero::<T>()),
                Seq::new(channels as nat, |_i: int| zero::<T>()),
            ),
    {
        let zero = T::from_usize(0);
        BiQuad {
            make_coefficients: Ternary::new(make_coefficients),
            output: filled(channels, zero),
            sample_angular_period: angular_period(sample_rate),
            x1: filled(channels, zero),
            x2: filled(channels, zero),
            y2: filled(channels, zero),
        }
    }
}

impl<T: Scalar, F: Fn(T, T, T) -> Coefficients<T>> Module<T> for BiQuad<T, F> {
    open spec fn arity(&self) -> u8 {
        3
    }

    closed spec fn frame(&self) -> Seq<T> {
        self.output@
    }

    open spec fn reads(&self) -> nat {
        3 * self.frame().len()
    }

    closed spec fn valid(&self) -> bool {
        &&& self.x1@.len() == self.output@.len()
        &&& self.x2@.len() == self.output@.len()
        &&& self.y2@.len() == self.output@.len()
    }

    open spec fn emits(&self, input: Seq<T>, next: Seq<T>) -> bool {
        next.len() == self.frame().len() && forall|c: int|
            0 <= c < next.len() ==> filtered(
                self.function(),
                angles_spec(input[c + next.len()], input[c + 2 * next.len()], self.period()),
                input[c],
                self.history().0[c],
                self.history().1[c],
                self.frame()[c],
                self.history().2[c],
                #[trigger] next[c],
            )
    }

    fn inputs(&self) -> (r: u8) {
        3
    }

    fn output(&self) -> (r: &[T]) {
        self.output.as_slice()
    }

    fn sample(&mut self, input: &[T])
        ensures
            final(self).period() == old(self).period(),
            final(self).function() == old(self).function(),
            forall|c: int|
                0 <= c < old(self).frame().len() ==> filtered(
                    old(self).function(),
                    angles_spec(
                        input@[c + old(self).frame().len()],
                        input@[c + 2 * old(self).frame().len()],
                        old(self).period(),
                    ),
                    input@[c],
                    old(self).history().0[c],
                    old(self).history().1[c],
                    old(self).frame()[c],
                    old(self).history().2[c],
                    #[trigger] final(self).frame()[c],
                ),
            final(self).history() == (
                input@.take(old(self).frame().len() as int),
                old(self).history().0,
                old(self).frame(),
            ),
    {
        let n = self.output.len();
        let len = input.len();
        let p = self.sample_angular_period;
        let ghost h = self.history();
        let mut i: usize = 0;
        while i < n
            invariant
                self.valid(),
                n == self.output@.len(),
                n == old(self).output@.len(),
                h == old(self).history(),
                3 * n <= input@.len(),
                len == input@.len(),
                p == self.sample_angular_period,
                p == old(self).sample_angular_period,
                self.make_coefficients == old(self).make_coefficients,
                i <= n,
                forall|c: int|
                    0 <= c < i ==> filtered(
                        self.function(),
                        angles_spec(input@[c + n], input@[c + 2 * n], p),
                        input@[c],
                        h.0[c],
                        h.1[c],
                        old(self).output@[c],
                        h.2[c],
                        #[trigger] self.output@[c],
                    ),
                forall|c: int| 0 <= c < i ==> self.x1@[c] == input@[c],
                forall|c: int| 0 <= c < i ==> self.x2@[c] == h.0[c],
                forall|c: int| 0 <= c < i ==> self.y2@[c] == old(self).output@[c],
                forall|c: int| i <= c < n ==> self.output@[c] == old(self).output@[c],
                forall|c: int| i <= c < n ==> self.x1@[c] == h.0[c],
                forall|c: int| i <= c < n ==> self.x2@[c] == h.1[c],
                forall|c: int| i <= c < n ==> self.y2@[c] == h.2[c],
            decreases n - i,
        {
            let x = input[i];
            let freq = input[i + n];
            let q = input[i + 2 * n];
            let x1 = self.x1[i];
            let x2 = self.x2[i];
            let y1 = self.output[i];
            let y2 = self.y2[i];
            let o = T::mul(freq, p);
            let sin_o = T::sin(o);
            let cos_o = T::cos(o);
            let alpha = T::div(sin_o, T::mul(T::from_usize(2), q));
            let k = self.make_coefficients.call(sin_o, cos_o, alpha);
            let (b0, b1, b2, a0, a1, a2) = k;
            let y = T::div(
                T::sub(
                    T::sub(T::add(T::add(T::mul(x, b0), T::mul(x1, b1)), T::mul(x2, b2)), T::mul(y1, a1)),
                    T::mul(y2, a2),
                ),
                a0,
            );
            self.output.set(i, y);
            self.x2.set(i, x1);
            self.x1.set(i, x);
            self.y2.set(i, y1);
            assert(y == difference_spec(k, x, h.0[i as int], h.1[i as int], y1, h.2[i as int]));
            assert(self.function().ensures(angles_spec(freq, q, p), k));
            assert(filtered(
                self.function(),
                angles_spec(freq, q, p),
                x,
                h.0[i as int],
                h.1[i as int],
                y1,
                h.2[i as int],
                y,
            ));
            i = i + 1;
        }
        assert(self.x1@ =~= input@.take(n as int));
        assert(self.x2@ =~= h.0);
        assert(self.y2@ =~= old(self).output@);
    }
}

} // verus!
