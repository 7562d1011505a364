//! Equal-power stereo panners; sources: left, right, position.
use vstd::prelude::*;
use crate::module::Module;
use crate::modules::filled;
use crate::pure::{pan, pan_left_spec, pan_right_spec};
use crate::scalar::{Scalar, zero};

verus! {

/// Pans a stereo source by the position in channel 0 of the second source.
pub struct Pan1<T> {
    channels: usize,
    output: Vec<T>,
}

/// Pans the left channel of the first source and the right channel of the
/// second source by the position in channel 0 of the third source.
pub struct Pan2<T> {
    channels: usize,
    output: Vec<T>,
}

/// Pans a stereo source channel by channel, by the position source.
pub struct Pan3<T> {
    channels: usize,
    output: Vec<T>,
}

impl<T: Scalar> Pan1<T> {
    pub fn new(channels: usize) -> (r: Self)
        requires
            channels >= 2,
        ensures
            r.valid(),
            r.frame() == Seq::new(channels as nat, |_i: int| zero::<T>()),
    {
        Pan1 { channels, output: filled(channels, T::from_usize(0)) }
    }
}

impl<T: Scalar> Module<T> for Pan1<T> {
    open spec fn arity(&self) -> u8 {
        2
    }

    closed spec fn frame(&self) -> Seq<T> {
        self.output@
    }

    open spec fn reads(&self) -> nat {
        2 * self.frame().len()
    }

    closed spec fn valid(&self) -> bool {
        self.output@.len() == self.channels && self.channels >= 2
    }

    open spec fn emits(&self, input: Seq<T>, next: Seq<T>) -> bool {
        next == self.frame().update(
            0,
            pan_left_spec(input[0], input[1], input[self.frame().len() as int]),
        ).update(1, pan_right_spec(input[0], input[1], input[self.frame().len() as int]))
    }

    fn inputs(&self) -> (r: u8) {
        2
    }

    fn output(&self) -> (r: &[T]) {
        self.output.as_slice()
    }

    fn sample(&mut self, input: &[T])
        ensures
            ({
                let n = old(self).frame().len() as int;
                final(self).frame() == old(self).frame().update(
                    0,
                    pan_left_spec(input@[0], input@[1], input@[n]),
                ).update(1, pan_right_spec(input@[0], input@[1], input@[n]))
            }),
    {
        let (l, r) = pan(input[0], input[1], input[self.channels]);
        self.output.set(0, l);
        self.output.set(1, r);
    }
}

impl<T: Scalar> Pan2<T> {
    pub fn new(channels: usize) -> (r: Self)
        requires
            channels >= 2,
        ensures
            r.valid(),
            r.frame() == Seq::new(channels as nat, |_i: int| zero::<T>()),
    {
        Pan2 { channels, output: filled(channels, T::from_usize(0)) }
    }
}

impl<T: Scalar> Module<T> for Pan2<T> {
    open spec fn arity(&self) -> u8 {
        3
    }

    closed spec fn frame(&self) -> Seq<T> {
        self.output@
    }

    open spec fn reads(&self) -> nat {
        3 * self.frame().len()
    }

    closed spec fn valid(&self) -> bool {
        self.output@.len() == self.channels && self.channels >= 2
    }

    open spec fn emits(&self, input: Seq<T>, next: Seq<T>) -> bool {
        next == self.frame().update(
            0,
            pan_left_spec(
                input[0],
                input[1 + self.frame().len() as int],
                input[2 * self.frame().len() as int],
            ),
        ).update(
            1,
            pan_right_spec(
                input[0],
                input[1 + self.frame().len() as int],
                input[2 * self.frame().len() as int],
            ),
        )
    }

    fn inputs(&self) -> (r: u8) {
        3
    }

    fn output(&self) -> (r: &[T]) {
        self.output.as_slice()
    }

    fn sample(&mut self, input: &[T])
        ensures
            ({
                let n = old(self).frame().len() as int;
                final(self).frame() == old(self).frame().update(
                    0,
                    pan_left_spec(input@[0], input@[1 + n], input@[2 * n]),
                ).update(1, pan_right_spec(input@[0], input@[1 + n], input@[2 * n]))
            }),
    {
        let n = self.channels;
        let (l, r) = pan(input[0], input[1 + n], input[2 * n]);
        self.output.set(0, l);
        self.output.set(1, r);
    }
}

impl<T: Scalar> Pan3<T> {
    pub fn new(channels: usize) -> (r: Self)
        ensures
            r.valid(),
            r.frame() == Seq::new(channels as nat, |_i: int| zero::<T>()),
    {
        Pan3 { channels, output: filled(channels, T::from_usize(0)) }
    }
}

/// Channel `c` of `Pan3`'s output: the left mix in channel 0, the right mix in
/// channel 1, zero in the others.
pub open spec fn pan3_spec<T: Scalar>(input: Seq<T>, n: int, c: int) -> T {
    if c == 0 {
        pan_left_spec(input[0], input[n], input[2 * n])
    } else if c == 1 {
        pan_right_spec(input[1], input[1 + n], input[1 + 2 * n])
    } else {
        zero()
    }
}

impl<T: Scalar> Module<T> for Pan3<T> {
    open spec fn arity(&self) -> u8 {
        3
    }

    closed spec fn frame(&self) -> Seq<T> {
        self.output@
    }

    open spec fn reads(&self) -> nat {
        3 * self.frame().len()
    }

    closed spec fn valid(&self) -> bool {
        self.output@.len() == self.channels
    }

    open spec fn emits(&self, input: Seq<T>, next: Seq<T>) -> bool {
        next == Seq::new(
            self.frame().len(),
            |c: int| pan3_spec(input, self.frame().len() as int, c),
        )
    }

    fn inputs(&self) -> (r: u8) {
        3
    }

    fn output(&self) -> (r: &[T]) {
        self.output.as_slice()
    }

    fn sample(&mut self, input: &[T])
        ensures
            final(self).frame() == Seq::new(
                old(self).frame().len(),
                |c: int| pan3_spec(input@, old(self).frame().len() as int, c),
            ),
    {
        let n = self.channels;
        let len = input.len();
        let mut i: usize = 0;
        while i < n
            invariant
                n == self.channels,
                n == self.output@.len(),
                3 * n <= input@.len(),
                len == input@.len(),
                i <= n,
                forall|c: int| 0 <= c < i ==> self.output@[c] == pan3_spec(input@, n as int, c),
            decreases n - i,
        {
            let y = if i == 0 {
                pan(input[0], input[n], input[2 * n]).0
            } else if i == 1 {
                pan(input[1], input[1 + n], input[1 + 2 * n]).1
            } else {
                T::from_usize(0)
            };
            self.output.set(i, y);
            i = i + 1;
        }
        assert(self.output@ =~= Seq::new(n as nat, |c: int| pan3_spec(input@, n as int, c)));
    }
}

} // verus!
