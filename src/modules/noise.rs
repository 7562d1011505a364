//! White noise.
use vstd::prelude::*;
use core::marker::PhantomData;
use crate::module::Module;
use crate::modules::filled;
use crate::scalar::{Scalar, zero};

verus! {

/// A source of random scalars that can always be drawn from.
#[verifier::reject_recursive_types(T)]
pub struct Draw<T, G: Fn() -> T> {
    g: G,
    marker: PhantomData<T>,
}

impl<T, G: Fn() -> T> Draw<T, G> {
    #[verifier::type_invariant]
    spec fn total(&self) -> bool {
        self.g.requires(())
    }

    pub closed spec fn function(&self) -> G {
        self.g
    }

    pub fn new(g: G) -> (r: Self)
        requires
            g.requires(()),
        ensures
            r.function() == g,
    {
        Draw { g, marker: PhantomData }
    }

    pub fn call(&self) -> (r: T)
        ensures
            self.function().ensures((), r),
    {
        proof {
            use_type_invariant(self);
        }
        (self.g)()
    }
}

/// Each channel takes an independent draw every frame; the draw is meant to be
/// uniform over `[−1, 1)`.
#[verifier::reject_recursive_types(T)]
pub struct Noise<T, G: Fn() -> T> {
    values: Vec<T>,
    draw: Draw<T, G>,
}

impl<T: Scalar, G: Fn() -> T> Noise<T, G> {
    /// The source of random scalars.
    pub closed spec fn function(&self) -> G {
        self.draw.function()
    }

    pub fn new(channels: usize, draw: G) -> (r: Self)
        requires
            draw.requires(()),
        ensures
            r.frame() == Seq::new(channels as nat, |_i: int| zero::<T>()),
            r.function() == draw,
    {
        Noise { values: filled(channels, T::from_usize(0)), draw: Draw::new(draw) }
    }
}

impl<T: Scalar, G: Fn() -> T> Module<T> for Noise<T, G> {
    open spec fn arity(&self) -> u8 {
        0
    }

    closed spec fn frame(&self) -> Seq<T> {
        self.values@
    }

    open spec fn reads(&self) -> nat {
        0
    }

    open spec fn valid(&self) -> bool {
        true
    }

    open spec fn emits(&self, input: Seq<T>, next: Seq<T>) -> bool {
        next.len() == self.frame().len() && forall|c: int|
            0 <= c < next.len() ==> self.function().ensures((), #[trigger] next[c])
    }

    fn inputs(&self) -> (r: u8) {
        0
    }

    fn output(&self) -> (r: &[T]) {
        self.values.as_slice()
    }

    fn sample(&mut self, input: &[T])
        ensures
            final(self).function() == old(self).function(),
            forall|c: int|
                0 <= c < old(self).frame().len() ==> old(self).function().ensures(
                    (),
                    #[trigger] final(self).frame()[c],
                ),
    {
        let n = self.values.len();
        let mut i: usize = 0;
        while i < n
            invariant
                n == self.values@.len(),
                i <= n,
                self.draw == old(self).draw,
                forall|c: int| 0 <= c < i ==> self.draw.function().ensures((), #[trigger] self.values@[c]),
            decreases n - i,
        {
            let x = self.draw.call();
            self.values.set(i, x);
            i = i + 1;
        }
    }
}

} // verus!
