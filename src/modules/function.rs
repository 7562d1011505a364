//! Nodes that apply a scalar function to one, two or three sources, channel by channel.
use vstd::prelude::*;
use core::marker::PhantomData;
use crate::module::Module;
use crate::modules::filled;
use crate::scalar::{Scalar, zero};

verus! {

/// A function of one scalar that accepts every scalar.
#[verifier::reject_recursive_types(T)]
pub struct Unary<T, F: Fn(T) -> T> {
    f: F,
    marker: PhantomData<T>,
}

impl<T, F: Fn(T) -> T> Unary<T, F> {
    #[verifier::type_invariant]
    spec fn total(&self) -> bool {
        forall|x: T| self.f.requires((x,))
    }

    pub closed spec fn function(&self) -> F {
        self.f
    }

    pub fn new(f: F) -> (r: Self)
        requires
            forall|x: T| f.requires((x,)),
        ensures
            r.function() == f,
    {
        Unary { f, marker: PhantomData }
    }

    pub fn call(&self, x: T) -> (r: T)
        ensures
            self.function().ensures((x,), r),
    {
        proof {
            use_type_invariant(self);
        }
        (self.f)(x)
    }
}

/// A function of two scalars that accepts every pair of scalars.
#[verifier::reject_recursive_types(T)]
pub struct Binary<T, F: Fn(T, T) -> T> {
    f: F,
    marker: PhantomData<T>,
}

impl<T, F: Fn(T, T) -> T> Binary<T, F> {
    #[verifier::type_invariant]
    spec fn total(&self) -> bool {
        forall|x: T, y: T| self.f.requires((x, y))
    }

    pub closed spec fn function(&self) -> F {
        self.f
    }

    pub fn new(f: F) -> (r: Self)
        requires
            forall|x: T, y: T| f.requires((x, y)),
        ensures
            r.function() == f,
    {
        Binary { f, marker: PhantomData }
    }

    pub fn call(&self, x: T, y: T) -> (r: T)
        ensures
            self.function().ensures((x, y), r),
    {
        proof {
            use_type_invariant(self);
        }
        (self.f)(x, y)
    }
}

/// A function of three scalars that accepts every triple of scalars.
#[verifier::reject_recursive_types(T)]
#[verifier::reject_recursive_types(R)]
pub struct Ternary<T, R, F: Fn(T, T, T) -> R> {
    f: F,
    marker: PhantomData<(T, R)>,
}

impl<T, R, F: Fn(T, T, T) -> R> Ternary<T, R, F> {
    #[verifier::type_invariant]
    spec fn total(&self) -> bool {
        forall|x: T, y: T, z: T| self.f.requires((x, y, z))
    }

    pub closed spec fn function(&self) -> F {
        self.f
    }

    pub fn new(f: F) -> (r: Self)
        requires
            forall|x: T, y: T, z: T| f.requires((x, y, z)),
        ensures
            r.function() == f,
    {
        Ternary { f, marker: PhantomData }
    }

    pub fn call(&self, x: T, y: T, z: T) -> (r: R)
        ensures
            self.function().ensures((x, y, z), r),
    {
        proof {
            use_type_invariant(self);
        }
        (self.f)(x, y, z)
    }
}

/// Applies `f` to each channel of its one source.
#[verifier::reject_recursive_types(T)]
pub struct Fn1<T, F: Fn(T) -> T> {
    ys: Vec<T>,
    f: Unary<T, F>,
}

impl<T: Scalar, F: Fn(T) -> T> Fn1<T, F> {
    /// The function applied.
    pub closed spec fn function(&self) -> F {
        self.f.function()
    }

    pub fn new(channels: usize, f: F) -> (r: Self)
        requires
            forall|x: T| f.requires((x,)),
        ensures
            r.frame() == Seq::new(channels as nat, |_i: int| zero::<T>()),
            r.function() == f,
    {
        Fn1 { ys: filled(channels, T::from_usize(0)), f: Unary::new(f) }
    }
}

impl<T: Scalar, F: Fn(T) -> T> Module<T> for Fn1<T, F> {
    open spec fn arity(&self) -> u8 {
        1
    }

    closed spec fn frame(&self) -> Seq<T> {
        self.ys@
    }

    open spec fn reads(&self) -> nat {
        self.frame().len()
    }

    open spec fn valid(&self) -> bool {
        true
    }

    open spec fn emits(&self, input: Seq<T>, next: Seq<T>) -> bool {
        next.len() == self.frame().len() && forall|c: int|
            0 <= c < next.len() ==> self.function().ensures((input[c],), #[trigger] next[c])
    }

    fn inputs(&self) -> (r: u8) {
        1
    }

    fn output(&self) -> (r: &[T]) {
        self.ys.as_slice()
    }

    fn sample(&mut self, input: &[T])
        ensures
            final(self).function() == old(self).function(),
            forall|c: int|
                0 <= c < old(self).frame().len() ==> old(self).function().ensures(
                    (input@[c],),
                    #[trigger] final(self).frame()[c],
                ),
    {
        let n = self.ys.len();
        let mut i: usize = 0;
        while i < n
            invariant
                n == self.ys@.len(),
                n <= input@.len(),
                i <= n,
                self.f == old(self).f,
                forall|c: int| 0 <= c < i ==> self.f.function().ensures((input@[c],), #[trigger] self.ys@[c]),
            decreases n - i,
        {
            let y = self.f.call(input[i]);
            self.ys.set(i, y);
            i = i + 1;
        }
    }
}


/// Applies `f` channel by channel to its two sources.
#[verifier::reject_recursive_types(T)]
pub struct Fn2<T, F: Fn(T, T) -> T> {
    ys: Vec<T>,
    f: Binary<T, F>,
}

impl<T: Scalar, F: Fn(T, T) -> T> Fn2<T, F> {
    /// The function applied.
    pub closed spec fn function(&self) -> F {
        self.f.function()
    }

    pub fn new(channels: usize, f: F) -> (r: Self)
        requires
            forall|x: T, y: T| f.requires((x, y)),
        ensures
            r.frame() == Seq::new(channels as nat, |_i: int| zero::<T>()),
            r.function() == f,
    {
        Fn2 { ys: filled(channels, T::from_usize(0)), f: Binary::new(f) }
    }
}

impl<T: Scalar, F: Fn(T, T) -> T> Module<T> for Fn2<T, F> {
    open spec fn arity(&self) -> u8 {
        2
    }

    closed spec fn frame(&self) -> Seq<T> {
        self.ys@
    }

    open spec fn reads(&self) -> nat {
        2 * self.frame().len()
    }

    open spec fn valid(&self) -> bool {
        true
    }

    open spec fn emits(&self, input: Seq<T>, next: Seq<T>) -> bool {
        next.len() == self.frame().len() && forall|c: int|
            0 <= c < next.len() ==> self.function().ensures(
                (input[c], input[c + next.len()]),
                #[trigger] next[c],
            )
    }

    fn inputs(&self) -> (r: u8) {
        2
    }

    fn output(&self) -> (r: &[T]) {
        self.ys.as_slice()
    }

    fn sample(&mut self, input: &[T])
        ensures
            final(self).function() == old(self).function(),
            forall|c: int|
                0 <= c < old(self).frame().len() ==> old(self).function().ensures(
                    (input@[c], input@[c + old(self).frame().len()]),
                    #[trigger] final(self).frame()[c],
                ),
    {
        let n = self.ys.len();
        let mut i: usize = 0;
        while i < n
            invariant
                n == self.ys@.len(),
                2 * n <= input@.len(),
                i <= n,
                self.f == old(self).f,
                forall|c: int|
                    0 <= c < i ==> self.f.function().ensures(
                        (input@[c], input@[c + n]),
                        #[trigger] self.ys@[c],
                    ),
            decreases n - i,
        {
            let y = self.f.call(input[i], input[i + n]);
            self.ys.set(i, y);
            i = i + 1;
        }
    }
}

/// Applies `f` channel by channel to its three sources.
#[verifier::reject_recursive_types(T)]
pub struct Fn3<T, F: Fn(T, T, T) -> T> {
    ys: Vec<T>,
    f: Ternary<T, T, F>,
}

impl<T: Scalar, F: Fn(T, T, T) -> T> Fn3<T, F> {
    /// The function applied.
    pub closed spec fn function(&self) -> F {
        self.f.function()
    }

    pub fn new(channels: usize, f: F) -> (r: Self)
        requires
            forall|x: T, y: T, z: T| f.requires((x, y, z)),
        ensures
            r.frame() == Seq::new(channels as nat, |_i: int| zero::<T>()),
            r.function() == f,
    {
        Fn3 { ys: filled(channels, T::from_usize(0)), f: Ternary::new(f) }
    }
}

impl<T: Scalar, F: Fn(T, T, T) -> T> Module<T> for Fn3<T, F> {
    open spec fn arity(&self) -> u8 {
        3
    }

    closed spec fn frame(&self) -> Seq<T> {
        self.ys@
    }

    open spec fn reads(&self) -> nat {
        3 * self.frame().len()
    }

    open spec fn valid(&self) -> bool {
        true
    }

    open spec fn emits(&self, input: Seq<T>, next: Seq<T>) -> bool {
        next.len() == self.frame().len() && forall|c: int|
            0 <= c < next.len() ==> self.function().ensures(
                (input[c], input[c + next.len()], input[c + 2 * next.len()]),
                #[trigger] next[c],
            )
    }

    fn inputs(&self) -> (r: u8) {
        3
    }

    fn output(&self) -> (r: &[T]) {
        self.ys.as_slice()
    }

    fn sample(&mut self, input: &[T])
        ensures
            final(self).function() == old(self).function(),
            forall|c: int|
                0 <= c < old(self).frame().len() ==> old(self).function().ensures(
                    (
                        input@[c],
                        input@[c + old(self).frame().len()],
                        input@[c + 2 * old(self).frame().len()],
                    ),
                    #[trigger] final(self).frame()[c],
                ),
    {
        let n = self.ys.len();
        let mut i: usize = 0;
        while i < n
            invariant
                n == self.ys@.len(),
                3 * n <= input@.len(),
                i <= n,
                self.f == old(self).f,
                forall|c: int|
                    0 <= c < i ==> self.f.function().ensures(
                        (input@[c], input@[c + n], input@[c + 2 * n]),
                        #[trigger] self.ys@[c],
                    ),
            decreases n - i,
        {
            let y = self.f.call(input[i], input[i + n], input[i + 2 * n]);
            self.ys.set(i, y);
            i = i + 1;
        }
    }
}

} // verus!
