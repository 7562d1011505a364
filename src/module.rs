//! The node contract.
use vstd::prelude::*;

verus! {

/// A sound-producing node of an audio graph.
///
/// A node reads a flat input slice, laid out source-major and channel-minor:
/// scalar `k * channels + c` is channel `c` of the `k`-th source. A node without
/// sources reads the external frame from the start of the slice instead.
///
/// The spec functions have default bodies only so that implementations written
/// outside Verus compile; every node of this crate, and `AnyNode` over all of
/// them, defines them, and the graph, generic over its nodes, never relies on
/// a default.
pub trait Module<T> {
    /// How many sources must be connected to this node.
    open spec fn arity(&self) -> u8 {
        0
    }

    /// The node's current frame.
    open spec fn frame(&self) -> Seq<T> {
        Seq::empty()
    }

    /// How many scalars of the input slice the node reads.
    open spec fn reads(&self) -> nat {
        0
    }

    /// The node's internal invariant.
    open spec fn valid(&self) -> bool {
        true
    }

    /// `next` is the frame this node outputs after one frame on `input`.
    open spec fn emits(&self, input: Seq<T>, next: Seq<T>) -> bool {
        true
    }

    /// How many sources must be connected to this node.
    fn inputs(&self) -> (r: u8)
        ensures
            r == self.arity(),
    ;

    /// The node's current frame; the same between two calls of `sample`.
    fn output(&self) -> (r: &[T])
        ensures
            r@ == self.frame(),
    ;

    /// Advances the node by one frame.
    fn sample(&mut self, input: &[T])
        requires
            old(self).valid(),
            input@.len() >= old(self).reads(),
        ensures
            final(self).valid(),
            old(self).emits(input@, final(self).frame()),
            final(self).arity() == old(self).arity(),
            final(self).frame().len() == old(self).frame().len(),
            final(self).reads() == old(self).reads(),
    ;
}

} // verus!
