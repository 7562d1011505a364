//! Properties of the audio graph that relate several of its operations.
use vstd::prelude::*;
use crate::graph::{fed, fed_with, holds_frames, is_topo, linked, slot, AudioGraph};
use crate::module::Module;
use crate::scalar::Scalar;

verus! {

/// In a graph whose connections admit a topological order, the cached order
/// (once brought up to date) is one: it lists every node once, and every
/// source stands before each of its sinks.
pub proof fn lemma_order_is_topological<T: Scalar, N: Module<T>>(g: AudioGraph<T, N>)
    requires
        g.wf(),
        g.sorted(),
        exists|s: Seq<usize>| is_topo(s, g.nodes_view().len(), g.sources_view()),
    ensures
        is_topo(g.order_view(), g.nodes_view().len(), g.sources_view()),
        forall|i: int, j: int|
            0 <= i < g.order_view().len() && 0 <= j < g.order_view().len() && linked(
                g.sources_view(),
                #[trigger] g.order_view()[i],
                #[trigger] g.order_view()[j],
            ) ==> i < j,
{
    if g.order_view().len() == 0 {
        let s = choose|s: Seq<usize>| is_topo(s, g.nodes_view().len(), g.sources_view());
        assert(g.nodes_view().len() == 0);
        assert(g.order_view() =~= s);
    }
}

/// Source order round trip: where the sources of `sink` are `[a, b, c]` and the
/// scratch buffer holds their frames, the buffer starts with the frame of `a`,
/// then that of `b`, then that of `c`.
pub proof fn lemma_source_order<T: Scalar, N: Module<T>>(
    g: AudioGraph<T, N>,
    sink: usize,
    a: usize,
    b: usize,
    c: usize,
)
    requires
        g.wf(),
        sink < g.nodes_view().len(),
        g.sources_view()[sink as int] == seq![a, b, c],
        holds_frames(g.scratch(), g.nodes_view(), g.sources_view()[sink as int], g.width() as int),
    ensures
        g.scratch().take(3 * g.width() as int) == g.nodes_view()[a as int].frame() + g.nodes_view()[
            b as int
        ].frame() + g.nodes_view()[c as int].frame(),
{
    let w = g.width() as int;
    let s = g.scratch();
    let srcs = g.sources_view()[sink as int];
    g.lemma_scratch_len();
    assert(slot(s, 0, w) == g.nodes_view()[a as int].frame());
    assert(slot(s, 1, w) == g.nodes_view()[b as int].frame());
    assert(slot(s, 2, w) == g.nodes_view()[c as int].frame());
    assert(s.take(3 * w) =~= slot(s, 0, w) + slot(s, 1, w) + slot(s, 2, w));
}

/// Sources come first: in a well-formed graph, every source of a node in the
/// traversal order is in the order too, at an earlier position. One `sample`
/// therefore advances each source before its sink, and the sink reads the
/// frame that the source has at the end of that call (see `sample`).
pub proof fn lemma_sources_come_first<T: Scalar, N: Module<T>>(g: AudioGraph<T, N>, k: int, i: int)
    requires
        g.wf(),
        0 <= k < g.order_view().len(),
        0 <= i < g.sources_view()[g.order_view()[k] as int].len(),
    ensures
        exists|j: int|
            0 <= j < k && g.order_view()[j] == g.sources_view()[g.order_view()[k] as int][i],
{
    let v = g.order_view()[k];
    let u = g.sources_view()[v as int][i];
    assert(linked(g.sources_view(), u, v));
    assert(g.order_view().contains(u));
    let j = choose|j: int| 0 <= j < g.order_view().len() && g.order_view()[j] == u;
    assert(linked(g.sources_view(), g.order_view()[j], g.order_view()[k]));
}

/// Source order round trip through `sample`: where `before` is well formed, the
/// node at position `k` of its order has sources `[a, b, c]`, and `after` is
/// the graph after one `sample` call, that node was advanced on an input that
/// starts with the frames of `a`, `b` and `c` in `after`, in that order.
pub proof fn lemma_sample_lays_out_sources<T: Scalar, N: Module<T>>(
    before: AudioGraph<T, N>,
    after: AudioGraph<T, N>,
    external: Seq<T>,
    k: int,
    a: usize,
    b: usize,
    c: usize,
)
    requires
        before.wf(),
        0 <= k < before.order_view().len(),
        before.sources_view()[before.order_view()[k] as int] == seq![a, b, c],
        before.nodes_view()[before.order_view()[k] as int].arity() > 0,
        fed(
            before.nodes_view(),
            after.nodes_view(),
            before.sources_view()[before.order_view()[k] as int],
            before.width() as int,
            external,
            before.order_view()[k] as int,
        ),
    ensures
        exists|input: Seq<T>|
            before.nodes_view()[before.order_view()[k] as int].emits(
                input,
                after.nodes_view()[before.order_view()[k] as int].frame(),
            ) && input.take(3 * before.width() as int) == after.nodes_view()[a as int].frame()
                + after.nodes_view()[b as int].frame() + after.nodes_view()[c as int].frame(),
{
    let v = before.order_view()[k] as int;
    let w = before.width() as int;
    let srcs = before.sources_view()[v];
    let input = choose|input: Seq<T>|
        #[trigger] fed_with(before.nodes_view(), after.nodes_view(), srcs, w, external, v, input);
    assert(slot(input, 0, w) == after.nodes_view()[a as int].frame());
    assert(slot(input, 1, w) == after.nodes_view()[b as int].frame());
    assert(slot(input, 2, w) == after.nodes_view()[c as int].frame());
    assert(input.take(3 * w) =~= slot(input, 0, w) + slot(input, 1, w) + slot(input, 2, w));
}

/// `connect(x, y)` followed by `connect(z, y)` leaves `y` with exactly one
/// source, `z`, whatever its sources were before.
pub proof fn lemma_connect_replaces(
    before: Seq<Seq<usize>>,
    middle: Seq<Seq<usize>>,
    after: Seq<Seq<usize>>,
    x: usize,
    y: usize,
    z: usize,
)
    requires
        y < before.len(),
        middle == before.update(y as int, seq![x]),
        after == middle.update(y as int, seq![z]),
    ensures
        after[y as int] == seq![z],
        forall|u: usize| #[trigger] linked(after, u, y) <==> u == z,
{
    assert forall|u: usize| #[trigger] linked(after, u, y) <==> u == z by {
        if u == z {
            assert(after[y as int][0] == z);
        }
    }
}

} // verus!
