//! The audio graph: nodes, source-to-sink connections, and a per-frame
//! traversal in topological order through one reusable scratch buffer.
use vstd::prelude::*;
use vstd::set_lib::{lemma_int_range, lemma_len_subset, lemma_subset_equality, set_int_range};
use crate::module::Module;
use crate::modules::filled;
use crate::scalar::{zero, Scalar};
use crate::topo::{
    add_arc, add_vertex, arcs, empty_digraph, is_topological_order, topological_sort, vertex_count,
    INDEX_END,
};

verus! {

/// How many sources a sink may have: the scratch buffer holds this many frames.
pub const MAX_SOURCES: usize = 16;

/// How many nodes a graph may hold, so that the graph handed to the
/// topological sort stays within its index range.
pub const MAX_NODES: usize = 16777216;

/// `a` is a source of `b`.
pub open spec fn linked(sources: Seq<Seq<usize>>, a: usize, b: usize) -> bool {
    b < sources.len() && sources[b as int].contains(a)
}

/// Every source stands before its sink in `order`.
pub open spec fn respects(order: Seq<usize>, sources: Seq<Seq<usize>>) -> bool {
    forall|i: int, j: int|
        0 <= i < order.len() && 0 <= j < order.len() && #[trigger] linked(sources, order[i], order[j])
            ==> i < j
}

/// `order` lists each of the `n` nodes once, every source before its sinks.
pub open spec fn is_topo(order: Seq<usize>, n: nat, sources: Seq<Seq<usize>>) -> bool {
    &&& order.len() == n
    &&& order.no_duplicates()
    &&& forall|i: int| 0 <= i < order.len() ==> order[i] < n
    &&& respects(order, sources)
}

/// A topological order of `n` nodes lists every one of them.
pub proof fn lemma_topo_covers(order: Seq<usize>, n: nat, sources: Seq<Seq<usize>>)
    requires
        is_topo(order, n, sources),
    ensures
        forall|k: usize| k < n ==> #[trigger] order.contains(k),
{
    let oi = order.map_values(|x: usize| x as int);
    assert forall|i: int, j: int| 0 <= i < oi.len() && 0 <= j < oi.len() && i != j implies oi[i]
        != oi[j] by {}
    assert(oi.no_duplicates());
    oi.unique_seq_to_set();
    lemma_int_range(0, n as int);
    assert(oi.to_set().subset_of(set_int_range(0, n as int))) by {
        assert forall|x: int| oi.to_set().contains(x) implies set_int_range(0, n as int).contains(x) by {
            let i = choose|i: int| 0 <= i < oi.len() && oi[i] == x;
        }
    }
    lemma_len_subset(oi.to_set(), set_int_range(0, n as int));
    lemma_subset_equality(oi.to_set(), set_int_range(0, n as int));
    assert forall|k: usize| k < n implies #[trigger] order.contains(k) by {
        assert(set_int_range(0, n as int).contains(k as int));
        assert(oi.to_set().contains(k as int));
        let i = choose|i: int| 0 <= i < oi.len() && oi[i] == k as int;
        assert(order[i] == k);
    }
}

/// The `i`-th frame-wide slot of a flat buffer.
pub open spec fn slot<T>(s: Seq<T>, i: int, width: int) -> Seq<T> {
    s.subrange(i * width, i * width + width)
}

/// Slot `i` of `input` holds the frame of the `i`-th of `sources`, for each of them.
pub open spec fn holds_frames<T, N: Module<T>>(
    input: Seq<T>,
    nodes: Seq<N>,
    sources: Seq<usize>,
    width: int,
) -> bool {
    forall|i: int|
        0 <= i < sources.len() ==> #[trigger] slot(input, i, width) == nodes[sources[i] as int].frame()
}

/// The frame of node `v` in `after` is the one that node `v` of `before`
/// emits on `input`: with sources, an input whose slots hold the frames that
/// the sources have in `after`; without, an input that starts with `external`.
pub open spec fn fed_with<T, N: Module<T>>(
    before: Seq<N>,
    after: Seq<N>,
    sources: Seq<usize>,
    width: int,
    external: Seq<T>,
    v: int,
    input: Seq<T>,
) -> bool {
    &&& input.len() == width * MAX_SOURCES
    &&& before[v].emits(input, after[v].frame())
    &&& if before[v].arity() > 0 {
        holds_frames(input, after, sources, width)
    } else {
        input.subrange(0, external.len() as int) == external
    }
}

/// Node `v` was advanced by one frame on the input that `fed_with` describes.
pub open spec fn fed<T, N: Module<T>>(
    before: Seq<N>,
    after: Seq<N>,
    sources: Seq<usize>,
    width: int,
    external: Seq<T>,
    v: int,
) -> bool {
    exists|input: Seq<T>| #[trigger] fed_with(before, after, sources, width, external, v, input)
}

proof fn lemma_frames_kept<T, N: Module<T>>(
    input: Seq<T>,
    n0: Seq<N>,
    n1: Seq<N>,
    v: int,
    sources: Seq<usize>,
    width: int,
)
    requires
        holds_frames(input, n0, sources, width),
        n1.len() == n0.len(),
        forall|u: int| 0 <= u < n0.len() && u != v ==> n1[u] == n0[u],
        forall|i: int| 0 <= i < sources.len() ==> sources[i] as int != v && sources[i] < n0.len(),
    ensures
        holds_frames(input, n1, sources, width),
{
    assert forall|i: int| 0 <= i < sources.len() implies #[trigger] slot(input, i, width)
        == n1[sources[i] as int].frame() by {
        assert(n1[sources[i] as int] == n0[sources[i] as int]);
    }
}

/// Scalar `c` of the `i`-th frame-wide slot of a flat buffer.
pub open spec fn cell<T>(s: Seq<T>, i: int, width: int, c: int) -> T {
    s[i * width + c]
}

/// The sources after `chain(nodes)`: each node after the first gets the one
/// before it as its only source, from left to right.
pub open spec fn chained(sources: Seq<Seq<usize>>, nodes: Seq<usize>) -> Seq<Seq<usize>>
    decreases nodes.len(),
{
    if nodes.len() < 2 {
        sources
    } else {
        chained(sources, nodes.drop_last()).update(
            nodes.last() as int,
            seq![nodes[nodes.len() - 2]],
        )
    }
}

/// A network of nodes, each fed by an ordered list of source nodes.
pub struct AudioGraph<T, N> {
    channels: usize,
    nodes: Vec<N>,
    /// For each sink, its sources in the order their frames are laid out in its input.
    sources: Vec<Vec<usize>>,
    /// The scratch buffer that each node's input is assembled in.
    input: Vec<T>,
    /// The cached traversal order.
    order: Vec<usize>,
}

proof fn lemma_slot_in_range(i: int, k: int, width: int)
    requires
        0 <= i < k <= MAX_SOURCES,
        0 <= width,
    ensures
        i * width + width <= width * MAX_SOURCES,
        0 <= i * width,
{
    assert(i * width + width <= width * MAX_SOURCES) by (nonlinear_arith)
        requires
            0 <= i < k <= MAX_SOURCES,
            0 <= width,
    ;
    assert(0 <= i * width) by (nonlinear_arith)
        requires
            0 <= i,
            0 <= width,
    ;
}

proof fn lemma_slots_apart(i2: int, c2: int, i: int, c: int, width: int)
    requires
        0 <= i2 < i,
        0 <= c2 < width,
        0 <= c,
    ensures
        i2 * width + c2 < i * width + c,
{
    assert(i2 * width + c2 < i * width + c) by (nonlinear_arith)
        requires
            0 <= i2 < i,
            0 <= c2 < width,
            0 <= c,
    ;
}

impl<T: Scalar, N: Module<T>> AudioGraph<T, N> {
    /// The number of channels of every frame in the graph.
    pub closed spec fn width(&self) -> nat {
        self.channels as nat
    }

    /// The nodes, by handle.
    pub closed spec fn nodes_view(&self) -> Seq<N> {
        self.nodes@
    }

    /// For each node, its sources in input layout order.
    pub closed spec fn sources_view(&self) -> Seq<Seq<usize>> {
        self.sources@.map_values(|s: Vec<usize>| s@)
    }

    /// The cached traversal order.
    pub closed spec fn order_view(&self) -> Seq<usize> {
        self.order@
    }

    /// The scratch buffer.
    pub closed spec fn scratch(&self) -> Seq<T> {
        self.input@
    }

    /// The graph's invariant: its public shape, and the internal one.
    pub open spec fn wf(&self) -> bool {
        &&& self.shape()
        &&& self.wf_inner()
    }

    /// What a well-formed graph guarantees of its views: every node has a
    /// source list of at most `MAX_SOURCES` nodes of the graph, every node's
    /// frame has the graph's width, the order lists nodes once each with every
    /// source before its sinks, and a non-empty order holds every connected node.
    pub open spec fn shape(&self) -> bool {
        &&& self.sources_view().len() == self.nodes_view().len()
        &&& self.scratch().len() == self.width() * MAX_SOURCES
        &&& forall|v: int|
            0 <= v < self.sources_view().len() ==> (#[trigger] self.sources_view()[v]).len()
                <= MAX_SOURCES
        &&& forall|v: int, k: int|
            0 <= v < self.sources_view().len() && 0 <= k < self.sources_view()[v].len()
                ==> #[trigger] self.sources_view()[v][k] < self.nodes_view().len()
        &&& forall|v: int|
            0 <= v < self.nodes_view().len() ==> (#[trigger] self.nodes_view()[v]).frame().len()
                == self.width() && self.nodes_view()[v].valid() && self.nodes_view()[v].reads()
                <= self.scratch().len()
        &&& self.order_view().no_duplicates()
        &&& forall|i: int|
            0 <= i < self.order_view().len() ==> #[trigger] self.order_view()[i]
                < self.nodes_view().len()
        &&& respects(self.order_view(), self.sources_view())
        &&& self.order_view().len() > 0 ==> forall|a: usize, b: usize|
            #[trigger] linked(self.sources_view(), a, b) ==> self.order_view().contains(a)
                && self.order_view().contains(b)
    }

    /// The internal invariant.
    pub closed spec fn wf_inner(&self) -> bool {
        &&& self.nodes@.len() == self.sources@.len()
        &&& self.nodes@.len() <= MAX_NODES
        &&& self.input@.len() == self.channels * MAX_SOURCES
        &&& forall|v: int| 0 <= v < self.sources@.len() ==> self.sources@[v]@.len() <= MAX_SOURCES
        &&& forall|v: int, k: int|
            0 <= v < self.sources@.len() && 0 <= k < self.sources@[v]@.len()
                ==> self.sources@[v]@[k] < self.nodes@.len()
        &&& forall|v: int|
            0 <= v < self.nodes@.len() ==> (#[trigger] self.nodes@[v]).frame().len()
                == self.channels && self.nodes@[v].reads() <= self.input@.len()
                && self.nodes@[v].valid()
        &&& self.order@.no_duplicates()
        &&& forall|i: int| 0 <= i < self.order@.len() ==> self.order@[i] < self.nodes@.len()
        &&& respects(self.order@, self.sources_view())
    }

    /// The scratch buffer holds a frame-wide slot for each possible source.
    pub proof fn lemma_scratch_len(&self)
        requires
            self.wf(),
        ensures
            self.scratch().len() == self.width() * MAX_SOURCES,
    {
    }

    /// The cached order is up to date: a topological order of all nodes, or
    /// empty where there are no nodes or the connections form a cycle.
    pub open spec fn sorted(&self) -> bool {
        &&& self.order_view().len() > 0 ==> is_topo(
            self.order_view(),
            self.nodes_view().len(),
            self.sources_view(),
        )
        &&& self.order_view().len() == 0 ==> (self.nodes_view().len() == 0 || !exists|s: Seq<
            usize,
        >| is_topo(s, self.nodes_view().len(), self.sources_view()))
    }

    /// An empty graph whose frames have `channels` scalars.
    pub fn new(channels: usize) -> (r: Self)
        requires
            channels * MAX_SOURCES <= usize::MAX,
        ensures
            r.wf(),
            r.width() == channels,
            r.nodes_view().len() == 0,
            r.sources_view().len() == 0,
            r.order_view().len() == 0,
            r.scratch() == Seq::new((channels * MAX_SOURCES) as nat, |_i: int| zero::<T>()),
    {
        let input = filled(channels * MAX_SOURCES, T::from_usize(0));
        let r = AudioGraph { channels, nodes: Vec::new(), sources: Vec::new(), input, order: Vec::new() };
        assert(r.sources_view() =~= Seq::<Seq<usize>>::empty());
        r
    }

    /// The node with handle `idx`.
    pub fn node(&self, idx: usize) -> (r: &N)
        requires
            idx < self.nodes_view().len(),
        ensures
            *r == self.nodes_view()[idx as int],
    {
        &self.nodes[idx]
    }

    /// Adds a node without sources and returns its handle. The traversal order
    /// is left as it is until the next change of connections.
    pub fn add_node(&mut self, n: N) -> (r: usize)
        requires
            old(self).wf(),
            old(self).nodes_view().len() < MAX_NODES,
            n.frame().len() == old(self).width(),
            n.reads() <= old(self).width() * MAX_SOURCES,
            n.valid(),
        ensures
            final(self).wf(),
            r == old(self).nodes_view().len(),
            final(self).width() == old(self).width(),
            final(self).nodes_view() == old(self).nodes_view().push(n),
            final(self).sources_view() == old(self).sources_view().push(Seq::empty()),
            final(self).order_view() == old(self).order_view(),
    {
        let r = self.nodes.len();
        self.nodes.push(n);
        self.sources.push(Vec::new());
        proof {
            let s0 = old(self).sources_view();
            let s1 = self.sources_view();
            assert(s1 =~= s0.push(Seq::empty()));
            assert forall|i: int, j: int|
                0 <= i < self.order@.len() && 0 <= j < self.order@.len() && #[trigger] linked(
                    s1,
                    self.order@[i],
                    self.order@[j],
                ) implies i < j by {
                assert(linked(s0, self.order@[i], self.order@[j]));
            }
            assert forall|v: int| 0 <= v < self.nodes@.len() implies (
            #[trigger] self.nodes@[v]).frame().len() == self.channels && self.nodes@[v].reads()
                <= self.input@.len() && self.nodes@[v].valid() by {
                if v < r {
                    assert(self.nodes@[v] == old(self).nodes@[v]);
                }
            }
            if self.order@.len() > 0 {
                assert forall|a: usize, b: usize| #[trigger] linked(s1, a, b) implies self.order@.contains(
                    a,
                ) && self.order@.contains(b) by {
                    if b < r {
                        assert(s1[b as int] == s0[b as int]);
                        assert(linked(s0, a, b));
                    } else {
                        assert(s1[b as int] =~= Seq::<usize>::empty());
                    }
                }
            }
        }
        r
    }

    /// Recomputes the traversal order; it is empty where the connections form a cycle.
    pub fn update_order(&mut self)
        requires
            old(self).wf(),
        ensures
            final(self).wf(),
            final(self).sorted(),
            final(self).width() == old(self).width(),
            final(self).nodes_view() == old(self).nodes_view(),
            final(self).sources_view() == old(self).sources_view(),
    {
        let ghost srcs = self.sources_view();
        let n = self.nodes.len();
        let mut g = empty_digraph();
        let mut v: usize = 0;
        while v < n
            invariant
                v <= n,
                n <= MAX_NODES,
                vertex_count(g) == v,
                arcs(g).len() == 0,
            decreases n - v,
        {
            add_vertex(&mut g);
            v = v + 1;
        }
        let mut b: usize = 0;
        while b < n
            invariant
                self.wf(),
                srcs == self.sources_view(),
                n == self.nodes@.len(),
                b <= n,
                vertex_count(g) == n,
                arcs(g).len() <= b * MAX_SOURCES,
                forall|x: int, y: int|
                    #![trigger arcs(g).count((x, y))]
                    arcs(g).count((x, y)) > 0 <==> (0 <= x < n && 0 <= y < b && linked(
                        srcs,
                        x as usize,
                        y as usize,
                    )),
            decreases n - b,
        {
            let len = self.sources[b].len();
            let mut k: usize = 0;
            while k < len
                invariant
                    self.wf(),
                    srcs == self.sources_view(),
                    n == self.nodes@.len(),
                    b < n,
                    len == srcs[b as int].len(),
                    k <= len,
                    vertex_count(g) == n,
                    arcs(g).len() <= b * MAX_SOURCES + k,
                    forall|x: int, y: int|
                        #![trigger arcs(g).count((x, y))]
                        arcs(g).count((x, y)) > 0 <==> ((0 <= x < n && 0 <= y < b && linked(
                            srcs,
                            x as usize,
                            y as usize,
                        )) || (0 <= x < n && y == b && srcs[b as int].take(k as int).contains(
                            x as usize,
                        ))),
                decreases len - k,
            {
                let a = self.sources[b][k];
                assert(self.sources@[b as int]@[k as int] == a);
                assert(srcs[b as int][k as int] == a);
                assert(a < n);
                let ghost before = arcs(g);
                add_arc(&mut g, a, b);
                proof {
                    let t0 = srcs[b as int].take(k as int);
                    let t1 = srcs[b as int].take(k as int + 1);
                    assert(t1 =~= t0.push(a));
                    assert forall|x: int, y: int|
                        #![trigger arcs(g).count((x, y))]
                        arcs(g).count((x, y)) > 0 <==> ((0 <= x < n && 0 <= y < b && linked(
                            srcs,
                            x as usize,
                            y as usize,
                        )) || (0 <= x < n && y == b && t1.contains(x as usize))) by {
                        assert(arcs(g).count((x, y)) == before.count((x, y)) + if (x, y) == (
                            a as int,
                            b as int,
                        ) {
                            1int
                        } else {
                            0int
                        });
                        if x == a as int && y == b as int {
                            assert(t1[k as int] == a);
                        }
                        if 0 <= x < n && y == b && t1.contains(x as usize) && !t0.contains(
                            x as usize,
                        ) {
                            let j = choose|j: int| 0 <= j < t1.len() && t1[j] == x as usize;
                            assert(j == k);
                        }
                        if 0 <= x < n && y == b && t0.contains(x as usize) {
                            let j = choose|j: int| 0 <= j < t0.len() && t0[j] == x as usize;
                            assert(t1[j] == x as usize);
                        }
                    }
                }
                k = k + 1;
            }
            proof {
                assert(srcs[b as int].take(len as int) =~= srcs[b as int]);
                assert forall|x: int, y: int|
                    #![trigger arcs(g).count((x, y))]
                    arcs(g).count((x, y)) > 0 <==> (0 <= x < n && 0 <= y < b + 1 && linked(
                        srcs,
                        x as usize,
                        y as usize,
                    )) by {}
            }
            b = b + 1;
        }
        match topological_sort(&g) {
            Some(order) => {
                proof {
                    assert forall|i: int, j: int|
                        0 <= i < order@.len() && 0 <= j < order@.len() && #[trigger] linked(
                            srcs,
                            order@[i],
                            order@[j],
                        ) implies i < j by {
                        assert(arcs(g).count((order@[i] as int, order@[j] as int)) > 0);
                    }
                    lemma_topo_covers(order@, n as nat, srcs);
                    assert forall|a: usize, b: usize| #[trigger] linked(srcs, a, b) implies order@.contains(
                        a,
                    ) && order@.contains(b) by {
                        let k = choose|k: int| 0 <= k < srcs[b as int].len() && srcs[b as int][k] == a;
                        assert(self.sources@[b as int]@[k] == a);
                    }
                }
                self.order = order;
            },
            None => {
                proof {
                    assert forall|s: Seq<usize>| !is_topo(s, n as nat, srcs) by {
                        if is_topo(s, n as nat, srcs) {
                            assert forall|i: int, j: int|
                                0 <= i < s.len() && 0 <= j < s.len() && arcs(g).count(
                                    (s[i] as int, s[j] as int),
                                ) > 0 implies i < j by {
                                assert(linked(srcs, s[i], s[j]));
                            }
                            assert(is_topological_order(s, vertex_count(g), arcs(g)));
                        }
                    }
                }
                self.order = Vec::new();
            },
        }
    }

    /// Makes `a` the only source of `b`.
    pub fn connect(&mut self, a: usize, b: usize)
        requires
            old(self).wf(),
            a < old(self).nodes_view().len(),
            b < old(self).nodes_view().len(),
        ensures
            final(self).wf(),
            final(self).sorted(),
            final(self).width() == old(self).width(),
            final(self).nodes_view() == old(self).nodes_view(),
            final(self).sources_view() == old(self).sources_view().update(b as int, seq![a]),
    {
        let mut s: Vec<usize> = Vec::new();
        s.push(a);
        self.replace_sources(b, s);
        self.update_order();
    }

    /// Connects the nodes in a chain from left to right: each node after the
    /// first gets the one before it as its only source.
    pub fn chain(&mut self, nodes: &[usize])
        requires
            old(self).wf(),
            forall|i: int| 0 <= i < nodes@.len() ==> nodes@[i] < old(self).nodes_view().len(),
        ensures
            final(self).wf(),
            final(self).sorted(),
            final(self).width() == old(self).width(),
            final(self).nodes_view() == old(self).nodes_view(),
            final(self).sources_view() == chained(old(self).sources_view(), nodes@),
    {
        if nodes.len() == 0 {
            self.update_order();
            return;
        }
        assert(chained(old(self).sources_view(), nodes@.take(1)) == old(self).sources_view());
        let mut i: usize = 1;
        while i < nodes.len()
            invariant
                self.wf(),
                1 <= i <= nodes@.len(),
                self.width() == old(self).width(),
                self.nodes_view() == old(self).nodes_view(),
                forall|j: int| 0 <= j < nodes@.len() ==> nodes@[j] < self.nodes@.len(),
                self.sources_view() == chained(
                    old(self).sources_view(),
                    nodes@.take(i as int),
                ),
            decreases nodes@.len() - i,
        {
            let mut s: Vec<usize> = Vec::new();
            s.push(nodes[i - 1]);
            self.replace_sources(nodes[i], s);
            proof {
                let t = nodes@.take(i as int + 1);
                assert(t.drop_last() =~= nodes@.take(i as int));
                assert(seq![t[t.len() - 2]] =~= seq![nodes@[i - 1]]);
            }
            i = i + 1;
        }
        assert(nodes@.take(nodes@.len() as int) =~= nodes@);
        self.update_order();
    }

    /// Sets the sources of `sink`; their frames are laid out in `sink`'s input
    /// in the order given.
    pub fn set_sources(&mut self, sink: usize, sources: &[usize])
        requires
            old(self).wf(),
            sink < old(self).nodes_view().len(),
            sources@.len() <= MAX_SOURCES,
            forall|i: int| 0 <= i < sources@.len() ==> sources@[i] < old(self).nodes_view().len(),
        ensures
            final(self).wf(),
            final(self).sorted(),
            final(self).width() == old(self).width(),
            final(self).nodes_view() == old(self).nodes_view(),
            final(self).sources_view() == old(self).sources_view().update(sink as int, sources@),
    {
        let mut s: Vec<usize> = Vec::new();
        let mut i: usize = 0;
        while i < sources.len()
            invariant
                i <= sources@.len(),
                s@ == sources@.take(i as int),
            decreases sources@.len() - i,
        {
            s.push(sources[i]);
            assert(sources@.take(i as int + 1) =~= sources@.take(i as int).push(sources@[i as int]));
            i = i + 1;
        }
        assert(sources@.take(sources@.len() as int) =~= sources@);
        self.replace_sources(sink, s);
        self.update_order();
    }

    /// Sets the sources of `sink` in the reverse of the order given.
    pub fn set_sources_rev(&mut self, sink: usize, sources: &[usize])
        requires
            old(self).wf(),
            sink < old(self).nodes_view().len(),
            sources@.len() <= MAX_SOURCES,
            forall|i: int| 0 <= i < sources@.len() ==> sources@[i] < old(self).nodes_view().len(),
        ensures
            final(self).wf(),
            final(self).sorted(),
            final(self).width() == old(self).width(),
            final(self).nodes_view() == old(self).nodes_view(),
            final(self).sources_view() == old(self).sources_view().update(
                sink as int,
                sources@.reverse(),
            ),
    {
        let mut s: Vec<usize> = Vec::new();
        let mut i: usize = sources.len();
        while i > 0
            invariant
                i <= sources@.len(),
                s@ == sources@.subrange(i as int, sources@.len() as int).reverse(),
            decreases i,
        {
            i = i - 1;
            s.push(sources[i]);
            assert(sources@.subrange(i as int, sources@.len() as int).reverse() =~= sources@.subrange(
                i as int + 1,
                sources@.len() as int,
            ).reverse().push(sources@[i as int]));
        }
        assert(sources@.subrange(0, sources@.len() as int) =~= sources@);
        self.replace_sources(sink, s);
        self.update_order();
    }

    /// Drops all nodes and connections.
    pub fn clear(&mut self)
        requires
            old(self).wf(),
        ensures
            final(self).wf(),
            final(self).sorted(),
            final(self).width() == old(self).width(),
            final(self).nodes_view().len() == 0,
            final(self).sources_view().len() == 0,
            final(self).order_view().len() == 0,
    {
        self.order.clear();
        self.nodes.clear();
        self.sources.clear();
        assert(self.sources_view() =~= Seq::<Seq<usize>>::empty());
    }

    /// Puts `s` in place of `sink`'s sources; the order is not yet recomputed,
    /// so it may not respect the new connections.
    fn replace_sources(&mut self, sink: usize, s: Vec<usize>)
        requires
            old(self).wf(),
            sink < old(self).nodes@.len(),
            s@.len() <= MAX_SOURCES,
            forall|i: int| 0 <= i < s@.len() ==> s@[i] < old(self).nodes@.len(),
        ensures
            final(self).nodes@ == old(self).nodes@,
            final(self).channels == old(self).channels,
            final(self).input@ == old(self).input@,
            final(self).sources_view() == old(self).sources_view().update(sink as int, s@),
            final(self).order@.len() == 0,
            final(self).wf(),
    {
        self.order.clear();
        self.sources.set(sink, s);
        assert(self.sources_view() =~= old(self).sources_view().update(sink as int, s@));
    }

    /// Assembles the input of node `v` in the scratch buffer: with sources, the
    /// `i`-th slot holds the frame of the `i`-th source; without, the buffer
    /// starts with the external frame.
    pub fn gather(&mut self, v: usize, external: &[T])
        requires
            old(self).wf(),
            v < old(self).nodes_view().len(),
            external@.len() <= old(self).width() * MAX_SOURCES,
        ensures
            final(self).wf(),
            final(self).nodes_view() == old(self).nodes_view(),
            final(self).sources_view() == old(self).sources_view(),
            final(self).order_view() == old(self).order_view(),
            final(self).width() == old(self).width(),
            old(self).nodes_view()[v as int].arity() > 0 ==> holds_frames(
                final(self).scratch(),
                old(self).nodes_view(),
                old(self).sources_view()[v as int],
                old(self).width() as int,
            ),
            old(self).nodes_view()[v as int].arity() == 0 ==> final(self).scratch().subrange(
                0,
                external@.len() as int,
            ) == external@,
    {
        let ch = self.channels;
        let total = self.input.len();
        let ghost srcs = self.sources@[v as int]@;
        if self.nodes[v].inputs() > 0 {
            let k = self.sources[v].len();
            let mut i: usize = 0;
            while i < k
                invariant
                    self.wf(),
                    self.nodes@ == old(self).nodes@,
                    self.sources@ == old(self).sources@,
                    self.order@ == old(self).order@,
                    self.channels == ch,
                    v < self.nodes@.len(),
                    srcs == self.sources@[v as int]@,
                    k == srcs.len(),
                    k <= MAX_SOURCES,
                    total == self.input@.len(),
                    i <= k,
                    forall|i2: int, c2: int|
                        0 <= i2 < i && 0 <= c2 < ch ==> #[trigger] cell(self.input@, i2, ch as int, c2)
                            == self.nodes@[srcs[i2] as int].frame()[c2],
                decreases k - i,
            {
                let s = self.sources[v][i];
                proof {
                    lemma_slot_in_range(i as int, k as int, ch as int);
                    assert(i * ch + ch <= total);
                }
                let off = i * ch;
                let mut c: usize = 0;
                while c < ch
                    invariant
                        self.wf(),
                        self.nodes@ == old(self).nodes@,
                        self.sources@ == old(self).sources@,
                        self.order@ == old(self).order@,
                        self.channels == ch,
                        s < self.nodes@.len(),
                        s == srcs[i as int],
                        i < k,
                        k == srcs.len(),
                        k <= MAX_SOURCES,
                        off == i * ch,
                        off + ch <= self.input@.len(),
                        total == self.input@.len(),
                        c <= ch,
                        forall|i2: int, c2: int|
                            0 <= i2 < i && 0 <= c2 < ch ==> #[trigger] cell(self.input@, i2, ch as int, c2)
                                == self.nodes@[srcs[i2] as int].frame()[c2],
                        forall|c2: int|
                            0 <= c2 < c ==> #[trigger] cell(self.input@, i as int, ch as int, c2)
                                == self.nodes@[s as int].frame()[c2],
                    decreases ch - c,
                {
                    let x = self.nodes[s].output()[c];
                    let ghost before = self.input@;
                    self.input.set(off + c, x);
                    proof {
                        assert forall|i2: int, c2: int|
                            0 <= i2 < i && 0 <= c2 < ch implies #[trigger] cell(
                                self.input@,
                                i2,
                                ch as int,
                                c2,
                            ) == self.nodes@[srcs[i2] as int].frame()[c2] by {
                            lemma_slots_apart(i2, c2, i as int, c as int, ch as int);
                            assert(cell(before, i2, ch as int, c2) == self.nodes@[srcs[i2] as int].frame()[c2]);
                        }
                        assert forall|c2: int| 0 <= c2 < c + 1 implies #[trigger] cell(
                            self.input@,
                            i as int,
                            ch as int,
                            c2,
                        ) == self.nodes@[s as int].frame()[c2] by {
                            if c2 < c {
                                assert(cell(before, i as int, ch as int, c2) == self.nodes@[s as int].frame()[c2]);
                            }
                        }
                    }
                    c = c + 1;
                }
                i = i + 1;
            }
            proof {
                assert forall|i2: int| 0 <= i2 < srcs.len() implies slot(
                    self.input@,
                    i2,
                    ch as int,
                ) == self.nodes@[srcs[i2] as int].frame() by {
                    lemma_slot_in_range(i2, k as int, ch as int);
                    assert forall|c2: int| 0 <= c2 < ch implies slot(self.input@, i2, ch as int)[c2]
                        == self.nodes@[srcs[i2] as int].frame()[c2] by {
                        assert(cell(self.input@, i2, ch as int, c2) == self.nodes@[srcs[i2] as int].frame()[c2]);
                    }
                    assert(slot(self.input@, i2, ch as int) =~= self.nodes@[srcs[i2] as int].frame());
                }
                assert(srcs == self.sources_view()[v as int]);
            }
        } else {
            let mut c: usize = 0;
            while c < external.len()
                invariant
                    self.wf(),
                    self.nodes@ == old(self).nodes@,
                    self.sources@ == old(self).sources@,
                    self.order@ == old(self).order@,
                    self.channels == ch,
                    external@.len() <= self.input@.len(),
                    c <= external@.len(),
                    forall|c2: int| 0 <= c2 < c ==> self.input@[c2] == external@[c2],
                decreases external@.len() - c,
            {
                self.input.set(c, external[c]);
                c = c + 1;
            }
            assert(self.input@.subrange(0, external@.len() as int) =~= external@);
        }
    }

    /// Computes the next frame: walks the cached order, assembles each node's
    /// input and advances it, and returns the frame of the last node in the
    /// order (the scratch buffer where the order is empty).
    pub fn sample(&mut self, external: &[T]) -> (r: &[T])
        requires
            old(self).wf(),
            external@.len() <= old(self).width() * MAX_SOURCES,
        ensures
            final(self).wf(),
            final(self).width() == old(self).width(),
            final(self).nodes_view().len() == old(self).nodes_view().len(),
            final(self).sources_view() == old(self).sources_view(),
            final(self).order_view() == old(self).order_view(),
            forall|u: int|
                0 <= u < old(self).nodes_view().len() && !old(self).order_view().contains(u as usize)
                    ==> #[trigger] final(self).nodes_view()[u] == old(self).nodes_view()[u],
            forall|k: int|
                0 <= k < old(self).order_view().len() ==> #[trigger] fed(
                    old(self).nodes_view(),
                    final(self).nodes_view(),
                    old(self).sources_view()[old(self).order_view()[k] as int],
                    old(self).width() as int,
                    external@,
                    old(self).order_view()[k] as int,
                ),
            r@ == if final(self).order_view().len() == 0 {
                final(self).scratch()
            } else {
                final(self).nodes_view()[final(self).order_view().last() as int].frame()
            },
    {
        let mut k: usize = 0;
        while k < self.order.len()
            invariant
                self.wf(),
                self.channels == old(self).channels,
                self.nodes@.len() == old(self).nodes@.len(),
                self.sources_view() == old(self).sources_view(),
                self.order@ == old(self).order@,
                external@.len() <= self.input@.len(),
                k <= self.order@.len(),
                forall|u: int|
                    0 <= u < self.nodes@.len() && !old(self).order@.take(k as int).contains(u as usize)
                        ==> #[trigger] self.nodes@[u] == old(self).nodes@[u],
                forall|j: int|
                    0 <= j < k ==> #[trigger] fed(
                        old(self).nodes_view(),
                        self.nodes_view(),
                        old(self).sources_view()[old(self).order_view()[j] as int],
                        self.channels as int,
                        external@,
                        old(self).order_view()[j] as int,
                    ),
            decreases self.order@.len() - k,
        {
            let v = self.order[k];
            assert(old(self).order@.contains(v));
            proof {
                if old(self).order@.take(k as int).contains(v) {
                    let j = choose|j: int| 0 <= j < k && old(self).order@.take(k as int)[j] == v;
                    assert(old(self).order@[j] == old(self).order@[k as int]);
                }
            }
            let ghost n_start = self.nodes_view();
            assert(forall|j: int|
                0 <= j < k ==> #[trigger] fed(
                    old(self).nodes_view(),
                    n_start,
                    old(self).sources_view()[old(self).order_view()[j] as int],
                    self.channels as int,
                    external@,
                    old(self).order_view()[j] as int,
                ));
            self.gather(v, external);
            let ghost before = self.nodes@;
            assert(before == n_start);
            let ghost fed_input = self.input@;
            self.nodes[v].sample(self.input.as_slice());
            proof {
                let srcs = old(self).sources_view();
                let order = old(self).order@;
                let w = self.channels as int;
                assert(before[v as int] == old(self).nodes@[v as int]);
                assert forall|u: int| 0 <= u < before.len() && u != v implies self.nodes@[u]
                    == before[u] by {}
                // no node in the order is its own source
                assert forall|i: int| 0 <= i < srcs[v as int].len() implies srcs[v as int][i] as int
                    != v && srcs[v as int][i] < before.len() by {
                    if srcs[v as int][i] == v {
                        assert(linked(srcs, order[k as int], order[k as int]));
                    }
                }
                if before[v as int].arity() > 0 {
                    lemma_frames_kept(fed_input, before, self.nodes@, v as int, srcs[v as int], w);
                }
                assert(fed_with(
                    old(self).nodes_view(),
                    self.nodes_view(),
                    srcs[v as int],
                    w,
                    external@,
                    v as int,
                    fed_input,
                ));
                assert forall|j: int| 0 <= j < k + 1 implies #[trigger] fed(
                    old(self).nodes_view(),
                    self.nodes_view(),
                    srcs[order[j] as int],
                    w,
                    external@,
                    order[j] as int,
                ) by {
                    if j < k {
                        let u = order[j] as int;
                        assert(fed(
                            old(self).nodes_view(),
                            n_start,
                            old(self).sources_view()[old(self).order_view()[j] as int],
                            self.channels as int,
                            external@,
                            old(self).order_view()[j] as int,
                        ));
                        assert(fed(old(self).nodes_view(), before, srcs[u], w, external@, u));
                        let i0 = choose|i0: Seq<T>| #[trigger] fed_with(
                            old(self).nodes_view(),
                            before,
                            srcs[u],
                            w,
                            external@,
                            u,
                            i0,
                        );
                        assert(u != v);
                        assert forall|i: int| 0 <= i < srcs[u].len() implies srcs[u][i] as int
                            != v && srcs[u][i] < before.len() by {
                            if srcs[u][i] == v {
                                assert(linked(srcs, order[k as int], order[j]));
                            }
                        }
                        if old(self).nodes@[u].arity() > 0 {
                            lemma_frames_kept(i0, before, self.nodes@, v as int, srcs[u], w);
                        }
                        assert(fed_with(
                            old(self).nodes_view(),
                            self.nodes_view(),
                            srcs[u],
                            w,
                            external@,
                            u,
                            i0,
                        ));
                    }
                }
                assert forall|u: int|
                    0 <= u < self.nodes@.len() && !order.take(k + 1).contains(u as usize)
                        implies #[trigger] self.nodes@[u] == old(self).nodes@[u] by {
                    if order.take(k as int).contains(u as usize) {
                        let j = choose|j: int| 0 <= j < k && order.take(k as int)[j] == u as usize;
                        assert(order.take(k + 1)[j] == u as usize);
                    }
                    if u == v {
                        assert(order.take(k + 1)[k as int] == u as usize);
                    }
                }
            }
            proof {
                assert forall|u: int| 0 <= u < self.nodes@.len() implies (
                #[trigger] self.nodes@[u]).frame().len() == self.channels && self.nodes@[u].reads()
                    <= self.input@.len() && self.nodes@[u].valid() by {
                    if u != v {
                        assert(self.nodes@[u] == before[u]);
                    }
                }
            }
            k = k + 1;
        }
        assert(old(self).order@.take(self.order@.len() as int) =~= old(self).order@);
        if self.order.len() == 0 {
            self.input.as_slice()
        } else {
            let last = self.order[self.order.len() - 1];
            self.nodes[last].output()
        }
    }
}

} // verus!
