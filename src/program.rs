//! From a compiled plan to a graph.
use vstd::prelude::*;
use crate::catalog::{made, make_node, refused, total, Shapes};
use crate::compiler::{compile_tokens, plan_ok, run, words_of, Cause, CompileError, Plan, PlanView};
use crate::modules::any::AnyNode;
use crate::modules::biquad::Coefficients;
use crate::text::{decimal, decimal_of};
use crate::graph::{is_topo, linked, AudioGraph, MAX_NODES, MAX_SOURCES};
use crate::module::Module;
use crate::scalar::{zero, Scalar};

verus! {

/// Builds the graph of a compiled plan, where `nodes[i]` is the node made for
/// plan node `i`. Each node gets the sources it popped in reverse, so that the
/// source pushed first comes first in its input. `None` where the plan has
/// more nodes than a graph holds, or a node with more than `MAX_SOURCES` sources.
/// A compiled plan has no cycle, so the graph's order lists every node.
pub fn assemble<T: Scalar, N: Module<T>>(plan: &Plan, nodes: Vec<N>, channels: usize) -> (r:
    Option<AudioGraph<T, N>>)
    requires
        channels * MAX_SOURCES <= usize::MAX,
        plan_ok(plan.view()),
        nodes@.len() == plan.nodes@.len(),
        forall|i: int|
            0 <= i < nodes@.len() ==> (#[trigger] nodes@[i]).valid() && nodes@[i].frame().len()
                == channels && nodes@[i].reads() <= channels * MAX_SOURCES,
    ensures
        r is Some <==> (nodes@.len() <= MAX_NODES && forall|i: int|
            0 <= i < plan.view().sources.len() ==> (#[trigger] plan.view().sources[i]).len()
                <= MAX_SOURCES),
        r matches Some(g) ==> {
            &&& g.wf()
            &&& g.sorted()
            &&& is_topo(g.order_view(), nodes@.len(), g.sources_view())
            &&& g.width() == channels
            &&& g.nodes_view() == nodes@
            &&& g.sources_view() == Seq::new(
                nodes@.len(),
                |i: int| plan.view().sources[i].reverse(),
            )
        },
{
    let count = nodes.len();
    if count > MAX_NODES {
        return None;
    }
    let mut i: usize = 0;
    while i < count
        invariant
            i <= count,
            count == plan.sources@.len(),
            plan_ok(plan.view()),
            forall|j: int| 0 <= j < i ==> (#[trigger] plan.view().sources[j]).len() <= MAX_SOURCES,
        decreases count - i,
    {
        if plan.sources[i].len() > MAX_SOURCES {
            assert(plan.view().sources[i as int].len() > MAX_SOURCES);
            return None;
        }
        i = i + 1;
    }
    let mut g: AudioGraph<T, N> = AudioGraph::new(channels);
    assert(g.sources_view() =~= Seq::new(0, |_j: int| Seq::<usize>::empty()));
    let mut nodes = nodes;
    let ghost all = nodes@;
    let mut i: usize = 0;
    while i < count
        invariant
            i <= count,
            count == all.len(),
            count <= MAX_NODES,
            nodes@ == all.subrange(i as int, count as int),
            g.wf(),
            g.width() == channels,
            g.nodes_view() == all.take(i as int),
            g.order_view().len() == 0,
            g.sources_view() == Seq::new(i as nat, |_j: int| Seq::<usize>::empty()),
            forall|j: int|
                0 <= j < all.len() ==> (#[trigger] all[j]).valid() && all[j].frame().len()
                    == channels && all[j].reads() <= channels * MAX_SOURCES,
        decreases count - i,
    {
        let n = nodes.remove(0);
        assert(n == all[i as int]);
        g.add_node(n);
        assert(g.nodes_view() =~= all.take(i as int + 1));
        assert(nodes@ =~= all.subrange(i as int + 1, count as int));
        assert(g.sources_view() =~= Seq::new((i + 1) as nat, |_j: int| Seq::<usize>::empty()));
        i = i + 1;
    }
    assert(all.take(count as int) =~= all);
    let mut i: usize = 0;
    while i < count
        invariant
            i <= count,
            count == all.len(),
            count == plan.sources@.len(),
            plan_ok(plan.view()),
            forall|j: int| 0 <= j < count ==> (#[trigger] plan.view().sources[j]).len() <= MAX_SOURCES,
            g.wf(),
            g.width() == channels,
            g.nodes_view() == all,
            (i > 0 || count == 0) ==> g.sorted(),
            g.sources_view() == Seq::new(
                count as nat,
                |j: int|
                    if j < i {
                        plan.view().sources[j].reverse()
                    } else {
                        Seq::<usize>::empty()
                    },
            ),
        decreases count - i,
    {
        assert(plan.view().sources[i as int] == plan.sources@[i as int]@);
        g.set_sources_rev(i, plan.sources[i].as_slice());
        assert(g.sources_view() =~= Seq::new(
            count as nat,
            |j: int|
                if j < i + 1 {
                    plan.view().sources[j].reverse()
                } else {
                    Seq::<usize>::empty()
                },
        ));
        i = i + 1;
    }
    assert(g.sources_view() =~= Seq::new(count as nat, |j: int| plan.view().sources[j].reverse()));
    proof {
        let srcs = g.sources_view();
        let ident = Seq::new(count as nat, |j: int| j as usize);
        assert forall|a: int, b: int|
            0 <= a < ident.len() && 0 <= b < ident.len() && #[trigger] linked(srcs, ident[a], ident[b])
                implies a < b by {
            let k = choose|k: int| 0 <= k < srcs[b].len() && srcs[b][k] == ident[a];
            let rev = plan.view().sources[b];
            assert(srcs[b][k] == rev[rev.len() - 1 - k]);
        }
        assert(is_topo(ident, count as nat, srcs));
        if count > 0 {
            assert(g.order_view().len() > 0);
        } else {
            assert(g.order_view().len() == 0);
        }
    }
    Some(g)
}


/// Why a program could not be turned into a graph.
pub enum BuildError {
    /// The program does not compile.
    Compile(CompileError),
    /// The node of token `index` (1-based) cannot be made in this graph.
    Refused { index: usize, token: String },
    /// The program makes more nodes than a graph holds, or a node with more
    /// than `MAX_SOURCES` sources.
    TooLarge,
}

impl BuildError {
    /// The message shown for the error.
    pub fn message(&self) -> (r: String)
        ensures
            self matches BuildError::Compile(e) ==> r@ == crate::compiler::message_of(
                e.index,
                e.token@,
                e.cause,
            ),
            self matches BuildError::Refused { index, token } ==> r@ == "Node #"@ + decimal_of(
                index as nat,
            ) + " `"@ + token@ + "` cannot be made in this graph."@,
            self is TooLarge ==> r@ == "The program is too large."@,
    {
        match self {
            BuildError::Compile(e) => e.message(),
            BuildError::Refused { index, token } => {
                let mut r = String::from_str("Node #");
                let at = decimal(*index);
                r.append(at.as_str());
                r.append(" `");
                r.append(token.as_str());
                r.append("` cannot be made in this graph.");
                r
            },
            BuildError::TooLarge => String::from_str("The program is too large."),
        }
    }
}

/// A literal's value, or zero for a token that is not a number.
pub open spec fn value_of<T: Scalar>(v: Option<T>) -> T {
    match v {
        Some(x) => x,
        None => zero(),
    }
}

/// Compiles `tokens` and builds their graph, where `values[i]` is the value of
/// token `i` where it reads as a number. On success the graph's nodes are those
/// the plan names, each made as `make_node` makes it, with the sources the plan
/// gives them (the source pushed first comes first), in a complete traversal order.
pub fn build<T: Scalar, U: Fn(T) -> T + Copy, B: Fn(T, T) -> T + Copy, R: Fn(T, T, T) -> T + Copy, C: Fn(T, T, T) -> Coefficients<T> + Copy, G: Fn() -> T + Copy>(
    tokens: &[&str],
    values: &[Option<T>],
    channels: usize,
    sample_rate: usize,
    s: &Shapes<U, B, R, C, G>,
) -> (r: Result<AudioGraph<T, AnyNode<T, U, B, R, C, G>>, BuildError>)
    requires
        values@.len() == tokens@.len(),
        total(*s),
        channels * MAX_SOURCES <= usize::MAX,
    ensures
        ({
            let words = words_of(
                tokens@.map_values(|t: &str| t@),
                values@.map_values(|v: Option<T>| v is Some),
            );
            match r {
                Ok(g) => exists|p: PlanView|
                    {
                        &&& run(words, tokens@.len(), channels) == Ok::<PlanView, (nat, Cause)>(p)
                        &&& g.wf()
                        &&& is_topo(g.order_view(), g.nodes_view().len(), g.sources_view())
                        &&& g.width() == channels
                        &&& g.nodes_view().len() == p.nodes.len()
                        &&& g.sources_view() == Seq::new(
                            p.nodes.len(),
                            |i: int| p.sources[i].reverse(),
                        )
                        &&& forall|i: int|
                            0 <= i < p.nodes.len() ==> made(
                                p.nodes[i].kind,
                                value_of(values@[p.nodes[i].token as int]),
                                channels,
                                *s,
                                #[trigger] g.nodes_view()[i],
                            )
                    },
                Err(BuildError::Compile(e)) => e.index >= 1 && run(words, tokens@.len(), channels)
                    == Err::<PlanView, (nat, Cause)>(((e.index - 1) as nat, e.cause)),
                Err(BuildError::Refused { index, token }) => exists|p: PlanView, j: int|
                    {
                        &&& run(words, tokens@.len(), channels) == Ok::<PlanView, (nat, Cause)>(p)
                        &&& 0 <= j < p.nodes.len()
                        &&& p.nodes[j].token + 1 == index
                        &&& refused::<T>(p.nodes[j].kind, channels, sample_rate)
                    },
                Err(BuildError::TooLarge) => exists|p: PlanView|
                    {
                        &&& run(words, tokens@.len(), channels) == Ok::<PlanView, (nat, Cause)>(p)
                        &&& (p.nodes.len() > MAX_NODES || exists|i: int|
                            0 <= i < p.sources.len() && #[trigger] p.sources[i].len() > MAX_SOURCES)
                    },
            }
        }),
{
    let mut numbers: Vec<bool> = Vec::new();
    let mut i: usize = 0;
    while i < values.len()
        invariant
            i <= values@.len(),
            numbers@ == values@.take(i as int).map_values(|v: Option<T>| v is Some),
        decreases values@.len() - i,
    {
        numbers.push(values[i].is_some());
        assert(values@.take(i as int + 1).map_values(|v: Option<T>| v is Some) =~= numbers@);
        i = i + 1;
    }
    assert(values@.take(values@.len() as int) =~= values@);
    let plan = match compile_tokens(tokens, numbers.as_slice(), channels) {
        Ok(plan) => plan,
        Err(e) => {
            return Err(BuildError::Compile(e));
        },
    };
    let ghost p = plan.view();
    let ghost words = words_of(
        tokens@.map_values(|t: &str| t@),
        values@.map_values(|v: Option<T>| v is Some),
    );
    assert(numbers@ == values@.map_values(|v: Option<T>| v is Some));
    assert(run(words, tokens@.len(), channels) == Ok::<PlanView, (nat, Cause)>(p));
    let mut nodes: Vec<AnyNode<T, U, B, R, C, G>> = Vec::new();
    let mut k: usize = 0;
    while k < plan.nodes.len()
        invariant
            k <= plan.nodes@.len(),
            p == plan.view(),
            plan_ok(p),
            total(*s),
            channels * MAX_SOURCES <= usize::MAX,
            values@.len() == tokens@.len(),
            forall|q: int| 0 <= q < p.nodes.len() ==> #[trigger] p.nodes[q].token < tokens@.len(),
            nodes@.len() == k,
            run(words, tokens@.len(), channels) == Ok::<PlanView, (nat, Cause)>(p),
            words == words_of(
                tokens@.map_values(|t: &str| t@),
                values@.map_values(|v: Option<T>| v is Some),
            ),
            forall|q: int|
                0 <= q < k ==> {
                    &&& (#[trigger] nodes@[q]).valid()
                    &&& nodes@[q].frame().len() == channels
                    &&& nodes@[q].reads() <= channels * MAX_SOURCES
                    &&& made(p.nodes[q].kind, value_of(values@[p.nodes[q].token as int]), channels, *s, nodes@[q])
                },
        decreases plan.nodes@.len() - k,
    {
        let spec_k = plan.nodes[k];
        let value = match values[spec_k.token] {
            Some(x) => x,
            None => T::from_usize(0),
        };
        match make_node(spec_k.kind, value, channels, sample_rate, s) {
            Some(n) => {
                assert(p.nodes[k as int] == spec_k);
                assert(value == value_of(values@[spec_k.token as int]));
                nodes.push(n);
            },
            None => {
                assert(p.nodes[k as int] == spec_k);
                assert(refused::<T>(p.nodes[k as int].kind, channels, sample_rate));
                return Err(
                    BuildError::Refused { index: spec_k.token + 1, token: String::from_str(tokens[spec_k.token]) },
                );
            },
        }
        k = k + 1;
    }
    let ghost made_nodes = nodes@;
    match assemble(&plan, nodes, channels) {
        Some(g) => {
            assert(forall|i: int|
                0 <= i < p.nodes.len() ==> made(
                    p.nodes[i].kind,
                    value_of(values@[p.nodes[i].token as int]),
                    channels,
                    *s,
                    #[trigger] g.nodes_view()[i],
                )) by {
                assert(g.nodes_view() == made_nodes);
            }
            Ok(g)
        },
        None => Err(BuildError::TooLarge),
    }
}

} // verus!
