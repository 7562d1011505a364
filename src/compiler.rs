//! The postfix compiler: turns program tokens into a plan of nodes and
//! connections by running a stack machine over them.
use vstd::prelude::*;
use crate::text::{decimal, decimal_of, same_text, unsigned_of, parse_unsigned};

verus! {

/// The node that a token stands for.
#[derive(Clone, Copy, Debug, PartialEq, Eq, Structural)]
pub enum Kind {
    /// `s`: a sine oscillator driven by frequency.
    Sine,
    /// `sine`: a sine oscillator driven by frequency and phase offset.
    SinePhase,
    /// `t`: a triangle oscillator driven by frequency.
    Triangle,
    /// `tri`: a triangle oscillator driven by frequency and phase offset.
    TrianglePhase,
    /// `w`: a phasor.
    Phasor,
    /// `saw`: a phasor with a phase offset input.
    Phasor0,
    /// `p`, `pulse`.
    Pulse,
    /// `+`.
    Add,
    /// `-`.
    Sub,
    /// `*`.
    Mul,
    /// `/`.
    Div,
    /// `\`.
    Recip,
    /// `^`, `pow`.
    Pow,
    /// `unit`.
    Unit,
    /// `r`, `range`.
    Range,
    /// `n`, `noise`.
    Noise,
    /// `delay`.
    Delay,
    /// `fb`, `feedback`.
    Feedback,
    /// `lpf`.
    Lpf,
    /// `hpf`.
    Hpf,
    /// `l`, `bqlpf`.
    BiQuadLpf,
    /// `h`, `bqhpf`.
    BiQuadHpf,
    /// `m2f`, `midi2freq`.
    Midi2Freq,
    /// `round`.
    Round,
    /// `quantize`.
    Quantize,
    /// `sin`.
    Sin,
    /// `cos`.
    Cos,
    /// `pan`.
    Pan3,
    /// `pan1`.
    Pan1,
    /// `pan2`.
    Pan2,
    /// `in`, `input`.
    Input,
    /// `cheb2`.
    Cheb2,
    /// `cheb3`.
    Cheb3,
    /// `cheb4`.
    Cheb4,
    /// `cheb5`.
    Cheb5,
    /// `cheb6`.
    Cheb6,
    /// `sh`, `sample&hold`.
    SampleAndHold,
    /// `m`, `metro`.
    Metro,
    /// `dm`, `dmetro`.
    DMetro,
    /// `mh`, `metroHold`.
    MetroHold,
    /// `dmh`, `dmetroHold`.
    DMetroHold,
    /// `yin`, `pitch`.
    Yin,
    /// `zip`.
    Zip,
    /// A numeric literal; its value is the token's.
    Constant,
    /// `param:<N>`.
    Parameter(usize),
}

/// What a token does to the stack machine.
#[derive(Clone, Copy, Debug, PartialEq, Eq, Structural)]
pub enum Word {
    Node(Kind),
    Pop,
    Dup,
    Swap,
    Rot,
    Unknown,
}

/// Why a program was refused.
#[derive(Clone, Copy, Debug, PartialEq, Eq, Structural)]
pub enum Cause {
    /// The stack holds fewer nodes than the token's node needs as sources.
    NotEnoughInputs,
    /// The token is neither a node, a number, a parameter nor a stack operator.
    UnknownModule,
    NothingToPop,
    NothingToDup,
    NothingToSwap,
    NothingToRot,
}

/// A refused program: the 1-based index of the offending token, the token, and why.
pub struct CompileError {
    pub index: usize,
    pub token: String,
    pub cause: Cause,
}

/// A node of a plan, with the index of the token that made it.
#[derive(Clone, Copy, Debug, PartialEq, Eq, Structural)]
pub struct NodeSpec {
    pub kind: Kind,
    pub token: usize,
}

/// A compiled program: its nodes in token order, the sources of each node as
/// they were popped (the top of the stack first), and the stack that is left.
pub struct Plan {
    pub nodes: Vec<NodeSpec>,
    pub sources: Vec<Vec<usize>>,
    pub stack: Vec<usize>,
}

/// The mathematical value of a plan.
pub struct PlanView {
    pub nodes: Seq<NodeSpec>,
    pub sources: Seq<Seq<usize>>,
    pub stack: Seq<usize>,
}

impl Plan {
    pub open spec fn view(&self) -> PlanView {
        PlanView {
            nodes: self.nodes@,
            sources: self.sources@.map_values(|s: Vec<usize>| s@),
            stack: self.stack@,
        }
    }
}

/// Every stack entry names a node of the plan, each node has a source list,
/// and every source is a node made before its sink.
pub open spec fn plan_ok(p: PlanView) -> bool {
    &&& p.sources.len() == p.nodes.len()
    &&& forall|i: int| 0 <= i < p.stack.len() ==> p.stack[i] < p.nodes.len()
    &&& forall|i: int, k: int|
        0 <= i < p.sources.len() && 0 <= k < p.sources[i].len() ==> p.sources[i][k] < i
}

/// The node kind of a catalog token.
pub open spec fn catalog(t: Seq<char>) -> Option<Kind> {
    if t == "s"@ {
        Some(Kind::Sine)
    } else if t == "sine"@ {
        Some(Kind::SinePhase)
    } else if t == "t"@ {
        Some(Kind::Triangle)
    } else if t == "tri"@ {
        Some(Kind::TrianglePhase)
    } else if t == "w"@ {
        Some(Kind::Phasor)
    } else if t == "saw"@ {
        Some(Kind::Phasor0)
    } else if t == "p"@ || t == "pulse"@ {
        Some(Kind::Pulse)
    } else if t == "+"@ {
        Some(Kind::Add)
    } else if t == "-"@ {
        Some(Kind::Sub)
    } else if t == "*"@ {
        Some(Kind::Mul)
    } else if t == "/"@ {
        Some(Kind::Div)
    } else if t == "\\"@ {
        Some(Kind::Recip)
    } else if t == "^"@ || t == "pow"@ {
        Some(Kind::Pow)
    } else if t == "unit"@ {
        Some(Kind::Unit)
    } else if t == "r"@ || t == "range"@ {
        Some(Kind::Range)
    } else if t == "n"@ || t == "noise"@ {
        Some(Kind::Noise)
    } else if t == "delay"@ {
        Some(Kind::Delay)
    } else if t == "fb"@ || t == "feedback"@ {
        Some(Kind::Feedback)
    } else if t == "lpf"@ {
        Some(Kind::Lpf)
    } else if t == "hpf"@ {
        Some(Kind::Hpf)
    } else if t == "l"@ || t == "bqlpf"@ {
        Some(Kind::BiQuadLpf)
    } else if t == "h"@ || t == "bqhpf"@ {
        Some(Kind::BiQuadHpf)
    } else if t == "m2f"@ || t == "midi2freq"@ {
        Some(Kind::Midi2Freq)
    } else if t == "round"@ {
        Some(Kind::Round)
    } else if t == "quantize"@ {
        Some(Kind::Quantize)
    } else if t == "sin"@ {
        Some(Kind::Sin)
    } else if t == "cos"@ {
        Some(Kind::Cos)
    } else if t == "pan"@ {
        Some(Kind::Pan3)
    } else if t == "pan1"@ {
        Some(Kind::Pan1)
    } else if t == "pan2"@ {
        Some(Kind::Pan2)
    } else if t == "in"@ || t == "input"@ {
        Some(Kind::Input)
    } else if t == "cheb2"@ {
        Some(Kind::Cheb2)
    } else if t == "cheb3"@ {
        Some(Kind::Cheb3)
    } else if t == "cheb4"@ {
        Some(Kind::Cheb4)
    } else if t == "cheb5"@ {
        Some(Kind::Cheb5)
    } else if t == "cheb6"@ {
        Some(Kind::Cheb6)
    } else if t == "sh"@ || t == "sample&hold"@ {
        Some(Kind::SampleAndHold)
    } else if t == "m"@ || t == "metro"@ {
        Some(Kind::Metro)
    } else if t == "dm"@ || t == "dmetro"@ {
        Some(Kind::DMetro)
    } else if t == "mh"@ || t == "metroHold"@ {
        Some(Kind::MetroHold)
    } else if t == "dmh"@ || t == "dmetroHold"@ {
        Some(Kind::DMetroHold)
    } else if t == "yin"@ || t == "pitch"@ {
        Some(Kind::Yin)
    } else if t == "zip"@ {
        Some(Kind::Zip)
    } else {
        None
    }
}

/// The first index at or after `i` that holds a colon, or the length of `t`.
pub open spec fn colon_from(t: Seq<char>, i: int) -> int
    decreases t.len() - i,
{
    if i >= t.len() {
        t.len() as int
    } else if t[i] == ':' {
        i
    } else {
        colon_from(t, i + 1)
    }
}

/// The index of a `param:<N>` token: `N` is read up to the next colon, if any.
pub open spec fn param_index(t: Seq<char>) -> Option<usize> {
    if t.len() >= 6 && t.take(6) == "param:"@ {
        unsigned_of(t.subrange(6, colon_from(t, 6)))
    } else {
        None
    }
}

/// What token `t` does; `number` says whether it reads as a number.
pub open spec fn word_of(t: Seq<char>, number: bool) -> Word {
    if catalog(t).is_some() {
        Word::Node(catalog(t).unwrap())
    } else if number {
        Word::Node(Kind::Constant)
    } else if param_index(t).is_some() {
        Word::Node(Kind::Parameter(param_index(t).unwrap()))
    } else if t == "pop"@ {
        Word::Pop
    } else if t == "dup"@ {
        Word::Dup
    } else if t == "swap"@ {
        Word::Swap
    } else if t == "rot"@ {
        Word::Rot
    } else {
        Word::Unknown
    }
}

/// How many sources a node of kind `k` takes in a graph of `channels` channels.
pub open spec fn arity_of(k: Kind, channels: usize) -> u8 {
    match k {
        Kind::Sine | Kind::Triangle | Kind::Phasor | Kind::Recip | Kind::Unit | Kind::Midi2Freq
        | Kind::Round | Kind::Sin | Kind::Cos | Kind::Cheb2 | Kind::Cheb3 | Kind::Cheb4
        | Kind::Cheb5 | Kind::Cheb6 | Kind::Metro | Kind::DMetro | Kind::MetroHold
        | Kind::DMetroHold | Kind::Yin => 1,
        Kind::SinePhase | Kind::TrianglePhase | Kind::Phasor0 | Kind::Pulse | Kind::Add
        | Kind::Sub | Kind::Mul | Kind::Div | Kind::Pow | Kind::Delay | Kind::Lpf | Kind::Hpf
        | Kind::Quantize | Kind::Pan1 | Kind::SampleAndHold => 2,
        Kind::Range | Kind::Feedback | Kind::BiQuadLpf | Kind::BiQuadHpf | Kind::Pan3
        | Kind::Pan2 => 3,
        Kind::Zip => (channels % 256) as u8,
        Kind::Noise | Kind::Input | Kind::Constant | Kind::Parameter(_) => 0,
    }
}

/// One step of the stack machine on the `i`-th token (0-based).
pub open spec fn step(p: PlanView, w: Word, i: nat, channels: usize) -> Result<PlanView, Cause> {
    let s = p.stack;
    let n = s.len();
    match w {
        Word::Node(k) => {
            let a = arity_of(k, channels) as int;
            if n < a {
                Err(Cause::NotEnoughInputs)
            } else {
                Ok(
                    PlanView {
                        nodes: p.nodes.push(NodeSpec { kind: k, token: i as usize }),
                        sources: p.sources.push(s.subrange(n - a, n as int).reverse()),
                        stack: s.subrange(0, n - a).push(p.nodes.len() as usize),
                    },
                )
            }
        },
        Word::Pop => if n == 0 {
            Err(Cause::NothingToPop)
        } else {
            Ok(PlanView { stack: s.drop_last(), ..p })
        },
        Word::Dup => if n == 0 {
            Err(Cause::NothingToDup)
        } else {
            Ok(PlanView { stack: s.push(s.last()), ..p })
        },
        Word::Swap => if n < 2 {
            Err(Cause::NothingToSwap)
        } else {
            Ok(PlanView { stack: s.subrange(0, n - 2) + seq![s[n - 1], s[n - 2]], ..p })
        },
        Word::Rot => if n < 3 {
            Err(Cause::NothingToRot)
        } else {
            Ok(PlanView { stack: s.subrange(0, n - 3) + seq![s[n - 2], s[n - 1], s[n - 3]], ..p })
        },
        Word::Unknown => Err(Cause::UnknownModule),
    }
}

/// The stack machine run over the first `n` words: the plan, or the 0-based
/// index of the first refused word and why.
pub open spec fn run(words: Seq<Word>, n: nat, channels: usize) -> Result<PlanView, (nat, Cause)>
    decreases n,
{
    if n == 0 {
        Ok(PlanView { nodes: Seq::empty(), sources: Seq::empty(), stack: Seq::empty() })
    } else {
        match run(words, (n - 1) as nat, channels) {
            Err(e) => Err(e),
            Ok(p) => match step(p, words[n - 1], (n - 1) as nat, channels) {
                Ok(q) => Ok(q),
                Err(c) => Err(((n - 1) as nat, c)),
            },
        }
    }
}

/// The words of a token list.
pub open spec fn words_of(tokens: Seq<Seq<char>>, numbers: Seq<bool>) -> Seq<Word> {
    Seq::new(tokens.len(), |i: int| word_of(tokens[i], numbers[i]))
}

/// The message shown for a refused program.
pub open spec fn message_of(index: usize, token: Seq<char>, cause: Cause) -> Seq<char> {
    let at = decimal_of(index as nat);
    match cause {
        Cause::NotEnoughInputs => "Node #"@ + at + " `"@ + token + "` has not enough inputs on the stack."@,
        Cause::UnknownModule => "Node #"@ + at + " `"@ + token + "` is unknown module."@,
        Cause::NothingToPop => "Nothing to pop at #"@ + at + "!"@,
        Cause::NothingToDup => "Nothing to dup at #"@ + at + "!"@,
        Cause::NothingToSwap => "Nothing to swap at #"@ + at + "!"@,
        Cause::NothingToRot => "Nothing to rot at #"@ + at + "!"@,
    }
}

impl CompileError {
    /// The human-readable message: the 1-based token index, and the token
    /// where the cause concerns a node.
    pub fn message(&self) -> (r: String)
        ensures
            r@ == message_of(self.index, self.token@, self.cause),
    {
        let at = decimal(self.index);
        match self.cause {
            Cause::NotEnoughInputs => {
                let mut r = String::from_str("Node #");
                r.append(at.as_str());
                r.append(" `");
                r.append(self.token.as_str());
                r.append("` has not enough inputs on the stack.");
                r
            },
            Cause::UnknownModule => {
                let mut r = String::from_str("Node #");
                r.append(at.as_str());
                r.append(" `");
                r.append(self.token.as_str());
                r.append("` is unknown module.");
                r
            },
            Cause::NothingToPop => {
                let mut r = String::from_str("Nothing to pop at #");
                r.append(at.as_str());
                r.append("!");
                r
            },
            Cause::NothingToDup => {
                let mut r = String::from_str("Nothing to dup at #");
                r.append(at.as_str());
                r.append("!");
                r
            },
            Cause::NothingToSwap => {
                let mut r = String::from_str("Nothing to swap at #");
                r.append(at.as_str());
                r.append("!");
                r
            },
            Cause::NothingToRot => {
                let mut r = String::from_str("Nothing to rot at #");
                r.append(at.as_str());
                r.append("!");
                r
            },
        }
    }
}


/// The node kind of a catalog token.
pub fn catalog_kind(t: &str) -> (r: Option<Kind>)
    ensures
        r == catalog(t@),
{
    if same_text(t, "s") {
        Some(Kind::Sine)
    } else if same_text(t, "sine") {
        Some(Kind::SinePhase)
    } else if same_text(t, "t") {
        Some(Kind::Triangle)
    } else if same_text(t, "tri") {
        Some(Kind::TrianglePhase)
    } else if same_text(t, "w") {
        Some(Kind::Phasor)
    } else if same_text(t, "saw") {
        Some(Kind::Phasor0)
    } else if same_text(t, "p") || same_text(t, "pulse") {
        Some(Kind::Pulse)
    } else if same_text(t, "+") {
        Some(Kind::Add)
    } else if same_text(t, "-") {
        Some(Kind::Sub)
    } else if same_text(t, "*") {
        Some(Kind::Mul)
    } else if same_text(t, "/") {
        Some(Kind::Div)
    } else if same_text(t, "\\") {
        Some(Kind::Recip)
    } else if same_text(t, "^") || same_text(t, "pow") {
        Some(Kind::Pow)
    } else if same_text(t, "unit") {
        Some(Kind::Unit)
    } else if same_text(t, "r") || same_text(t, "range") {
        Some(Kind::Range)
    } else if same_text(t, "n") || same_text(t, "noise") {
        Some(Kind::Noise)
    } else if same_text(t, "delay") {
        Some(Kind::Delay)
    } else if same_text(t, "fb") || same_text(t, "feedback") {
        Some(Kind::Feedback)
    } else if same_text(t, "lpf") {
        Some(Kind::Lpf)
    } else if same_text(t, "hpf") {
        Some(Kind::Hpf)
    } else if same_text(t, "l") || same_text(t, "bqlpf") {
        Some(Kind::BiQuadLpf)
    } else if same_text(t, "h") || same_text(t, "bqhpf") {
        Some(Kind::BiQuadHpf)
    } else if same_text(t, "m2f") || same_text(t, "midi2freq") {
        Some(Kind::Midi2Freq)
    } else if same_text(t, "round") {
        Some(Kind::Round)
    } else if same_text(t, "quantize") {
        Some(Kind::Quantize)
    } else if same_text(t, "sin") {
        Some(Kind::Sin)
    } else if same_text(t, "cos") {
        Some(Kind::Cos)
    } else if same_text(t, "pan") {
        Some(Kind::Pan3)
    } else if same_text(t, "pan1") {
        Some(Kind::Pan1)
    } else if same_text(t, "pan2") {
        Some(Kind::Pan2)
    } else if same_text(t, "in") || same_text(t, "input") {
        Some(Kind::Input)
    } else if same_text(t, "cheb2") {
        Some(Kind::Cheb2)
    } else if same_text(t, "cheb3") {
        Some(Kind::Cheb3)
    } else if same_text(t, "cheb4") {
        Some(Kind::Cheb4)
    } else if same_text(t, "cheb5") {
        Some(Kind::Cheb5)
    } else if same_text(t, "cheb6") {
        Some(Kind::Cheb6)
    } else if same_text(t, "sh") || same_text(t, "sample&hold") {
        Some(Kind::SampleAndHold)
    } else if same_text(t, "m") || same_text(t, "metro") {
        Some(Kind::Metro)
    } else if same_text(t, "dm") || same_text(t, "dmetro") {
        Some(Kind::DMetro)
    } else if same_text(t, "mh") || same_text(t, "metroHold") {
        Some(Kind::MetroHold)
    } else if same_text(t, "dmh") || same_text(t, "dmetroHold") {
        Some(Kind::DMetroHold)
    } else if same_text(t, "yin") || same_text(t, "pitch") {
        Some(Kind::Yin)
    } else if same_text(t, "zip") {
        Some(Kind::Zip)
    } else {
        None
    }
}

/// The index of a `param:<N>` token.
pub fn param_of(t: &str) -> (r: Option<usize>)
    ensures
        r == param_index(t@),
{
    let n = t.unicode_len();
    if n < 6 || !same_text(t.substring_char(0, 6), "param:") {
        proof {
            if n >= 6 {
                assert(t@.subrange(0, 6) =~= t@.take(6));
            }
        }
        return None;
    }
    assert(t@.subrange(0, 6) =~= t@.take(6));
    let mut e: usize = 6;
    while e < n && t.get_char(e) != ':'
        invariant
            6 <= e <= n,
            n == t@.len(),
            colon_from(t@, 6) == colon_from(t@, e as int),
        decreases n - e,
    {
        e = e + 1;
    }
    parse_unsigned(t, 6, e)
}

/// What token `t` does; `number` says whether it reads as a number.
pub fn classify(t: &str, number: bool) -> (r: Word)
    ensures
        r == word_of(t@, number),
{
    match catalog_kind(t) {
        Some(k) => Word::Node(k),
        None => if number {
            Word::Node(Kind::Constant)
        } else {
            match param_of(t) {
                Some(i) => Word::Node(Kind::Parameter(i)),
                None => if same_text(t, "pop") {
                    Word::Pop
                } else if same_text(t, "dup") {
                    Word::Dup
                } else if same_text(t, "swap") {
                    Word::Swap
                } else if same_text(t, "rot") {
                    Word::Rot
                } else {
                    Word::Unknown
                },
            }
        },
    }
}

/// How many sources a node of kind `k` takes in a graph of `channels` channels.
pub fn arity(k: Kind, channels: usize) -> (r: u8)
    ensures
        r == arity_of(k, channels),
{
    match k {
        Kind::Sine | Kind::Triangle | Kind::Phasor | Kind::Recip | Kind::Unit | Kind::Midi2Freq
        | Kind::Round | Kind::Sin | Kind::Cos | Kind::Cheb2 | Kind::Cheb3 | Kind::Cheb4
        | Kind::Cheb5 | Kind::Cheb6 | Kind::Metro | Kind::DMetro | Kind::MetroHold
        | Kind::DMetroHold | Kind::Yin => 1,
        Kind::SinePhase | Kind::TrianglePhase | Kind::Phasor0 | Kind::Pulse | Kind::Add
        | Kind::Sub | Kind::Mul | Kind::Div | Kind::Pow | Kind::Delay | Kind::Lpf | Kind::Hpf
        | Kind::Quantize | Kind::Pan1 | Kind::SampleAndHold => 2,
        Kind::Range | Kind::Feedback | Kind::BiQuadLpf | Kind::BiQuadHpf | Kind::Pan3
        | Kind::Pan2 => 3,
        Kind::Zip => (channels % 256) as u8,
        Kind::Noise | Kind::Input | Kind::Constant | Kind::Parameter(_) => 0,
    }
}


proof fn lemma_run_stays_refused(words: Seq<Word>, m: nat, n: nat, channels: usize)
    requires
        m <= n,
        run(words, m, channels) is Err,
    ensures
        run(words, n, channels) == run(words, m, channels),
    decreases n - m,
{
    if m < n {
        lemma_run_stays_refused(words, m, (n - 1) as nat, channels);
    }
}

/// Runs the stack machine over `tokens`, where `numbers[i]` says whether token
/// `i` reads as a number: the plan, or the first refused token.
pub fn compile_tokens(tokens: &[&str], numbers: &[bool], channels: usize) -> (r: Result<
    Plan,
    CompileError,
>)
    requires
        numbers@.len() == tokens@.len(),
    ensures
        match r {
            Ok(plan) => run(
                words_of(tokens@.map_values(|t: &str| t@), numbers@),
                tokens@.len(),
                channels,
            ) == Ok::<PlanView, (nat, Cause)>(plan.view()) && plan_ok(plan.view()) && forall|q: int|
                0 <= q < plan.nodes@.len() ==> #[trigger] plan.nodes@[q].token < tokens@.len(),
            Err(e) => e.index >= 1 && run(
                words_of(tokens@.map_values(|t: &str| t@), numbers@),
                tokens@.len(),
                channels,
            ) == Err::<PlanView, (nat, Cause)>(((e.index - 1) as nat, e.cause)) && e.token@
                == tokens@[e.index - 1]@,
        },
{
    let ghost words = words_of(tokens@.map_values(|t: &str| t@), numbers@);
    let mut plan = Plan { nodes: Vec::new(), sources: Vec::new(), stack: Vec::new() };
    assert(plan.view().sources =~= Seq::<Seq<usize>>::empty());
    assert(plan.view().nodes =~= Seq::<NodeSpec>::empty());
    assert(plan.view().stack =~= Seq::<usize>::empty());
    let mut i: usize = 0;
    while i < tokens.len()
        invariant
            numbers@.len() == tokens@.len(),
            words == words_of(tokens@.map_values(|t: &str| t@), numbers@),
            i <= tokens@.len(),
            plan.nodes@.len() <= i,
            run(words, i as nat, channels) == Ok::<PlanView, (nat, Cause)>(plan.view()),
            plan_ok(plan.view()),
            forall|q: int| 0 <= q < plan.nodes@.len() ==> #[trigger] plan.nodes@[q].token < i,
        decreases tokens@.len() - i,
    {
        let ghost p = plan.view();
        let w = classify(tokens[i], numbers[i]);
        assert(words[i as int] == w);
        let n = plan.stack.len();
        let refused: Option<Cause> = match w {
            Word::Node(k) => {
                let a = arity(k, channels) as usize;
                if n < a {
                    Some(Cause::NotEnoughInputs)
                } else {
                    let mut popped: Vec<usize> = Vec::new();
                    let mut j: usize = 0;
                    while j < a
                        invariant
                            j <= a <= n,
                            n == p.stack.len(),
                            plan.stack@ == p.stack.subrange(0, n - j),
                            popped@ == p.stack.subrange(n - j, n as int).reverse(),
                            plan.nodes@ == p.nodes,
                            plan.sources@.map_values(|s: Vec<usize>| s@) == p.sources,
                        decreases a - j,
                    {
                        let x = plan.stack.pop().unwrap();
                        popped.push(x);
                        assert(p.stack.subrange(n - (j + 1), n as int).reverse() =~= p.stack.subrange(
                            n - j,
                            n as int,
                        ).reverse().push(x));
                        assert(plan.stack@ =~= p.stack.subrange(0, n - (j + 1)));
                        j = j + 1;
                    }
                    let idx = plan.nodes.len();
                    plan.nodes.push(NodeSpec { kind: k, token: i });
                    plan.sources.push(popped);
                    plan.stack.push(idx);
                    assert(plan.view().sources =~= p.sources.push(
                        p.stack.subrange(n - a, n as int).reverse(),
                    ));
                    assert forall|q: int, r: int|
                        0 <= q < plan.view().sources.len() && 0 <= r < plan.view().sources[q].len()
                            implies plan.view().sources[q][r] < q by {
                        if q == p.sources.len() {
                            assert(plan.view().sources[q][r] == p.stack[n - 1 - r]);
                        }
                    }
                    None
                }
            },
            Word::Pop => {
                if n == 0 {
                    Some(Cause::NothingToPop)
                } else {
                    plan.stack.pop();
                    None
                }
            },
            Word::Dup => {
                if n == 0 {
                    Some(Cause::NothingToDup)
                } else {
                    let x = plan.stack[n - 1];
                    plan.stack.push(x);
                    None
                }
            },
            Word::Swap => {
                if n < 2 {
                    Some(Cause::NothingToSwap)
                } else {
                    let x = plan.stack[n - 1];
                    let y = plan.stack[n - 2];
                    plan.stack.set(n - 1, y);
                    plan.stack.set(n - 2, x);
                    assert(plan.stack@ =~= p.stack.subrange(0, n - 2) + seq![p.stack[n - 1], p.stack[n - 2]]);
                    None
                }
            },
            Word::Rot => {
                if n < 3 {
                    Some(Cause::NothingToRot)
                } else {
                    let x = plan.stack[n - 1];
                    let y = plan.stack[n - 2];
                    plan.stack.set(n - 1, y);
                    plan.stack.set(n - 2, x);
                    let z = plan.stack[n - 3];
                    plan.stack.set(n - 3, y);
                    plan.stack.set(n - 1, z);
                    assert(plan.stack@ =~= p.stack.subrange(0, n - 3) + seq![p.stack[n - 2], p.stack[n - 1], p.stack[n - 3]]);
                    None
                }
            },
            Word::Unknown => Some(Cause::UnknownModule),
        };
        match refused {
            Some(cause) => {
                proof {
                    lemma_run_stays_refused(words, (i + 1) as nat, tokens@.len(), channels);
                }
                return Err(CompileError { index: i + 1, token: String::from_str(tokens[i]), cause });
            },
            None => {},
        }
        i = i + 1;
    }
    Ok(plan)
}

} // verus!
