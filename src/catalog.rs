//! The node factory: the node of each catalog kind, made from the shape
//! functions that the caller supplies.
use vstd::prelude::*;
use crate::compiler::{arity_of, Kind};
use crate::graph::MAX_SOURCES;
use crate::module::Module;
use crate::modules::any::AnyNode;
use crate::modules::biquad::{BiQuad, Coefficients};
use crate::modules::constant::Constant;
use crate::modules::delay::{delay_frames_spec, Delay};
use crate::modules::feedback::Feedback;
use crate::modules::filter::{HPF, LPF};
use crate::modules::function::{Fn1, Fn2, Fn3};
use crate::modules::input::Input;
use crate::modules::metro::{DMetro, DMetroHold, Metro, MetroHold};
use crate::modules::noise::Noise;
use crate::modules::osc::{Osc, OscPhase};
use crate::modules::pan::{Pan1, Pan2, Pan3};
use crate::modules::parameter::Parameter;
use crate::modules::phasor::{Phasor, Phasor0};
use crate::modules::pulse::Pulse;
use crate::modules::sample_and_hold::SampleAndHold;
use crate::modules::yin::Yin;
use crate::modules::zip::Zip;
use crate::scalar::Scalar;

verus! {

/// The functions that the catalog's function nodes apply, the biquad
/// coefficient functions, and the noise source.
pub struct Shapes<U, B, R, C, G> {
    pub sine: U,
    pub triangle: U,
    pub recip: U,
    pub unit: U,
    pub midi2freq: U,
    pub round: U,
    pub sin: U,
    pub cos: U,
    pub cheb2: U,
    pub cheb3: U,
    pub cheb4: U,
    pub cheb5: U,
    pub cheb6: U,
    pub add: B,
    pub sub: B,
    pub mul: B,
    pub div: B,
    pub pow: B,
    pub quantize: B,
    pub range: R,
    pub lpf_coefficients: C,
    pub hpf_coefficients: C,
    pub noise: G,
}

/// Every function of `s` accepts every argument.
pub open spec fn total<T: Scalar, U: Fn(T) -> T + Copy, B: Fn(T, T) -> T + Copy, R: Fn(T, T, T) -> T + Copy, C: Fn(T, T, T) -> Coefficients<T> + Copy, G: Fn() -> T + Copy>(s: Shapes<U, B, R, C, G>) -> bool {
    &&& forall|x: T| s.sine.requires((x,))
    &&& forall|x: T| s.triangle.requires((x,))
    &&& forall|x: T| s.recip.requires((x,))
    &&& forall|x: T| s.unit.requires((x,))
    &&& forall|x: T| s.midi2freq.requires((x,))
    &&& forall|x: T| s.round.requires((x,))
    &&& forall|x: T| s.sin.requires((x,))
    &&& forall|x: T| s.cos.requires((x,))
    &&& forall|x: T| s.cheb2.requires((x,))
    &&& forall|x: T| s.cheb3.requires((x,))
    &&& forall|x: T| s.cheb4.requires((x,))
    &&& forall|x: T| s.cheb5.requires((x,))
    &&& forall|x: T| s.cheb6.requires((x,))
    &&& forall|x: T, y: T| s.add.requires((x, y))
    &&& forall|x: T, y: T| s.sub.requires((x, y))
    &&& forall|x: T, y: T| s.mul.requires((x, y))
    &&& forall|x: T, y: T| s.div.requires((x, y))
    &&& forall|x: T, y: T| s.pow.requires((x, y))
    &&& forall|x: T, y: T| s.quantize.requires((x, y))
    &&& forall|x: T, y: T, z: T| s.range.requires((x, y, z))
    &&& forall|x: T, y: T, z: T| s.lpf_coefficients.requires((x, y, z))
    &&& forall|x: T, y: T, z: T| s.hpf_coefficients.requires((x, y, z))
    &&& s.noise.requires(())
}

/// The longest delay of `delay` and `feedback` nodes, in seconds.
pub const MAX_DELAY_SECONDS: usize = 60;

/// The window of `yin` nodes, in frames.
pub const YIN_WINDOW: usize = 1024;

/// How often `yin` nodes estimate the pitch, in frames.
pub const YIN_PERIOD: usize = 512;

/// The threshold of `yin` nodes: one fifth.
pub open spec fn yin_threshold<T: Scalar>() -> T {
    T::div_spec(T::from_usize_spec(1), T::from_usize_spec(5))
}

/// A node of kind `kind` cannot be made in a graph of `channels` channels at
/// `sample_rate`: a panner needs two channels, a zip or a parameter must read
/// within the graph's scratch buffer, and a delay line must fit in memory.
pub open spec fn refused<T: Scalar>(kind: Kind, channels: usize, sample_rate: usize) -> bool {
    let frames = delay_frames_spec(sample_rate, T::from_usize_spec(MAX_DELAY_SECONDS));
    match kind {
        Kind::Pan1 | Kind::Pan2 => channels < 2,
        Kind::Zip => channels > MAX_SOURCES,
        Kind::Parameter(i) => channels + i + 1 > channels * MAX_SOURCES,
        Kind::Delay | Kind::Feedback => frames > usize::MAX || channels * frames > usize::MAX || 2
            * channels > usize::MAX,
        _ => false,
    }
}

/// `n` is the node of kind `kind`: its variant, and the function it applies
/// or the value it holds.
pub open spec fn made<T: Scalar, U: Fn(T) -> T + Copy, B: Fn(T, T) -> T + Copy, R: Fn(T, T, T) -> T + Copy, C: Fn(T, T, T) -> Coefficients<T> + Copy, G: Fn() -> T + Copy>(
    kind: Kind,
    value: T,
    channels: usize,
    s: Shapes<U, B, R, C, G>,
    n: AnyNode<T, U, B, R, C, G>,
) -> bool {
    match kind {
        Kind::Sine => n matches AnyNode::Osc(o) && o.function() == s.sine,
        Kind::SinePhase => n matches AnyNode::OscPhase(o) && o.function() == s.sine,
        Kind::Triangle => n matches AnyNode::Osc(o) && o.function() == s.triangle,
        Kind::TrianglePhase => n matches AnyNode::OscPhase(o) && o.function() == s.triangle,
        Kind::Phasor => n is Phasor,
        Kind::Phasor0 => n is Phasor0,
        Kind::Pulse => n is Pulse,
        Kind::Add => n matches AnyNode::Fn2(f) && f.function() == s.add,
        Kind::Sub => n matches AnyNode::Fn2(f) && f.function() == s.sub,
        Kind::Mul => n matches AnyNode::Fn2(f) && f.function() == s.mul,
        Kind::Div => n matches AnyNode::Fn2(f) && f.function() == s.div,
        Kind::Recip => n matches AnyNode::Fn1(f) && f.function() == s.recip,
        Kind::Pow => n matches AnyNode::Fn2(f) && f.function() == s.pow,
        Kind::Unit => n matches AnyNode::Fn1(f) && f.function() == s.unit,
        Kind::Range => n matches AnyNode::Fn3(f) && f.function() == s.range,
        Kind::Noise => n matches AnyNode::Noise(f) && f.function() == s.noise,
        Kind::Delay => n is Delay,
        Kind::Feedback => n is Feedback,
        Kind::Lpf => n is Lpf,
        Kind::Hpf => n is Hpf,
        Kind::BiQuadLpf => n matches AnyNode::BiQuad(f) && f.function() == s.lpf_coefficients,
        Kind::BiQuadHpf => n matches AnyNode::BiQuad(f) && f.function() == s.hpf_coefficients,
        Kind::Midi2Freq => n matches AnyNode::Fn1(f) && f.function() == s.midi2freq,
        Kind::Round => n matches AnyNode::Fn1(f) && f.function() == s.round,
        Kind::Quantize => n matches AnyNode::Fn2(f) && f.function() == s.quantize,
        Kind::Sin => n matches AnyNode::Fn1(f) && f.function() == s.sin,
        Kind::Cos => n matches AnyNode::Fn1(f) && f.function() == s.cos,
        Kind::Pan3 => n is Pan3,
        Kind::Pan1 => n is Pan1,
        Kind::Pan2 => n is Pan2,
        Kind::Input => n is Input,
        Kind::Cheb2 => n matches AnyNode::Fn1(f) && f.function() == s.cheb2,
        Kind::Cheb3 => n matches AnyNode::Fn1(f) && f.function() == s.cheb3,
        Kind::Cheb4 => n matches AnyNode::Fn1(f) && f.function() == s.cheb4,
        Kind::Cheb5 => n matches AnyNode::Fn1(f) && f.function() == s.cheb5,
        Kind::Cheb6 => n matches AnyNode::Fn1(f) && f.function() == s.cheb6,
        Kind::SampleAndHold => n is SampleAndHold,
        Kind::Metro => n is Metro,
        Kind::DMetro => n is DMetro,
        Kind::MetroHold => n is MetroHold,
        Kind::DMetroHold => n is DMetroHold,
        Kind::Yin => n matches AnyNode::Yin(y) && y.threshold() == yin_threshold::<T>() && y.lags()
            == YIN_WINDOW / 2 && y.period() == YIN_PERIOD,
        Kind::Zip => n is Zip,
        Kind::Constant => n matches AnyNode::Constant(c) && c.frame() == Seq::new(
            channels as nat,
            |_i: int| value,
        ),
        Kind::Parameter(i) => n matches AnyNode::Parameter(p) && p.index() == i,
    }
}

/// The node of kind `kind` in a graph of `channels` channels at `sample_rate`;
/// `value` is a constant's value. `None` where the kind is refused there.
pub fn make_node<T: Scalar, U: Fn(T) -> T + Copy, B: Fn(T, T) -> T + Copy, R: Fn(T, T, T) -> T + Copy, C: Fn(T, T, T) -> Coefficients<T> + Copy, G: Fn() -> T + Copy>(
    kind: Kind,
    value: T,
    channels: usize,
    sample_rate: usize,
    s: &Shapes<U, B, R, C, G>,
) -> (r: Option<AnyNode<T, U, B, R, C, G>>)
    requires
        total(*s),
        channels * MAX_SOURCES <= usize::MAX,
    ensures
        r is None <==> refused::<T>(kind, channels, sample_rate),
        r matches Some(n) ==> {
            &&& n.valid()
            &&& n.frame().len() == channels
            &&& n.reads() <= channels * MAX_SOURCES
            &&& n.arity() == arity_of(kind, channels)
            &&& made(kind, value, channels, *s, n)
        },
{
    let (ch, sr) = (channels, sample_rate);
    match kind {
        Kind::Sine => Some(AnyNode::Osc(Osc::new(ch, sr, s.sine))),
        Kind::SinePhase => Some(AnyNode::OscPhase(OscPhase::new(ch, sr, s.sine))),
        Kind::Triangle => Some(AnyNode::Osc(Osc::new(ch, sr, s.triangle))),
        Kind::TrianglePhase => Some(AnyNode::OscPhase(OscPhase::new(ch, sr, s.triangle))),
        Kind::Phasor => Some(AnyNode::Phasor(Phasor::new(ch, sr))),
        Kind::Phasor0 => Some(AnyNode::Phasor0(Phasor0::new(ch, sr))),
        Kind::Pulse => Some(AnyNode::Pulse(Pulse::new(ch, sr))),
        Kind::Add => Some(AnyNode::Fn2(Fn2::new(ch, s.add))),
        Kind::Sub => Some(AnyNode::Fn2(Fn2::new(ch, s.sub))),
        Kind::Mul => Some(AnyNode::Fn2(Fn2::new(ch, s.mul))),
        Kind::Div => Some(AnyNode::Fn2(Fn2::new(ch, s.div))),
        Kind::Recip => Some(AnyNode::Fn1(Fn1::new(ch, s.recip))),
        Kind::Pow => Some(AnyNode::Fn2(Fn2::new(ch, s.pow))),
        Kind::Unit => Some(AnyNode::Fn1(Fn1::new(ch, s.unit))),
        Kind::Range => Some(AnyNode::Fn3(Fn3::new(ch, s.range))),
        Kind::Noise => Some(AnyNode::Noise(Noise::new(ch, s.noise))),
        Kind::Delay => if ch > usize::MAX / 2 {
            None
        } else {
            match Delay::try_new(ch, sr, T::from_usize(MAX_DELAY_SECONDS)) {
                Some(d) => Some(AnyNode::Delay(d)),
                None => None,
            }
        },
        Kind::Feedback => match Feedback::try_new(ch, sr, T::from_usize(MAX_DELAY_SECONDS)) {
            Some(f) => Some(AnyNode::Feedback(f)),
            None => None,
        },
        Kind::Lpf => Some(AnyNode::Lpf(LPF::new(ch, sr))),
        Kind::Hpf => Some(AnyNode::Hpf(HPF::new(ch, sr))),
        Kind::BiQuadLpf => Some(AnyNode::BiQuad(BiQuad::new(ch, sr, s.lpf_coefficients))),
        Kind::BiQuadHpf => Some(AnyNode::BiQuad(BiQuad::new(ch, sr, s.hpf_coefficients))),
        Kind::Midi2Freq => Some(AnyNode::Fn1(Fn1::new(ch, s.midi2freq))),
        Kind::Round => Some(AnyNode::Fn1(Fn1::new(ch, s.round))),
        Kind::Quantize => Some(AnyNode::Fn2(Fn2::new(ch, s.quantize))),
        Kind::Sin => Some(AnyNode::Fn1(Fn1::new(ch, s.sin))),
        Kind::Cos => Some(AnyNode::Fn1(Fn1::new(ch, s.cos))),
        Kind::Pan3 => Some(AnyNode::Pan3(Pan3::new(ch))),
        Kind::Pan1 => if ch < 2 {
            None
        } else {
            Some(AnyNode::Pan1(Pan1::new(ch)))
        },
        Kind::Pan2 => if ch < 2 {
            None
        } else {
            Some(AnyNode::Pan2(Pan2::new(ch)))
        },
        Kind::Input => Some(AnyNode::Input(Input::new(ch))),
        Kind::Cheb2 => Some(AnyNode::Fn1(Fn1::new(ch, s.cheb2))),
        Kind::Cheb3 => Some(AnyNode::Fn1(Fn1::new(ch, s.cheb3))),
        Kind::Cheb4 => Some(AnyNode::Fn1(Fn1::new(ch, s.cheb4))),
        Kind::Cheb5 => Some(AnyNode::Fn1(Fn1::new(ch, s.cheb5))),
        Kind::Cheb6 => Some(AnyNode::Fn1(Fn1::new(ch, s.cheb6))),
        Kind::SampleAndHold => Some(AnyNode::SampleAndHold(SampleAndHold::new(ch))),
        Kind::Metro => Some(AnyNode::Metro(Metro::new(ch, sr))),
        Kind::DMetro => Some(AnyNode::DMetro(DMetro::new(ch, sr))),
        Kind::MetroHold => Some(AnyNode::MetroHold(MetroHold::new(ch, sr))),
        Kind::DMetroHold => Some(AnyNode::DMetroHold(DMetroHold::new(ch, sr))),
        Kind::Yin => {
            let threshold = T::div(T::from_usize(1), T::from_usize(5));
            Some(AnyNode::Yin(Yin::new(ch, sr, YIN_WINDOW, YIN_PERIOD, threshold)))
        },
        Kind::Zip => if ch > MAX_SOURCES {
            None
        } else {
            proof {
                assert(ch * ch <= ch * MAX_SOURCES) by (nonlinear_arith)
                    requires
                        ch <= MAX_SOURCES,
                ;
            }
            Some(AnyNode::Zip(Zip::new(ch)))
        },
        Kind::Constant => Some(AnyNode::Constant(Constant::new(ch, value))),
        Kind::Parameter(i) => if i >= ch * MAX_SOURCES - ch {
            None
        } else {
            Some(AnyNode::Parameter(Parameter::new(ch, i)))
        },
    }
}

} // verus!
