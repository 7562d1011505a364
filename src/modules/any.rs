//! Any node of the catalog, as one type.
use vstd::prelude::*;
use crate::module::Module;
use crate::modules::biquad::Coefficients;
use crate::modules::constant::Constant;
use crate::modules::input::Input;
use crate::modules::parameter::Parameter;
use crate::modules::noise::Noise;
use crate::modules::function::Fn1;
use crate::modules::function::Fn2;
use crate::modules::function::Fn3;
use crate::modules::phasor::Phasor;
use crate::modules::phasor::Phasor0;
use crate::modules::osc::Osc;
use crate::modules::osc::OscPhase;
use crate::modules::pulse::Pulse;
use crate::modules::filter::LPF;
use crate::modules::filter::HPF;
use crate::modules::biquad::BiQuad;
use crate::modules::delay::Delay;
use crate::modules::feedback::Feedback;
use crate::modules::sample_and_hold::SampleAndHold;
use crate::modules::metro::Metro;
use crate::modules::metro::DMetro;
use crate::modules::metro::MetroHold;
use crate::modules::metro::DMetroHold;
use crate::modules::pan::Pan1;
use crate::modules::pan::Pan2;
use crate::modules::pan::Pan3;
use crate::modules::yin::Yin;
use crate::modules::zip::Zip;
use crate::scalar::Scalar;

verus! {

/// A node of any kind of the catalog. Function nodes apply functions of the
/// types `U`, `B` and `R`, biquads take coefficients from `C`, and noise draws
/// from `G`.
#[verifier::reject_recursive_types(T)]
#[verifier::reject_recursive_types(U)]
#[verifier::reject_recursive_types(B)]
#[verifier::reject_recursive_types(R)]
#[verifier::reject_recursive_types(C)]
#[verifier::reject_recursive_types(G)]
pub enum AnyNode<T, U: Fn(T) -> T, B: Fn(T, T) -> T, R: Fn(T, T, T) -> T, C: Fn(T, T, T) -> Coefficients<T>, G: Fn() -> T> {
    Constant(Constant<T>),
    Input(Input<T>),
    Parameter(Parameter<T>),
    Noise(Noise<T, G>),
    Fn1(Fn1<T, U>),
    Fn2(Fn2<T, B>),
    Fn3(Fn3<T, R>),
    Phasor(Phasor<T>),
    Phasor0(Phasor0<T>),
    Osc(Osc<T, U>),
    OscPhase(OscPhase<T, U>),
    Pulse(Pulse<T>),
    Lpf(LPF<T>),
    Hpf(HPF<T>),
    BiQuad(BiQuad<T, C>),
    Delay(Delay<T>),
    Feedback(Feedback<T>),
    SampleAndHold(SampleAndHold<T>),
    Metro(Metro<T>),
    DMetro(DMetro<T>),
    MetroHold(MetroHold<T>),
    DMetroHold(DMetroHold<T>),
    Pan1(Pan1<T>),
    Pan2(Pan2<T>),
    Pan3(Pan3<T>),
    Yin(Yin<T>),
    Zip(Zip<T>),
}

impl<T: Scalar, U: Fn(T) -> T, B: Fn(T, T) -> T, R: Fn(T, T, T) -> T, C: Fn(T, T, T) -> Coefficients<T>, G: Fn() -> T> Module<T> for AnyNode<T, U, B, R, C, G> {
    open spec fn arity(&self) -> u8 {
        match self {
            AnyNode::Constant(n) => n.arity(),
            AnyNode::Input(n) => n.arity(),
            AnyNode::Parameter(n) => n.arity(),
            AnyNode::Noise(n) => n.arity(),
            AnyNode::Fn1(n) => n.arity(),
            AnyNode::Fn2(n) => n.arity(),
            AnyNode::Fn3(n) => n.arity(),
            AnyNode::Phasor(n) => n.arity(),
            AnyNode::Phasor0(n) => n.arity(),
            AnyNode::Osc(n) => n.arity(),
            AnyNode::OscPhase(n) => n.arity(),
            AnyNode::Pulse(n) => n.arity(),
            AnyNode::Lpf(n) => n.arity(),
            AnyNode::Hpf(n) => n.arity(),
            AnyNode::BiQuad(n) => n.arity(),
            AnyNode::Delay(n) => n.arity(),
            AnyNode::Feedback(n) => n.arity(),
            AnyNode::SampleAndHold(n) => n.arity(),
            AnyNode::Metro(n) => n.arity(),
            AnyNode::DMetro(n) => n.arity(),
            AnyNode::MetroHold(n) => n.arity(),
            AnyNode::DMetroHold(n) => n.arity(),
            AnyNode::Pan1(n) => n.arity(),
            AnyNode::Pan2(n) => n.arity(),
            AnyNode::Pan3(n) => n.arity(),
            AnyNode::Yin(n) => n.arity(),
            AnyNode::Zip(n) => n.arity(),
        }
    }

    open spec fn frame(&self) -> Seq<T> {
        match self {
            AnyNode::Constant(n) => n.frame(),
            AnyNode::Input(n) => n.frame(),
            AnyNode::Parameter(n) => n.frame(),
            AnyNode::Noise(n) => n.frame(),
            AnyNode::Fn1(n) => n.frame(),
            AnyNode::Fn2(n) => n.frame(),
            AnyNode::Fn3(n) => n.frame(),
            AnyNode::Phasor(n) => n.frame(),
            AnyNode::Phasor0(n) => n.frame(),
            AnyNode::Osc(n) => n.frame(),
            AnyNode::OscPhase(n) => n.frame(),
            AnyNode::Pulse(n) => n.frame(),
            AnyNode::Lpf(n) => n.frame(),
            AnyNode::Hpf(n) => n.frame(),
            AnyNode::BiQuad(n) => n.frame(),
            AnyNode::Delay(n) => n.frame(),
            AnyNode::Feedback(n) => n.frame(),
            AnyNode::SampleAndHold(n) => n.frame(),
            AnyNode::Metro(n) => n.frame(),
            AnyNode::DMetro(n) => n.frame(),
            AnyNode::MetroHold(n) => n.frame(),
            AnyNode::DMetroHold(n) => n.frame(),
            AnyNode::Pan1(n) => n.frame(),
            AnyNode::Pan2(n) => n.frame(),
            AnyNode::Pan3(n) => n.frame(),
            AnyNode::Yin(n) => n.frame(),
            AnyNode::Zip(n) => n.frame(),
        }
    }

    open spec fn reads(&self) -> nat {
        match self {
            AnyNode::Constant(n) => n.reads(),
            AnyNode::Input(n) => n.reads(),
            AnyNode::Parameter(n) => n.reads(),
            AnyNode::Noise(n) => n.reads(),
            AnyNode::Fn1(n) => n.reads(),
            AnyNode::Fn2(n) => n.reads(),
            AnyNode::Fn3(n) => n.reads(),
            AnyNode::Phasor(n) => n.reads(),
            AnyNode::Phasor0(n) => n.reads(),
            AnyNode::Osc(n) => n.reads(),
            AnyNode::OscPhase(n) => n.reads(),
            AnyNode::Pulse(n) => n.reads(),
            AnyNode::Lpf(n) => n.reads(),
            AnyNode::Hpf(n) => n.reads(),
            AnyNode::BiQuad(n) => n.reads(),
            AnyNode::Delay(n) => n.reads(),
            AnyNode::Feedback(n) => n.reads(),
            AnyNode::SampleAndHold(n) => n.reads(),
            AnyNode::Metro(n) => n.reads(),
            AnyNode::DMetro(n) => n.reads(),
            AnyNode::MetroHold(n) => n.reads(),
            AnyNode::DMetroHold(n) => n.reads(),
            AnyNode::Pan1(n) => n.reads(),
            AnyNode::Pan2(n) => n.reads(),
            AnyNode::Pan3(n) => n.reads(),
            AnyNode::Yin(n) => n.reads(),
            AnyNode::Zip(n) => n.reads(),
        }
    }

    open spec fn valid(&self) -> bool {
        match self {
            AnyNode::Constant(n) => n.valid(),
            AnyNode::Input(n) => n.valid(),
            AnyNode::Parameter(n) => n.valid(),
            AnyNode::Noise(n) => n.valid(),
            AnyNode::Fn1(n) => n.valid(),
            AnyNode::Fn2(n) => n.valid(),
            AnyNode::Fn3(n) => n.valid(),
            AnyNode::Phasor(n) => n.valid(),
            AnyNode::Phasor0(n) => n.valid(),
            AnyNode::Osc(n) => n.valid(),
            AnyNode::OscPhase(n) => n.valid(),
            AnyNode::Pulse(n) => n.valid(),
            AnyNode::Lpf(n) => n.valid(),
            AnyNode::Hpf(n) => n.valid(),
            AnyNode::BiQuad(n) => n.valid(),
            AnyNode::Delay(n) => n.valid(),
            AnyNode::Feedback(n) => n.valid(),
            AnyNode::SampleAndHold(n) => n.valid(),
            AnyNode::Metro(n) => n.valid(),
            AnyNode::DMetro(n) => n.valid(),
            AnyNode::MetroHold(n) => n.valid(),
            AnyNode::DMetroHold(n) => n.valid(),
            AnyNode::Pan1(n) => n.valid(),
            AnyNode::Pan2(n) => n.valid(),
            AnyNode::Pan3(n) => n.valid(),
            AnyNode::Yin(n) => n.valid(),
            AnyNode::Zip(n) => n.valid(),
        }
    }

    open spec fn emits(&self, input: Seq<T>, next: Seq<T>) -> bool {
        match self {
            AnyNode::Constant(n) => n.emits(input, next),
            AnyNode::Input(n) => n.emits(input, next),
            AnyNode::Parameter(n) => n.emits(input, next),
            AnyNode::Noise(n) => n.emits(input, next),
            AnyNode::Fn1(n) => n.emits(input, next),
            AnyNode::Fn2(n) => n.emits(input, next),
            AnyNode::Fn3(n) => n.emits(input, next),
            AnyNode::Phasor(n) => n.emits(input, next),
            AnyNode::Phasor0(n) => n.emits(input, next),
            AnyNode::Osc(n) => n.emits(input, next),
            AnyNode::OscPhase(n) => n.emits(input, next),
            AnyNode::Pulse(n) => n.emits(input, next),
            AnyNode::Lpf(n) => n.emits(input, next),
            AnyNode::Hpf(n) => n.emits(input, next),
            AnyNode::BiQuad(n) => n.emits(input, next),
            AnyNode::Delay(n) => n.emits(input, next),
            AnyNode::Feedback(n) => n.emits(input, next),
            AnyNode::SampleAndHold(n) => n.emits(input, next),
            AnyNode::Metro(n) => n.emits(input, next),
            AnyNode::DMetro(n) => n.emits(input, next),
            AnyNode::MetroHold(n) => n.emits(input, next),
            AnyNode::DMetroHold(n) => n.emits(input, next),
            AnyNode::Pan1(n) => n.emits(input, next),
            AnyNode::Pan2(n) => n.emits(input, next),
            AnyNode::Pan3(n) => n.emits(input, next),
            AnyNode::Yin(n) => n.emits(input, next),
            AnyNode::Zip(n) => n.emits(input, next),
        }
    }

    fn inputs(&self) -> (r: u8) {
        match self {
            AnyNode::Constant(n) => n.inputs(),
            AnyNode::Input(n) => n.inputs(),
            AnyNode::Parameter(n) => n.inputs(),
            AnyNode::Noise(n) => n.inputs(),
            AnyNode::Fn1(n) => n.inputs(),
            AnyNode::Fn2(n) => n.inputs(),
            AnyNode::Fn3(n) => n.inputs(),
            AnyNode::Phasor(n) => n.inputs(),
            AnyNode::Phasor0(n) => n.inputs(),
            AnyNode::Osc(n) => n.inputs(),
            AnyNode::OscPhase(n) => n.inputs(),
            AnyNode::Pulse(n) => n.inputs(),
            AnyNode::Lpf(n) => n.inputs(),
            AnyNode::Hpf(n) => n.inputs(),
            AnyNode::BiQuad(n) => n.inputs(),
            AnyNode::Delay(n) => n.inputs(),
            AnyNode::Feedback(n) => n.inputs(),
            AnyNode::SampleAndHold(n) => n.inputs(),
            AnyNode::Metro(n) => n.inputs(),
            AnyNode::DMetro(n) => n.inputs(),
            AnyNode::MetroHold(n) => n.inputs(),
            AnyNode::DMetroHold(n) => n.inputs(),
            AnyNode::Pan1(n) => n.inputs(),
            AnyNode::Pan2(n) => n.inputs(),
            AnyNode::Pan3(n) => n.inputs(),
            AnyNode::Yin(n) => n.inputs(),
            AnyNode::Zip(n) => n.inputs(),
        }
    }

    fn output(&self) -> (r: &[T]) {
        match self {
            AnyNode::Constant(n) => n.output(),
            AnyNode::Input(n) => n.output(),
            AnyNode::Parameter(n) => n.output(),
            AnyNode::Noise(n) => n.output(),
            AnyNode::Fn1(n) => n.output(),
            AnyNode::Fn2(n) => n.output(),
            AnyNode::Fn3(n) => n.output(),
            AnyNode::Phasor(n) => n.output(),
            AnyNode::Phasor0(n) => n.output(),
            AnyNode::Osc(n) => n.output(),
            AnyNode::OscPhase(n) => n.output(),
            AnyNode::Pulse(n) => n.output(),
            AnyNode::Lpf(n) => n.output(),
            AnyNode::Hpf(n) => n.output(),
            AnyNode::BiQuad(n) => n.output(),
            AnyNode::Delay(n) => n.output(),
            AnyNode::Feedback(n) => n.output(),
            AnyNode::SampleAndHold(n) => n.output(),
            AnyNode::Metro(n) => n.output(),
            AnyNode::DMetro(n) => n.output(),
            AnyNode::MetroHold(n) => n.output(),
            AnyNode::DMetroHold(n) => n.output(),
            AnyNode::Pan1(n) => n.output(),
            AnyNode::Pan2(n) => n.output(),
            AnyNode::Pan3(n) => n.output(),
            AnyNode::Yin(n) => n.output(),
            AnyNode::Zip(n) => n.output(),
        }
    }

    fn sample(&mut self, input: &[T]) {
        match self {
            AnyNode::Constant(n) => n.sample(input),
            AnyNode::Input(n) => n.sample(input),
            AnyNode::Parameter(n) => n.sample(input),
            AnyNode::Noise(n) => n.sample(input),
            AnyNode::Fn1(n) => n.sample(input),
            AnyNode::Fn2(n) => n.sample(input),
            AnyNode::Fn3(n) => n.sample(input),
            AnyNode::Phasor(n) => n.sample(input),
            AnyNode::Phasor0(n) => n.sample(input),
            AnyNode::Osc(n) => n.sample(input),
            AnyNode::OscPhase(n) => n.sample(input),
            AnyNode::Pulse(n) => n.sample(input),
            AnyNode::Lpf(n) => n.sample(input),
            AnyNode::Hpf(n) => n.sample(input),
            AnyNode::BiQuad(n) => n.sample(input),
            AnyNode::Delay(n) => n.sample(input),
            AnyNode::Feedback(n) => n.sample(input),
            AnyNode::SampleAndHold(n) => n.sample(input),
            AnyNode::Metro(n) => n.sample(input),
            AnyNode::DMetro(n) => n.sample(input),
            AnyNode::MetroHold(n) => n.sample(input),
            AnyNode::DMetroHold(n) => n.sample(input),
            AnyNode::Pan1(n) => n.sample(input),
            AnyNode::Pan2(n) => n.sample(input),
            AnyNode::Pan3(n) => n.sample(input),
            AnyNode::Yin(n) => n.sample(input),
            AnyNode::Zip(n) => n.sample(input),
        }
    }
}

} // verus!
