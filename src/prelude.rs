//! The items most programs that build graphs need.
pub use crate::compiler::{compile_tokens, CompileError, Kind, Plan};
pub use crate::graph::AudioGraph;
pub use crate::module::Module;
pub use crate::modules::prelude::{
    make_hpf_coefficients, make_lpf_coefficients, BiQuad, Constant, DMetro, DMetroHold, Delay,
    Feedback, Fn1, Fn2, Fn3, Input, Metro, MetroHold, Noise, Osc, OscPhase, Pan1, Pan2, Pan3,
    Parameter, Phasor, Phasor0, Pulse, SampleAndHold, Yin, Zip, HPF, LPF,
};
pub use crate::program::assemble;
pub use crate::pure::{pan, rectangle};
pub use crate::scalar::Scalar;
pub use crate::text::tokenize;
