use audio_graph::graph::AudioGraph;
use audio_graph::module::Module;
use audio_graph::modules::biquad::{make_hpf_coefficients, make_lpf_coefficients, BiQuad};
use audio_graph::modules::constant::Constant;
use audio_graph::modules::delay::{next_power_of_two, Delay};
use audio_graph::modules::feedback::Feedback;
use audio_graph::modules::filter::{HPF, LPF};
use audio_graph::modules::function::{Fn1, Fn2, Fn3};
use audio_graph::modules::input::Input;
use audio_graph::modules::metro::{DMetro, DMetroHold, Metro, MetroHold};
use audio_graph::modules::noise::Noise;
use audio_graph::modules::osc::{Osc, OscPhase};
use audio_graph::modules::pulse::Pulse;
use audio_graph::modules::pan::{Pan1, Pan2, Pan3};
use audio_graph::modules::phasor::{Phasor, Phasor0};
use audio_graph::modules::sample_and_hold::SampleAndHold;
use audio_graph::modules::yin::Yin;
use audio_graph::modules::zip::Zip;
use audio_graph::catalog::Shapes;
use audio_graph::modules::any::AnyNode;
use audio_graph::program;
use audio_graph::pure::{pan, rectangle};
use audio_graph::scalar::Scalar;
use audio_graph::text::tokenize;

#[derive(Clone, Copy, Debug, PartialEq)]
struct F(f64);

impl Scalar for F {
    fn from_usize_spec(n: usize) -> F {
        <F as Scalar>::from_usize(n)
    }
    fn pi_spec() -> F {
        <F as Scalar>::pi()
    }
    fn add_spec(a: F, b: F) -> F {
        <F as Scalar>::add(a, b)
    }
    fn sub_spec(a: F, b: F) -> F {
        <F as Scalar>::sub(a, b)
    }
    fn mul_spec(a: F, b: F) -> F {
        <F as Scalar>::mul(a, b)
    }
    fn div_spec(a: F, b: F) -> F {
        <F as Scalar>::div(a, b)
    }
    fn rem_euclid_spec(a: F, b: F) -> F {
        <F as Scalar>::rem_euclid(a, b)
    }
    fn neg_spec(a: F) -> F {
        <F as Scalar>::neg(a)
    }
    fn min_spec(a: F, b: F) -> F {
        <F as Scalar>::min(a, b)
    }
    fn max_spec(a: F, b: F) -> F {
        <F as Scalar>::max(a, b)
    }
    fn sqrt_spec(a: F) -> F {
        <F as Scalar>::sqrt(a)
    }
    fn sin_spec(a: F) -> F {
        <F as Scalar>::sin(a)
    }
    fn cos_spec(a: F) -> F {
        <F as Scalar>::cos(a)
    }
    fn fract_spec(a: F) -> F {
        <F as Scalar>::fract(a)
    }
    fn lt_spec(a: F, b: F) -> bool {
        <F as Scalar>::lt(a, b)
    }
    fn le_spec(a: F, b: F) -> bool {
        <F as Scalar>::le(a, b)
    }
    fn eq_spec(a: F, b: F) -> bool {
        <F as Scalar>::eq(a, b)
    }
    fn to_usize_spec(a: F) -> usize {
        <F as Scalar>::to_usize(a)
    }
    fn from_u64_spec(n: u64) -> F {
        <F as Scalar>::from_u64(n)
    }
    fn from_usize(n: usize) -> F {
        F(n as f64)
    }
    fn pi() -> F {
        F(std::f64::consts::PI)
    }
    fn add(a: F, b: F) -> F {
        F(a.0 + b.0)
    }
    fn sub(a: F, b: F) -> F {
        F(a.0 - b.0)
    }
    fn mul(a: F, b: F) -> F {
        F(a.0 * b.0)
    }
    fn div(a: F, b: F) -> F {
        F(a.0 / b.0)
    }
    fn rem_euclid(a: F, b: F) -> F {
        F(a.0.rem_euclid(b.0))
    }
    fn neg(a: F) -> F {
        F(-a.0)
    }
    fn min(a: F, b: F) -> F {
        F(a.0.min(b.0))
    }
    fn max(a: F, b: F) -> F {
        F(a.0.max(b.0))
    }
    fn sqrt(a: F) -> F {
        F(a.0.sqrt())
    }
    fn sin(a: F) -> F {
        F(a.0.sin())
    }
    fn cos(a: F) -> F {
        F(a.0.cos())
    }
    fn fract(a: F) -> F {
        F(a.0.fract())
    }
    fn lt(a: F, b: F) -> bool {
        a.0 < b.0
    }
    fn le(a: F, b: F) -> bool {
        a.0 <= b.0
    }
    fn eq(a: F, b: F) -> bool {
        a.0 == b.0
    }
    fn to_usize(a: F) -> usize {
        a.0 as usize
    }
    fn from_u64(n: u64) -> F {
        F(n as f64)
    }
}

struct Node(Box<dyn Module<F>>);

impl Module<F> for Node {
    fn inputs(&self) -> u8 {
        self.0.inputs()
    }
    fn output(&self) -> &[F] {
        self.0.output()
    }
    fn sample(&mut self, input: &[F]) {
        self.0.sample(input)
    }
}

fn sine(x: F) -> F {
    F((std::f64::consts::PI * x.0).sin())
}

type Shaped = AnyNode<F, fn(F) -> F, fn(F, F) -> F, fn(F, F, F) -> F, fn(F, F, F) -> (F, F, F, F, F, F), fn() -> F>;

fn ident(x: F) -> F {
    x
}

fn plus(a: F, b: F) -> F {
    F(a.0 + b.0)
}

fn minus(a: F, b: F) -> F {
    F(a.0 - b.0)
}

fn times(a: F, b: F) -> F {
    F(a.0 * b.0)
}

fn first(x: F, _y: F, _z: F) -> F {
    x
}

fn quiet() -> F {
    F(0.0)
}

fn test_shapes() -> Shapes<fn(F) -> F, fn(F, F) -> F, fn(F, F, F) -> F, fn(F, F, F) -> (F, F, F, F, F, F), fn() -> F> {
    Shapes {
        sine,
        triangle: ident,
        recip: ident,
        unit: ident,
        midi2freq: ident,
        round: ident,
        sin: ident,
        cos: ident,
        cheb2: ident,
        cheb3: ident,
        cheb4: ident,
        cheb5: ident,
        cheb6: ident,
        add: plus,
        sub: minus,
        mul: times,
        div: times,
        pow: times,
        quantize: times,
        range: first,
        lpf_coefficients: make_lpf_coefficients::<F>,
        hpf_coefficients: make_hpf_coefficients::<F>,
        noise: quiet,
    }
}

fn build(program: &str, channels: usize, sample_rate: usize) -> AudioGraph<F, Shaped> {
    let tokens = tokenize(program);
    let values: Vec<Option<F>> = tokens.iter().map(|t| t.parse::<f64>().ok().map(F)).collect();
    match program::build(&tokens, &values, channels, sample_rate, &test_shapes()) {
        Ok(g) => g,
        Err(e) => panic!("{}", e.message()),
    }
}

fn run<N: Module<F>>(g: &mut AudioGraph<F, N>, external: &[f64], frames: usize) -> Vec<f64> {
    let external: Vec<F> = external.iter().map(|x| F(*x)).collect();
    let mut last = Vec::new();
    for _ in 0..frames {
        last = g.sample(&external).iter().map(|x| x.0).collect();
    }
    last
}

fn close(a: f64, b: f64, eps: f64) -> bool {
    (a - b).abs() <= eps
}

#[test]
fn sine_at_440_after_48_frames() {
    let mut g = build("440 s", 2, 48000);
    let out = run(&mut g, &[0.0, 0.0], 48);
    let expected = (std::f64::consts::PI * 440.0 * 48.0 / 48000.0).sin();
    assert!(close(out[0], expected, 1e-9), "{:?}", out);
    assert!(close(out[1], expected, 1e-9));
}

#[test]
fn halved_sine_has_half_the_amplitude() {
    let mut a = build("440 s", 2, 48000);
    let mut b = build("440 s 0.5 *", 2, 48000);
    for _ in 0..200 {
        let x = run(&mut a, &[0.0, 0.0], 1);
        let y = run(&mut b, &[0.0, 0.0], 1);
        assert!(close(y[0], 0.5 * x[0], 1e-12));
        assert!(close(y[1], 0.5 * x[1], 1e-12));
    }
}

#[test]
fn one_plus_one_is_two_every_frame() {
    let mut g = build("1 1 +", 2, 48000);
    for _ in 0..10 {
        assert_eq!(run(&mut g, &[0.0, 0.0], 1), vec![2.0, 2.0]);
    }
}

#[test]
fn input_passes_the_external_frame_through() {
    let mut g = build("in", 2, 48000);
    assert_eq!(run(&mut g, &[0.1, 0.2], 1), vec![0.1, 0.2]);
    assert_eq!(run(&mut g, &[0.3, 0.4], 1), vec![0.3, 0.4]);
}

#[test]
fn two_dup_times_is_four() {
    let mut g = build("2 dup *", 2, 48000);
    assert_eq!(run(&mut g, &[0.0, 0.0], 1), vec![4.0, 4.0]);
    assert_eq!(run(&mut g, &[0.0, 0.0], 1), vec![4.0, 4.0]);
}

#[test]
fn one_two_plus_is_three() {
    let mut g = build("1 2 +", 2, 48000);
    assert_eq!(run(&mut g, &[0.0, 0.0], 1), vec![3.0, 3.0]);
}

#[test]
fn subtraction_takes_the_earlier_operand_first() {
    let mut g = build("5 2 -", 1, 48000);
    assert_eq!(run(&mut g, &[0.0], 1), vec![3.0]);
}

#[test]
fn parameters_follow_the_channels_in_the_external_frame() {
    let mut g = build("param:1", 2, 48000);
    assert_eq!(run(&mut g, &[0.1, 0.2, 0.5, 0.7], 1), vec![0.7, 0.7]);
}

#[test]
fn empty_graph_samples_without_panicking() {
    let mut g = build("", 2, 48000);
    let out = run(&mut g, &[0.0, 0.0], 3);
    assert_eq!(out.len(), 32);
}

#[test]
fn sources_are_laid_out_in_the_given_order() {
    let mut g: AudioGraph<F, Node> = AudioGraph::new(1);
    let a = g.add_node(Node(Box::new(Constant::new(1, F(1.0)))));
    let b = g.add_node(Node(Box::new(Constant::new(1, F(2.0)))));
    let c = g.add_node(Node(Box::new(Constant::new(1, F(3.0)))));
    let f = g.add_node(Node(Box::new(Fn3::new(1, |x: F, y: F, z: F| F(100.0 * x.0 + 10.0 * y.0 + z.0)))));
    g.set_sources(f, &[a, b, c]);
    assert_eq!(run(&mut g, &[0.0], 1), vec![123.0]);
    g.set_sources_rev(f, &[a, b, c]);
    assert_eq!(run(&mut g, &[0.0], 1), vec![321.0]);
}

#[test]
fn connect_replaces_the_sources_of_the_sink() {
    let mut g: AudioGraph<F, Node> = AudioGraph::new(1);
    let x = g.add_node(Node(Box::new(Constant::new(1, F(7.0)))));
    let z = g.add_node(Node(Box::new(Constant::new(1, F(9.0)))));
    let y = g.add_node(Node(Box::new(Fn1::new(1, |v: F| v))));
    g.connect(x, y);
    run(&mut g, &[0.0], 1);
    assert_eq!(g.node(y).output().to_vec(), vec![F(7.0)]);
    g.connect(z, y);
    run(&mut g, &[0.0], 1);
    assert_eq!(g.node(y).output().to_vec(), vec![F(9.0)]);
}

#[test]
fn sinks_read_their_sources_of_the_same_frame() {
    let mut g: AudioGraph<F, Node> = AudioGraph::new(1);
    let inc = |v: F| F(v.0 + 1.0);
    let c = g.add_node(Node(Box::new(Input::new(1))));
    let f2 = g.add_node(Node(Box::new(Fn1::new(1, inc))));
    let f1 = g.add_node(Node(Box::new(Fn1::new(1, inc))));
    g.chain(&[c, f1, f2]);
    assert_eq!(run(&mut g, &[10.0], 1), vec![12.0]);
    assert_eq!(run(&mut g, &[20.0], 1), vec![22.0]);
}

#[test]
fn a_cycle_leaves_the_graph_silent_but_safe() {
    let mut g: AudioGraph<F, Node> = AudioGraph::new(1);
    let inc = |v: F| F(v.0 + 1.0);
    let a = g.add_node(Node(Box::new(Fn1::new(1, inc))));
    let b = g.add_node(Node(Box::new(Fn1::new(1, inc))));
    g.connect(a, b);
    g.connect(b, a);
    let out = run(&mut g, &[5.0], 2);
    assert_eq!(out.len(), 16);
    assert_eq!(g.node(a).output()[0], F(0.0));
    g.clear();
    assert_eq!(run(&mut g, &[0.0], 1).len(), 16);
}

#[test]
fn output_reads_are_idempotent() {
    let mut n = Osc::new(2, 48000, sine);
    n.sample(&[F(440.0), F(440.0)]);
    let first: Vec<F> = n.output().to_vec();
    let second: Vec<F> = n.output().to_vec();
    assert_eq!(first, second);
}

#[test]
fn phasor_wraps_into_the_bipolar_range() {
    let mut p = Phasor::new(1, 48000);
    let mut values = Vec::new();
    for _ in 0..200 {
        p.sample(&[F(4800.0)]);
        let v = p.output()[0].0;
        assert!(v >= -1.0 && v < 1.0);
        values.push(v);
    }
    // a phase step of 0.1 over a range of 2 repeats every 20 frames
    for t in 20..200 {
        assert!(close(values[t], values[t - 20], 1e-9));
    }
    assert!(close(values[0], 0.1, 1e-12));
}

#[test]
fn phasor_with_offset_adds_the_offset_before_wrapping() {
    let mut p = Phasor0::new(1, 10);
    p.sample(&[F(1.0), F(0.5)]);
    assert!(close(p.output()[0].0, 0.6, 1e-12));
    p.sample(&[F(1.0), F(0.5)]);
    assert!(close(p.output()[0].0, -0.8, 1e-12));
}

#[test]
fn low_pass_converges_to_a_constant_input() {
    let mut g = build("1 1000 lpf", 1, 48000);
    let out = run(&mut g, &[0.0], 5000);
    assert!(close(out[0], 1.0, 1e-9));
}

#[test]
fn low_pass_first_step_matches_the_formula() {
    let mut f = LPF::new(1, 48000);
    f.sample(&[F(1.0), F(1000.0)]);
    let k = 1000.0 * 2.0 * std::f64::consts::PI / 48000.0;
    assert!(close(f.output()[0].0, k / (k + 1.0), 1e-12));
}

#[test]
fn high_pass_blocks_a_constant_input() {
    let mut f = HPF::new(1, 48000);
    f.sample(&[F(1.0), F(1000.0)]);
    let k = 1000.0 * 2.0 * std::f64::consts::PI / 48000.0;
    assert!(close(f.output()[0].0, 1.0 / (k + 1.0), 1e-12));
    for _ in 0..5000 {
        f.sample(&[F(1.0), F(1000.0)]);
    }
    assert!(close(f.output()[0].0, 0.0, 1e-9));
}

#[test]
fn biquad_low_pass_passes_dc() {
    let mut f = BiQuad::new(1, 48000, make_lpf_coefficients);
    for _ in 0..20000 {
        f.sample(&[F(1.0), F(1000.0), F(0.707)]);
    }
    assert!(close(f.output()[0].0, 1.0, 1e-6));
    let mut h = BiQuad::new(1, 48000, make_hpf_coefficients);
    for _ in 0..20000 {
        h.sample(&[F(1.0), F(1000.0), F(0.707)]);
    }
    assert!(close(h.output()[0].0, 0.0, 1e-6));
}

#[test]
fn coefficient_functions_follow_the_cookbook() {
    let (b0, b1, b2, a0, a1, a2) = make_lpf_coefficients(F(0.0), F(0.5), F(0.25));
    assert_eq!((b0, b1, b2, a0, a1, a2), (F(0.25), F(0.5), F(0.25), F(1.25), F(-1.0), F(0.75)));
    let (b0, b1, b2, a0, a1, a2) = make_hpf_coefficients(F(0.0), F(0.5), F(0.25));
    assert_eq!((b0, b1, b2, a0, a1, a2), (F(0.75), F(-1.5), F(0.75), F(1.25), F(-1.0), F(0.75)));
}

#[test]
fn delay_of_n_frames_reproduces_the_input_n_frames_later() {
    // at 8 frames per second, 0.25 s is exactly 2 frames
    let mut d = Delay::new(1, 8, F(1.0));
    let mut outputs = Vec::new();
    for t in 0..12 {
        d.sample(&[F(t as f64 + 1.0), F(0.25)]);
        outputs.push(d.output()[0].0);
    }
    for t in 3..12 {
        assert_eq!(outputs[t], (t - 2) as f64 + 1.0);
    }
    assert_eq!(outputs[0], 0.0);
    assert_eq!(outputs[1], 0.0);
    assert_eq!(outputs[2], 0.0);
}

#[test]
fn delay_interpolates_between_frames() {
    let mut d = Delay::new(1, 8, F(1.0));
    for t in 0..6 {
        d.sample(&[F(t as f64), F(0.3125)]);
    }
    // 0.3125 s is 2.5 frames: halfway between the inputs 3 and 2 frames back
    assert!(close(d.output()[0].0, 2.5, 1e-12));
}

#[test]
fn delay_ring_is_a_power_of_two() {
    assert_eq!(next_power_of_two(0), Some(1));
    assert_eq!(next_power_of_two(1), Some(1));
    assert_eq!(next_power_of_two(5), Some(8));
    assert_eq!(next_power_of_two(2880001), Some(4194304));
    assert_eq!(next_power_of_two(usize::MAX), None);
    assert!(Delay::try_new(2, 48000, F(60.0)).is_some());
    assert!(Delay::try_new(2, 48000, F(1.0e20)).is_none());
    assert!(Feedback::try_new(2, 48000, F(60.0)).is_some());
    assert!(Feedback::try_new(2, 48000, F(1.0e20)).is_none());
}

#[test]
fn feedback_adds_the_delayed_output() {
    let mut f = Feedback::new(1, 8, F(1.0));
    let mut outputs = Vec::new();
    for t in 0..6 {
        let x = if t == 0 { 1.0 } else { 0.0 };
        f.sample(&[F(x), F(0.125), F(0.5)]);
        outputs.push(f.output()[0].0);
    }
    assert_eq!(outputs[0], 1.0);
    assert_eq!(outputs[1], 0.0);
    assert_eq!(outputs[2], 0.5);
    assert_eq!(outputs[3], 0.0);
    assert_eq!(outputs[4], 0.25);
}

#[test]
fn sample_and_hold_takes_the_signal_on_trigger() {
    let mut s = SampleAndHold::new(1);
    s.sample(&[F(1.0), F(0.8)]);
    assert_eq!(s.output()[0], F(0.8));
    s.sample(&[F(0.0), F(0.3)]);
    assert_eq!(s.output()[0], F(0.8));
    s.sample(&[F(0.5), F(0.0)]);
    assert_eq!(s.output()[0], F(0.4));
}

#[test]
fn metro_fires_every_period() {
    let mut m = Metro::new(1, 8);
    let mut fires = Vec::new();
    for _ in 0..9 {
        m.sample(&[F(2.0)]);
        fires.push(m.output()[0].0);
    }
    assert_eq!(fires, vec![0.0, 0.0, 0.0, 0.0, 1.0, 0.0, 0.0, 0.0, 1.0]);
    let mut d = DMetro::new(1, 8);
    let mut fires = Vec::new();
    for _ in 0..5 {
        d.sample(&[F(0.25)]);
        fires.push(d.output()[0].0);
    }
    assert_eq!(fires, vec![0.0, 0.0, 1.0, 0.0, 1.0]);
}

#[test]
fn holding_metro_latches_its_rate_at_each_fire() {
    let mut m = MetroHold::new(1, 8);
    let mut fires = Vec::new();
    for t in 0..8 {
        let f = if t < 3 { 4.0 } else { 1.0 };
        m.sample(&[F(f)]);
        fires.push(m.output()[0].0);
    }
    assert_eq!(fires, vec![0.0, 0.0, 1.0, 0.0, 1.0, 0.0, 0.0, 0.0]);
    let mut d = DMetroHold::new(1, 8);
    d.sample(&[F(0.25)]);
    assert_eq!(d.output()[0], F(0.0));
}

#[test]
fn panners_mix_by_position() {
    let mut p = Pan3::new(2);
    p.sample(&[F(0.3), F(0.6), F(0.5), F(0.7), F(0.0), F(0.0)]);
    assert_eq!(p.output().to_vec(), vec![F(0.3), F(0.7)]);
    let mut single = Pan1::new(2);
    single.sample(&[F(0.3), F(0.6), F(1.0), F(1.0)]);
    assert_eq!(single.output().to_vec(), vec![F(0.0), F(0.3 + 2f64.sqrt() * 0.6)]);
    let mut split = Pan2::new(2);
    split.sample(&[F(0.3), F(9.0), F(9.0), F(0.6), F(-1.0), F(-1.0)]);
    assert_eq!(split.output().to_vec(), vec![F(2f64.sqrt() * 0.3 + 0.6), F(0.0)]);
    let (l, r) = pan(F(1.0), F(1.0), F(0.0));
    assert_eq!((l, r), (F(1.0), F(1.0)));
}

#[test]
fn pulse_follows_the_duty_cycle() {
    assert_eq!(rectangle(F(-0.5), F(0.5)), F(1.0));
    assert_eq!(rectangle(F(0.5), F(0.5)), F(-1.0));
    let mut p = Pulse::new(1, 10);
    let mut outs = Vec::new();
    for _ in 0..10 {
        p.sample(&[F(1.0), F(0.25)]);
        outs.push(p.output()[0].0);
    }
    assert_eq!(outs, vec![-1.0, -1.0, -1.0, -1.0, -1.0, -1.0, -1.0, -1.0, -1.0, 1.0]);
}

#[test]
fn oscillator_with_phase_offset() {
    let mut o = OscPhase::new(1, 4, sine);
    o.sample(&[F(1.0), F(0.5)]);
    assert!(close(o.output()[0].0, (std::f64::consts::PI * 0.75).sin(), 1e-12));
}

#[test]
fn zip_gathers_channel_zero_of_each_source() {
    let mut z = Zip::new(2);
    assert_eq!(z.inputs(), 2);
    z.sample(&[F(1.0), F(2.0), F(3.0), F(4.0)]);
    assert_eq!(z.output().to_vec(), vec![F(1.0), F(3.0)]);
}

#[test]
fn function_nodes_apply_per_channel() {
    let mut f = Fn3::new(2, |x: F, lo: F, hi: F| F(lo.0 + (x.0 + 1.0) / 2.0 * (hi.0 - lo.0)));
    f.sample(&[F(-1.0), F(1.0), F(10.0), F(10.0), F(20.0), F(30.0)]);
    assert_eq!(f.output().to_vec(), vec![F(10.0), F(30.0)]);
}

#[test]
fn noise_draws_each_channel() {
    let mut n = Noise::new(3, || F(0.25));
    n.sample(&[]);
    assert_eq!(n.output().to_vec(), vec![F(0.25), F(0.25), F(0.25)]);
    assert_eq!(n.inputs(), 0);
}

#[test]
fn yin_finds_the_pitch_of_a_sine() {
    let rate = 48000usize;
    let mut y = Yin::new(1, rate, 1024, 512, F(0.2));
    for t in 0..2048 {
        let x = (2.0 * std::f64::consts::PI * 440.0 * t as f64 / rate as f64).sin();
        y.sample(&[F(x)]);
    }
    assert!(close(y.output()[0].0, 440.0, 2.0), "{:?}", y.output());
}

#[test]
fn yin_reports_zero_for_silence_like_noise() {
    let mut y = Yin::new(1, 48000, 16, 4, F(0.2));
    y.sample(&[F(0.0)]);
    assert_eq!(y.output()[0], F(0.0));
}

#[test]
fn delay_of_zero_returns_the_previous_frame() {
    let mut d = Delay::new(1, 8, F(1.0));
    let mut outputs = Vec::new();
    for t in 0..6 {
        d.sample(&[F(t as f64 + 1.0), F(0.0)]);
        outputs.push(d.output()[0].0);
    }
    assert_eq!(outputs, vec![0.0, 1.0, 2.0, 3.0, 4.0, 5.0]);
}

#[test]
fn metro_waits_for_a_whole_period() {
    // 10 / 4 = 2.5 frames: the first fire comes after three frames, not two
    let mut m = Metro::new(1, 10);
    let mut fires = Vec::new();
    for _ in 0..7 {
        m.sample(&[F(4.0)]);
        fires.push(m.output()[0].0);
    }
    assert_eq!(fires, vec![0.0, 0.0, 0.0, 1.0, 0.0, 0.0, 1.0]);
}

#[test]
fn phasor_stays_in_range_for_negative_frequencies() {
    let mut p = Phasor::new(1, 48000);
    for _ in 0..1000 {
        p.sample(&[F(-48000.0)]);
        let v = p.output()[0].0;
        assert!(v >= -1.0 && v < 1.0, "{}", v);
    }
    let mut q = Phasor::new(1, 10);
    q.sample(&[F(-3.0)]);
    assert!(close(q.output()[0].0, -0.3, 1e-12));
    q.sample(&[F(-8.0)]);
    assert!(close(q.output()[0].0, 0.9, 1e-12));
}

#[test]
fn yin_with_a_tiny_window_reports_zero() {
    for window in 1..5 {
        let mut y = Yin::new(1, 48000, window, 1, F(0.2));
        for t in 0..10 {
            y.sample(&[F(t as f64)]);
            assert_eq!(y.output()[0], F(0.0));
        }
    }
}

#[test]
fn refused_nodes_are_reported_with_their_token() {
    let tokens = tokenize("1 2 pan1");
    let values: Vec<Option<F>> = tokens.iter().map(|t| t.parse::<f64>().ok().map(F)).collect();
    match program::build(&tokens, &values, 1, 48000, &test_shapes()) {
        Ok(_) => panic!("pan1 on one channel was built"),
        Err(e) => assert_eq!(e.message(), "Node #3 `pan1` cannot be made in this graph."),
    }
    let tokens = tokenize("dup");
    let values: Vec<Option<F>> = vec![None];
    match program::build(&tokens, &values, 2, 48000, &test_shapes()) {
        Ok(_) => panic!("dup on an empty stack was built"),
        Err(e) => assert_eq!(e.message(), "Nothing to dup at #1!"),
    }
}
