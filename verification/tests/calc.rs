use s_rack::synth::adsr::ADSRMode::{Attack, Decay, Idle, Release, Sustain};
use s_rack::synth::adsr::{ADSRMode, ADSRModule, Envelope};
use s_rack::synth::filter::{InternalMoogFilterState, MoogFilterModule, MoogFilterSettings};
use s_rack::synth::freeverb::{FreeverbModule, FreeverbUpdate};
use s_rack::synth::math::{MathModule, MathOperation};
use s_rack::synth::mixer::MonoMixerModule;
use s_rack::synth::oscillator::{NoiseModule, OscillatorModule, OscillatorState};
use s_rack::synth::output::OutputModule;
use s_rack::synth::sample::{PlayerState, SampleModule};
use s_rack::synth::sequencer::{PatternSequencerModule, StepState};
use s_rack::synth::vca::VCAModule;
use s_rack::synth::{AudioBuffer, AudioConfig, SynthModule, TransitionDetector};
use std::cell::Cell;
use std::f64::consts::PI;

fn f(bits: u32) -> f32 {
    f32::from_bits(bits)
}

fn b(value: f32) -> u32 {
    value.to_bits()
}

fn buffer(samples: &[f32]) -> AudioBuffer {
    let mut buffer = AudioBuffer::new(None);
    buffer.put(Some(samples.iter().map(|x| b(*x)).collect()));
    buffer
}

fn silence() -> AudioBuffer {
    AudioBuffer::new(None)
}

fn out<M: SynthModule>(module: &M, port: u8) -> Vec<f32> {
    module.get_output(port).unwrap().get().unwrap().iter().map(|x| f(*x)).collect()
}

fn config(buffer_size: usize) -> AudioConfig {
    AudioConfig { sample_rate: 48000, buffer_size, channels: 2 }
}

fn poly_blep(t: f64, dt: f64) -> f64 {
    if dt == 0.0 {
        return 0.0;
    }
    let mut t = t;
    if t < dt {
        t /= dt;
        return t + t - t * t - 1.0;
    } else if t > 1.0 - dt {
        t = (t - 1.0) / dt;
        return t * t + t + t + 1.0;
    }
    0.0
}

fn voice(state: OscillatorState, cv: Option<u32>) -> (u32, u32, u32, u64) {
    let pos = f64::from_bits(state.pos);
    let val = f64::from(f(state.val));
    let freq = match cv {
        Some(cv) => 440.0 * 2.0_f64.powf(f64::from(f(cv)) + val),
        None => 440.0 * 2.0_f64.powf(val),
    };
    let delta = freq / (state.sample_rate as f64);
    let sine = (pos * PI * 2.0).sin() as f32;
    let square = if pos < 0.5 { -1.0 } else { 1.0 }
        - if state.antialiasing {
            (poly_blep(pos, delta) - poly_blep((pos + 0.5) % 1.0, delta)) as f32
        } else {
            0.0
        };
    let saw = (pos as f32 * 2.0 - 1.0)
        - if state.antialiasing {
            poly_blep(pos, delta) as f32
        } else {
            0.0
        };
    let next = (pos + delta) % 1.0;
    (b(sine), b(square), b(saw), next.to_bits())
}

#[test]
fn produces_440() {
    let mut module = OscillatorModule::new(&AudioConfig {
        sample_rate: 440 * 4,
        buffer_size: 17,
        channels: 2,
    }); // notice odd sized buffer
    module.calc(&silence(), &silence(), &voice);
    {
        let buf = out(&module, 0);
        assert_eq!(buf[0], 0.0);
        assert!((buf[1] - 1.0).abs() < 0.00001);
        assert!(buf[2].abs() < 0.00001);
        assert!((buf[3] + 1.0).abs() < 0.00001);
        assert!(buf[4].abs() < 0.00001);
    }
    module.calc(&silence(), &silence(), &voice);
    let buf = out(&module, 0);
    assert!((buf[0] - 1.0).abs() < 0.00001); // should continue smoothly into next buffer
}

#[test]
fn a_rising_sync_input_sets_the_phase_back() {
    let mut module = OscillatorModule::new(&AudioConfig {
        sample_rate: 440 * 4,
        buffer_size: 8,
        channels: 2,
    });
    let sync = buffer(&[0.0, 0.0, 0.0, 1.0, 1.0, 0.0, 0.0, 1.0]);
    module.calc(&silence(), &sync, &voice);
    let sine = out(&module, 0);
    for (got, expected) in sine.iter().zip([0.0, 1.0, 0.0, 0.0, 1.0, 0.0, -1.0, 0.0]) {
        assert!((got - expected).abs() < 0.00001, "{:?}", sine);
    }
    assert!(module.state_ref().sync_detector.last);
    assert!((f64::from_bits(module.state_ref().pos) - 0.25).abs() < 1.0e-9);
    // one octave up through the pitch input: twice the pace
    let mut module = OscillatorModule::new(&AudioConfig {
        sample_rate: 440 * 8,
        buffer_size: 4,
        channels: 2,
    });
    module.calc(&buffer(&[1.0; 4]), &silence(), &voice);
    let sine = out(&module, 0);
    assert!((sine[1] - 1.0).abs() < 0.00001);
    // the sawtooth runs from -1 to 1 and the square from -1 to 1 at half way
    module.state_mut().antialiasing = false;
    module.state_mut().pos = 0.0_f64.to_bits();
    module.calc(&silence(), &silence(), &voice);
    assert_eq!(out(&module, 2), vec![-1.0, -0.75, -0.5, -0.25]);
    assert_eq!(out(&module, 1), vec![-1.0; 4]);
    module.calc(&silence(), &silence(), &voice);
    assert_eq!(out(&module, 1), vec![1.0; 4]);
}

fn multiply(a: u32, c: u32) -> u32 {
    b(f(a) * f(c))
}

#[test]
fn an_amplifier_with_an_input_missing_is_silent() {
    let audio = buffer(&[0.5, -0.5, 0.25, 1.0]);
    let cv = buffer(&[1.0, 2.0, 0.5, 0.5]);
    for (left, right) in [(&audio, &silence()), (&silence(), &cv), (&silence(), &silence())] {
        for negative in [false, true] {
            let mut vca = VCAModule::new(&config(4));
            vca.set_negative(negative);
            // what was in the buffer does not stay
            vca.calc(&audio, &cv, &multiply);
            assert_ne!(out(&vca, 0), vec![0.0; 4]);
            vca.calc(left, right, &multiply);
            assert_eq!(out(&vca, 0), vec![0.0; 4]);
        }
    }
}

#[test]
fn an_amplifier_scales_by_the_control_input_above_zero() {
    let audio = buffer(&[0.5, -0.5, 0.25, 1.0, 1.0]);
    let cv = buffer(&[1.0, 2.0, 0.0, -0.5, f32::NAN]);
    let mut vca = VCAModule::new(&config(5));
    vca.calc(&audio, &cv, &multiply);
    assert_eq!(out(&vca, 0), vec![0.5, -1.0, 0.0, 0.0, 0.0]);
    vca.set_negative(true);
    vca.calc(&audio, &cv, &multiply);
    let scaled = out(&vca, 0);
    assert_eq!(&scaled[0..4], &[0.5, -1.0, 0.0, -0.5]);
    assert!(scaled[4].is_nan());
    // an input block that ends early leaves the rest as it was
    vca.calc(&buffer(&[1.0, 1.0]), &buffer(&[3.0, 3.0, 3.0]), &multiply);
    assert_eq!(&out(&vca, 0)[0..4], &[3.0, 3.0, 0.0, -0.5]);
}

fn mix(acc: u32, src: u32, gain: u32) -> u32 {
    b(f(acc) + f(src) * f(gain))
}

#[test]
fn a_mixer_sums_its_inputs_by_their_gains() {
    let mut mixer = MonoMixerModule::new(&config(3));
    mixer.set_gain(0, b(2.0)).unwrap();
    mixer.set_gain(1, b(0.5)).unwrap();
    mixer.set_gain(3, b(0.0)).unwrap();
    assert_eq!(mixer.set_gain(4, b(1.0)), Err(()));
    let inputs = vec![
        buffer(&[1.0, 2.0, 3.0]),
        buffer(&[4.0, 4.0, 4.0]),
        silence(),
        buffer(&[9.0, 9.0, 9.0]),
    ];
    mixer.calc(&inputs, &mix);
    assert_eq!(out(&mixer, 0), vec![4.0, 6.0, 8.0]);
    // nothing connected: silence, whatever was there
    mixer.calc(&vec![silence(), silence(), silence(), silence()], &mix);
    assert_eq!(out(&mixer, 0), vec![0.0; 3]);
    mixer.calc(&vec![], &mix);
    assert_eq!(out(&mixer, 0), vec![0.0; 3]);
    // a block that ends early counts as far as it goes
    mixer.calc(&vec![buffer(&[1.0])], &mix);
    assert_eq!(out(&mixer, 0), vec![2.0, 0.0, 0.0]);
}

fn apply(op: MathOperation, a: u32, c: u32) -> u32 {
    b(match op {
        MathOperation::Add => f(a) + f(c),
        MathOperation::Subtract => f(a) - f(c),
        MathOperation::Multiply => f(a) * f(c),
    })
}

#[test]
fn math_takes_the_constant_for_a_missing_second_input() {
    let one = buffer(&[1.0, 2.0]);
    let two = buffer(&[10.0, 20.0]);
    for (op, both, constant, first_missing, none) in [
        (MathOperation::Add, [11.0, 22.0], [4.0, 5.0], [10.0, 20.0], [3.0, 3.0]),
        (MathOperation::Subtract, [-9.0, -18.0], [-2.0, -1.0], [-10.0, -20.0], [-3.0, -3.0]),
        (MathOperation::Multiply, [10.0, 40.0], [3.0, 6.0], [0.0, 0.0], [0.0, 0.0]),
    ] {
        let mut math = MathModule::new(&config(2), op);
        math.set_constant(b(3.0));
        math.calc(&one, &two, &apply);
        assert_eq!(out(&math, 0), both);
        math.calc(&one, &silence(), &apply);
        assert_eq!(out(&math, 0), constant);
        math.calc(&silence(), &two, &apply);
        assert_eq!(out(&math, 0), first_missing);
        math.calc(&silence(), &silence(), &apply);
        assert_eq!(out(&math, 0), none);
    }
}

#[test]
fn noise_draws_every_sample() {
    let mut noise = NoiseModule::new(&config(100));
    noise.calc(&|| b((rand::random::<f32>() - 0.5) * 2.0));
    let samples = out(&noise, 0);
    assert!(samples.iter().all(|x| (-1.0..=1.0).contains(x)));
    assert!(samples.iter().any(|x| *x != samples[0]));
    let count = Cell::new(0.0_f32);
    noise.calc(&|| {
        count.set(count.get() + 1.0);
        b(count.get())
    });
    assert_eq!(out(&noise, 0), (1..=100).map(|i| i as f32).collect::<Vec<_>>());
}

#[test]
fn the_output_copies_its_inputs() {
    let mut output = OutputModule::new(&config(3));
    let block = |output: &OutputModule, c: u8| -> Vec<f32> {
        output.get_buf(c).unwrap().get().unwrap().iter().map(|x| f(*x)).collect()
    };
    output.calc(&vec![buffer(&[1.0, 2.0, 3.0]), buffer(&[4.0, 5.0, 6.0])]);
    assert_eq!(block(&output, 0), vec![1.0, 2.0, 3.0]);
    assert_eq!(block(&output, 1), vec![4.0, 5.0, 6.0]);
    output.calc(&vec![silence(), buffer(&[7.0])]);
    assert_eq!(block(&output, 0), vec![0.0; 3]);
    assert_eq!(block(&output, 1), vec![7.0, 0.0, 0.0]);
    output.calc(&vec![]);
    assert_eq!(block(&output, 1), vec![0.0; 3]);
    assert_eq!(output.get_num_outputs(), 0);
    assert!(output.get_output(0).is_err());
}

#[test]
fn a_pattern_opens_its_gates_step_by_step() {
    let mut pattern = PatternSequencerModule::new(&config(8));
    pattern.set_steps(3).unwrap();
    // channel 0: held at step 1; channel 7: gated at steps 0 and 1
    pattern.toggle_cell(0, 1).unwrap();
    for col in [0, 1] {
        pattern.toggle_cell(7, col).unwrap();
        pattern.toggle_cell(7, col).unwrap();
    }
    let step = buffer(&[0.0, 0.5, 0.0, 0.5, 0.0, 0.5, 0.5, 0.0]);
    pattern.calc(&step, &silence());
    // steps:                       0    1    1    2    2    0    0    0
    assert_eq!(out(&pattern, 0), vec![0.0, 1.0, 1.0, 0.0, 0.0, 0.0, 0.0, 0.0]);
    assert_eq!(out(&pattern, 7), vec![0.0, 0.5, 0.0, 0.0, 0.0, 0.5, 0.5, 0.0]);
    assert_eq!(out(&pattern, 3), vec![0.0; 8]);
    assert_eq!(out(&pattern, 8), vec![1.0, 0.0, 0.0, 0.0, 0.0, 1.0, 1.0, 1.0]);
    assert_eq!(pattern.step_state_ref().current_step, 0);
    assert!(pattern.ui_dirty());
    // a rising sync input leads back to step 0, also against a step
    let sync = buffer(&[0.0, 0.0, 0.0, 1.0, 0.0, 0.0, 0.0, 0.0]);
    let step = buffer(&[0.0, 1.0, 0.0, 1.0, 0.0, 0.0, 0.0, 0.0]);
    pattern.calc(&step, &sync);
    assert_eq!(out(&pattern, 8), vec![1.0, 0.0, 0.0, 1.0, 1.0, 1.0, 1.0, 1.0]);
    // a step beyond the end of a sequence that was cut leads back to step 0
    let mut cut = PatternSequencerModule::restore(
        1,
        vec![vec![None; 2]; 8],
        StepState {
            current_step: 5,
            transition_detector: TransitionDetector::new(),
            sync_transition_detector: TransitionDetector::new(),
            ui_dirty: false,
        },
        &config(2),
    )
    .unwrap();
    cut.calc(&silence(), &silence());
    assert_eq!(cut.step_state_ref().current_step, 0);
    assert_eq!(out(&cut, 8), vec![1.0, 1.0]);
}

fn advance(phase: u32, sample_rate: u32, secs: u32) -> u32 {
    b(f(phase) + 1.0 / (sample_rate as f32 * f(secs)))
}

fn shape(mode: ADSRMode, r_val: u32, s_val: u32, phase: u32) -> u32 {
    let (r, s, p) = (f(r_val), f(s_val), f(phase));
    b(match mode {
        ADSRMode::Attack => r + (1.0 - r) * p,
        ADSRMode::Decay => s + (1.0 - s) * (1.0 - p),
        ADSRMode::Release => s * (1.0 - p),
        ADSRMode::Sustain => s,
        ADSRMode::Idle => 0.0,
    })
}

fn envelope(sample_rate: u32) -> Envelope {
    // four samples each for attack, decay and release at a rate of 4 Hz
    Envelope {
        a_sec: b(1.0),
        d_sec: b(1.0),
        s_val: b(0.5),
        r_sec: b(1.0),
        phase: b(0.0),
        mode: ADSRMode::Idle,
        r_val: b(0.0),
        from_a_val: b(0.0),
        sample_rate,
        transition_detector: TransitionDetector::new(),
        ui_dirty: false,
    }
}

#[test]
fn an_envelope_runs_through_its_stages() {
    let mut env = envelope(4);
    let gate = [0.0, 1.0, 1.0, 1.0, 1.0, 1.0, 1.0, 1.0, 1.0, 1.0, 1.0, 0.0, 0.0, 0.0, 0.0, 0.0, 0.0];
    let mut levels = vec![];
    let mut modes = vec![];
    for g in gate {
        levels.push(f(env.step(b(g), &advance, &shape)));
        modes.push(env.mode);
    }
    assert_eq!(
        modes,
        vec![
            Idle, Attack, Attack, Attack, Attack, Decay, Decay, Decay, Decay, Sustain, Sustain,
            Release, Release, Release, Release, Idle, Idle
        ]
    );
    assert_eq!(
        levels,
        vec![
            0.0, 0.0, 0.25, 0.5, 0.75, 1.0, 0.875, 0.75, 0.625, 0.5, 0.5, 0.5, 0.375, 0.25,
            0.125, 0.0, 0.0
        ]
    );
    assert!(env.ui_dirty);
    assert_eq!(f(env.r_val), 0.0);
}

#[test]
fn a_rising_gate_starts_the_attack_over() {
    // in the attack: from the level reached
    let mut env = Envelope { mode: Attack, phase: b(0.25), from_a_val: b(0.25), ..envelope(4) };
    env.transition_detector.last = false;
    assert_eq!(f(env.step(b(1.0), &advance, &shape)), 0.25);
    assert_eq!((env.mode, f(env.phase), f(env.r_val)), (Attack, 0.0, 0.25));
    assert_eq!(f(env.step(b(1.0), &advance, &shape)), 0.25 + 0.75 * 0.25);
    // in the decay and in the sustain: from the last level
    for mode in [Decay, Sustain] {
        let mut env = Envelope { mode, phase: b(0.5), r_val: b(0.75), ..envelope(4) };
        env.transition_detector.last = false;
        assert_eq!(f(env.step(b(1.0), &advance, &shape)), 0.75);
        assert_eq!((env.mode, f(env.phase)), (Attack, 0.0));
        assert_eq!(f(env.from_a_val), 0.75);
    }
    // in the release an open gate is enough, and the phase moves on at the
    // pace of the release for this one sample
    let mut env = Envelope { mode: Release, phase: b(0.5), r_val: b(0.25), ..envelope(4) };
    assert_eq!(f(env.step(b(1.0), &advance, &shape)), 0.25 + 0.75 * 0.25);
    assert_eq!((env.mode, f(env.phase)), (Attack, 0.25));
    // a sustain holds while its gate is open
    let mut env = Envelope { mode: Sustain, ..envelope(4) };
    assert_eq!(f(env.step(b(0.5), &advance, &shape)), 0.5);
    assert_eq!(env.mode, Sustain);
    assert_eq!(f(env.step(b(-1.0), &advance, &shape)), 0.5);
    assert_eq!(env.mode, Release);
}

#[test]
fn an_envelope_module_writes_its_levels() {
    let mut module = ADSRModule::restore(9, envelope(4), &AudioConfig {
        sample_rate: 4,
        buffer_size: 6,
        channels: 1,
    });
    module.calc(&buffer(&[0.0, 1.0, 1.0, 1.0, 1.0, 1.0]), &advance, &shape);
    assert_eq!(out(&module, 0), vec![0.0, 0.0, 0.25, 0.5, 0.75, 1.0]);
    assert_eq!(module.envelope_ref().mode, ADSRMode::Decay);
    assert!(module.ui_dirty());
    module.calc(&buffer(&[1.0; 6]), &advance, &shape);
    assert_eq!(out(&module, 0), vec![0.875, 0.75, 0.625, 0.5, 0.5, 0.5]);
    // without a gate the envelope lets go
    module.calc(&silence(), &advance, &shape);
    assert_eq!(out(&module, 0), vec![0.5, 0.375, 0.25, 0.125, 0.0, 0.0]);
    assert_eq!(module.envelope_ref().mode, ADSRMode::Idle);
    // an attack of no time at all is over with its first sample
    let mut quick = ADSRModule::new(&config(3));
    quick.calc(&buffer(&[1.0; 3]), &advance, &shape);
    assert_eq!(quick.envelope_ref().mode, ADSRMode::Decay);
    assert_eq!(out(&quick, 0)[0], 0.0);
    assert_eq!(out(&quick, 0)[1], 1.0);
}

fn ladder(set: MoogFilterSettings, audio: u32, cv: u32) -> (InternalMoogFilterState, u32, u32, u32) {
    let frequency = (f(set.freq) + f(cv) * f(set.exp_amt)).max(0.0).min(0.9);
    let res = f(set.res).max(0.0).min(1.0);
    let mut s = set.state;
    let (mut fc, mut p, mut q) = (f(s.f), f(s.p), f(s.q));
    let mut bb = s.b.map(f);
    if frequency != f(s.freq) || res != f(s.res) {
        s.freq = b(frequency);
        s.res = b(res);
        q = 1.0 - frequency;
        p = frequency + 0.8 * frequency * q;
        fc = p * 2.0 - 1.0;
        q = res * (1.0 + 0.5 * q * (1.0 - q + 5.6 * q * q));
    }
    let input = f(audio) - (q * bb[4]);
    let mut t1 = bb[1];
    bb[1] = (input + bb[0]) * p - bb[1] * fc;
    let t2 = bb[2];
    bb[2] = (bb[1] + t1) * p - bb[2] * fc;
    t1 = bb[3];
    bb[3] = (bb[2] + t2) * p - bb[3] * fc;
    bb[4] = (bb[3] + t1) * p - bb[4] * fc;
    bb[4] = bb[4] - bb[4].powi(3) * 0.166667;
    bb[0] = input;
    for x in bb.iter_mut() {
        *x = x.min(1.0).max(-1.0);
    }
    s.f = b(fc);
    s.p = b(p);
    s.q = b(q);
    s.b = bb.map(b);
    (s, b(bb[4]), b(input - bb[4]), b(3.0 * (bb[3] - bb[4])))
}

#[test]
fn a_filter_stays_within_bounds_on_noise() {
    for (freq, res) in [(0.2, 0.5), (0.0, 0.0), (0.9, 1.0), (0.9, 0.0), (0.05, 1.0), (0.5, 1.0)] {
        let mut filter = MoogFilterModule::new(&config(1000));
        filter.settings_mut().freq = b(freq);
        filter.settings_mut().res = b(res);
        for _ in 0..100 {
            let noise: Vec<f32> = (0..1000).map(|_| (rand::random::<f32>() - 0.5) * 2.0).collect();
            filter.calc(&buffer(&noise), &silence(), &ladder);
            assert!(out(&filter, 0).iter().all(|x| x.abs() <= 2.0));
        }
    }
}

#[test]
fn a_filter_stays_within_bounds_over_a_long_run() {
    // a million samples at the highest cutoff and resonance
    let mut filter = MoogFilterModule::new(&config(1000));
    filter.settings_mut().freq = b(0.9);
    filter.settings_mut().res = b(1.0);
    for _ in 0..1000 {
        let noise: Vec<f32> = (0..1000).map(|_| (rand::random::<f32>() - 0.5) * 2.0).collect();
        filter.calc(&buffer(&noise), &silence(), &ladder);
        assert!(out(&filter, 0).iter().all(|x| x.abs() <= 2.0));
    }
}

#[test]
fn a_filter_lets_low_frequencies_through() {
    let mut filter = MoogFilterModule::new(&config(2000));
    filter.settings_mut().res = b(0.0);
    filter.calc(&buffer(&[0.5; 2000]), &silence(), &ladder);
    let (low, band, high) = (out(&filter, 0), out(&filter, 1), out(&filter, 2));
    // a constant input settles on the low-pass output, a little below its
    // level, and leaves the others
    assert!(low[1999] > 0.45 && low[1999] < 0.5, "{}", low[1999]);
    assert!((low[1999] - low[1998]).abs() < 0.0001);
    assert!(band[1999].abs() < 0.1, "{}", band[1999]);
    assert!(high[1999].abs() < 0.05, "{}", high[1999]);
    assert_eq!(f(filter.settings_ref().state.freq), 0.2);
    // the control input moves the cutoff by the control depth
    filter.calc(&buffer(&[0.5; 2000]), &buffer(&[0.4; 2000]), &ladder);
    assert_eq!(f(filter.settings_ref().state.freq), 0.4);
    filter.calc(&buffer(&[0.5; 2000]), &buffer(&[4.0; 2000]), &ladder);
    assert_eq!(f(filter.settings_ref().state.freq), 0.9);
}

fn place(pos: u32) -> usize {
    f(pos) as usize
}

fn move_on(pos: u32, from: u32, to: u32, cv: u32) -> u32 {
    b(f(pos) + from as f32 / to as f32 * 2.0_f32.powf(f(cv)))
}

#[test]
fn a_sample_is_played_once_for_a_rising_gate() {
    let mut recording = vec![0.0_f32; 100];
    recording[0] = 1.0;
    recording[99] = 0.25;
    let mut player = SampleModule::new(&config(102));
    player.set_wavebox(recording.iter().map(|x| b(*x)).collect(), 48000);
    let mut gate = vec![1.0_f32; 102];
    gate[0] = 0.0;
    player.calc(&buffer(&gate), &silence(), &place, &move_on);
    let heard = out(&player, 0);
    // at rest the player stands at the beginning of the recording
    assert_eq!(heard[0], 1.0);
    // with a rising gate the recording runs from its first to its last sample
    assert_eq!(&heard[1..101], &recording[..]);
    // beyond the end the player stops, back at the beginning
    assert_eq!(heard[101], 1.0);
    assert!(!player.player_ref().playing);
    assert_eq!(f(player.player_ref().pos), 0.0);
    assert!(!player.wavebox_ref().fresh);
}

#[test]
fn the_pitch_input_sets_the_pace_of_a_sample() {
    let recording: Vec<f32> = (0..8).map(|i| i as f32).collect();
    let bits: Vec<u32> = recording.iter().map(|x| b(*x)).collect();
    // one octave up: every other sample
    let mut player = SampleModule::new(&config(5));
    player.set_wavebox(bits.clone(), 48000);
    player.player_mut().transition_detector.last = false;
    player.calc(&buffer(&[1.0; 5]), &buffer(&[1.0; 5]), &place, &move_on);
    assert_eq!(out(&player, 0), vec![0.0, 2.0, 4.0, 6.0, 0.0]);
    // a recording at half the rate of the device: every sample twice
    let mut player = SampleModule::new(&config(5));
    player.set_wavebox(bits.clone(), 24000);
    player.player_mut().transition_detector.last = false;
    player.calc(&buffer(&[1.0; 5]), &silence(), &place, &move_on);
    assert_eq!(out(&player, 0), vec![0.0, 0.0, 1.0, 1.0, 2.0]);
    assert!(player.player_ref().playing);
    // a rising gate starts over
    player.calc(&buffer(&[0.0, 1.0, 1.0, 1.0, 1.0]), &silence(), &place, &move_on);
    assert_eq!(out(&player, 0), vec![2.0, 0.0, 0.0, 1.0, 1.0]);
    // a new recording stops the player
    player.set_wavebox(bits, 48000);
    assert!(player.wavebox_ref().fresh);
    player.calc(&buffer(&[1.0; 5]), &silence(), &place, &move_on);
    assert_eq!(out(&player, 0), vec![0.0; 5]);
    assert!(!player.player_ref().playing);
}

#[test]
fn an_empty_sample_is_silent() {
    let mut player = SampleModule::new(&config(4));
    player.calc(&buffer(&[0.0, 1.0, 1.0, 0.0]), &silence(), &place, &move_on);
    assert_eq!(out(&player, 0), vec![0.0; 4]);
    assert!(!player.player_ref().playing);
    assert_eq!(
        *player.player_ref(),
        PlayerState {
            transition_detector: TransitionDetector { last: false },
            pos: 0,
            playing: false,
            sample_rate: 48000
        }
    );
}

#[test]
fn a_player_that_waits_for_its_sample_is_silent_but_watches() {
    let mut player = SampleModule::new(&config(3));
    player.set_wavebox(vec![b(1.0); 4], 48000);
    player.calc(&buffer(&[0.0; 3]), &silence(), &place, &move_on);
    assert_eq!(out(&player, 0), vec![1.0; 3]);
    player.calc_loading(&buffer(&[0.0, 0.0, 1.0]));
    assert_eq!(out(&player, 0), vec![0.0; 3]);
    assert!(player.player_ref().transition_detector.last);
    assert!(!player.player_ref().playing);
    // the edge was seen while loading, so the next block starts nothing
    player.calc(&buffer(&[1.0; 3]), &silence(), &place, &move_on);
    assert!(!player.player_ref().playing);
    player.calc_loading(&silence());
    assert!(!player.player_ref().transition_detector.last);
}

#[test]
fn a_reverberator_tells_its_processor_what_has_changed() {
    let mut reverb = FreeverbModule::new(&config(2));
    let half = 0.5_f64.to_bits();
    let first = reverb.settings_mut().set_freeverb();
    assert_eq!(
        first,
        FreeverbUpdate {
            rebuild: true,
            sample_rate: 48000,
            dampening: Some(half),
            freeze: Some(false),
            wet: Some(1.0_f64.to_bits()),
            width: Some(half),
            room_size: Some(half),
            dry: Some(0),
        }
    );
    assert!(reverb.settings_ref().primed);
    let none = FreeverbUpdate {
        rebuild: false,
        sample_rate: 48000,
        dampening: None,
        freeze: None,
        wet: None,
        width: None,
        room_size: None,
        dry: None,
    };
    assert_eq!(reverb.settings_mut().set_freeverb(), none);
    reverb.settings_mut().wet_ctl = half;
    reverb.settings_mut().freeze_ctl = true;
    let changed = reverb.settings_mut().set_freeverb();
    assert_eq!(changed, FreeverbUpdate { wet: Some(half), freeze: Some(true), ..none });
    assert_eq!(reverb.settings_ref().wet, half);
    assert!(reverb.settings_ref().freeze);
    assert_eq!(reverb.settings_mut().set_freeverb(), none);
    // the processor is handed what the inputs read, pair by pair
    reverb.calc(&buffer(&[1.0, 2.0]), &silence(), &|l, r| (b(f(l) + f(r)), b(f(l) - 10.0)));
    assert_eq!(out(&reverb, 0), vec![1.0, 2.0]);
    assert_eq!(out(&reverb, 1), vec![-9.0, -8.0]);
}
