use zoscillator::fixed::sqrt_q16;
use zoscillator::oscillator::{waveform_value_q16, OscillatorParams, Waveform};
use zoscillator::synth::{NoteEvent, Zoscillator};
use zoscillator::voice::midi_note_to_freq_q20;

const Q16: i64 = 65536;
const Q48: i128 = 281474976710656;
const FREQ_ONE_HZ: u64 = 1048576;
const PHASE_ONE: u64 = 0x1_0000_0000;

fn bank(waveform: Waveform, gain: i64) -> Vec<OscillatorParams> {
    vec![
        OscillatorParams { gain, waveform, enabled: true },
        OscillatorParams { gain, waveform, enabled: false },
        OscillatorParams { gain, waveform, enabled: false },
    ]
}

#[test]
fn reference_pitch_is_exact() {
    // note 69 is A4: exactly 440 Hz on the Q20 scale
    assert_eq!(midi_note_to_freq_q20(69), 440 * FREQ_ONE_HZ);
}

#[test]
fn octave_raises_double_frequency() {
    for n in 0u8..=115 {
        assert_eq!(midi_note_to_freq_q20(n + 12), 2 * midi_note_to_freq_q20(n));
    }
}

#[test]
fn pitch_table_matches_equal_temperament() {
    for n in 0u8..=127 {
        let expected = 440.0 * 2f64.powf((n as f64 - 69.0) / 12.0);
        let got = midi_note_to_freq_q20(n) as f64 / FREQ_ONE_HZ as f64;
        let rel = (got - expected).abs() / expected;
        assert!(rel < 1e-6, "note {}: got {} expected {}", n, got, expected);
    }
}

#[test]
fn waveform_boundary_values_at_phase_zero() {
    assert_eq!(waveform_value_q16(Waveform::Sine, 0), 0);
    assert_eq!(waveform_value_q16(Waveform::Saw, 0), Q16);
    assert_eq!(waveform_value_q16(Waveform::Square, 0), Q16);
    assert_eq!(waveform_value_q16(Waveform::Triangle, 0), 0);
}

#[test]
fn waveform_values_along_the_cycle() {
    let quarter: u64 = 0x4000_0000;
    let half: u64 = 0x8000_0000;
    let three_quarters: u64 = 0xC000_0000;
    // the rational sine rendition peaks at exactly one
    assert_eq!(waveform_value_q16(Waveform::Sine, quarter), Q16);
    assert_eq!(waveform_value_q16(Waveform::Sine, three_quarters), -Q16);
    assert_eq!(waveform_value_q16(Waveform::Sine, 0x2000_0000), 46260);
    // the saw ramps down through zero at the half cycle
    assert_eq!(waveform_value_q16(Waveform::Saw, quarter), 32768);
    assert_eq!(waveform_value_q16(Waveform::Saw, half), 0);
    // the square flips at the half cycle
    assert_eq!(waveform_value_q16(Waveform::Square, half - 1), Q16);
    assert_eq!(waveform_value_q16(Waveform::Square, half), -Q16);
    // the triangle rendition at the quarter cycle: arcsine of 2/pi
    assert_eq!(waveform_value_q16(Waveform::Triangle, quarter), 45301);
    assert_eq!(waveform_value_q16(Waveform::Triangle, half), 0);
}

#[test]
fn velocity_curve_endpoints() {
    assert_eq!(sqrt_q16(0), 0);
    assert_eq!(sqrt_q16(16384), 32768);
    assert_eq!(sqrt_q16(Q16), Q16);
}

#[test]
fn silence_outputs_exactly_zero() {
    let mut z = Zoscillator::new();
    z.initialize(44100);
    z.oscillators = bank(Waveform::Saw, Q16);
    for _ in 0..64 {
        assert_eq!(z.calculate_amplitude(), 0);
    }
}

#[test]
fn single_sine_voice_first_sample() {
    let mut z = Zoscillator::new();
    z.initialize(44100);
    z.oscillators = bank(Waveform::Sine, Q16);
    z.note_on(69, Q16);
    let amp = z.calculate_amplitude();
    // the first sample reads phase zero: the sine starts at zero
    assert_eq!(amp, 0);
    // afterwards the phase moved by 440 / 44100 of a cycle, rounded down
    // on the 1/2^32 scale
    assert_eq!(z.voices[0].phase, 42852281);
}

#[test]
fn square_with_quarter_velocity_gives_half() {
    let mut z = Zoscillator::new();
    z.initialize(44100);
    z.oscillators = bank(Waveform::Square, Q16);
    z.note_on(60, 16384);
    // velocity sqrt(1/4) = 1/2; square at phase zero is one; gain one
    assert_eq!(z.calculate_amplitude(), Q48 / 2);
}

#[test]
fn three_voices_sum_unclamped() {
    let mut z = Zoscillator::new();
    z.initialize(44100);
    z.oscillators = bank(Waveform::Square, Q16);
    z.note_on(60, 16384);
    z.note_on(64, 16384);
    z.note_on(67, 16384);
    // three voices of one half each: three halves, with no clipping
    assert_eq!(z.calculate_amplitude(), 3 * (Q48 / 2));
}

#[test]
fn disabled_slots_contribute_nothing() {
    let mut z = Zoscillator::new();
    z.initialize(44100);
    z.oscillators = vec![
        OscillatorParams { gain: Q16, waveform: Waveform::Square, enabled: true },
        OscillatorParams { gain: Q16, waveform: Waveform::Saw, enabled: false },
        OscillatorParams { gain: Q16, waveform: Waveform::Triangle, enabled: false },
    ];
    z.note_on(60, Q16);
    assert_eq!(z.calculate_amplitude(), Q48);
}

#[test]
fn enabled_slots_sum_their_gains() {
    let mut z = Zoscillator::new();
    z.initialize(44100);
    // square and saw both read one at phase zero
    z.oscillators = vec![
        OscillatorParams { gain: Q16, waveform: Waveform::Square, enabled: true },
        OscillatorParams { gain: Q16 / 2, waveform: Waveform::Saw, enabled: true },
        OscillatorParams { gain: Q16, waveform: Waveform::Sine, enabled: false },
    ];
    z.note_on(60, Q16);
    assert_eq!(z.calculate_amplitude(), Q48 + Q48 / 2);
}

#[test]
fn phase_stays_inside_one_cycle() {
    let mut z = Zoscillator::new();
    // the lowest accepted rate with the highest and lowest notes
    z.initialize(12544);
    z.oscillators = bank(Waveform::Triangle, Q16);
    z.note_on(127, Q16);
    z.note_on(0, Q16);
    for _ in 0..2000 {
        z.calculate_amplitude();
        for v in &z.voices {
            assert!(v.phase < PHASE_ONE);
        }
    }
}

#[test]
fn process_block_applies_events_sample_accurately() {
    let mut z = Zoscillator::new();
    z.initialize(44100);
    z.oscillators = bank(Waveform::Square, Q16);
    let events = vec![
        NoteEvent::NoteOn { timing: 3, note: 60, velocity: Q16 },
        NoteEvent::NoteOff { timing: 6, note: 60 },
    ];
    let out = z.process_block(&events, 8);
    assert_eq!(out.len(), 8);
    // silence before the note-on's sample, full square while it sounds,
    // silence again from the note-off's sample
    assert_eq!(&out[0..3], &[0, 0, 0]);
    assert_eq!(&out[3..6], &[Q48, Q48, Q48]);
    assert_eq!(&out[6..8], &[0, 0]);
    assert_eq!(z.voices.len(), 0);
}

#[test]
fn process_block_ignores_future_events() {
    let mut z = Zoscillator::new();
    z.initialize(44100);
    z.oscillators = bank(Waveform::Square, Q16);
    let events = vec![NoteEvent::NoteOn { timing: 100, note: 60, velocity: Q16 }];
    let out = z.process_block(&events, 4);
    assert_eq!(out, vec![0, 0, 0, 0]);
    assert_eq!(z.voices.len(), 0);
}

#[test]
fn process_block_with_no_events_keeps_sounding() {
    let mut z = Zoscillator::new();
    z.initialize(44100);
    z.oscillators = bank(Waveform::Square, Q16);
    z.note_on(60, Q16);
    let events: Vec<NoteEvent> = Vec::new();
    let out = z.process_block(&events, 3);
    assert_eq!(out, vec![Q48, Q48, Q48]);
    assert_eq!(z.voices.len(), 1);
}
