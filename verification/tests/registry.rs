use zoscillator::oscillator::{OscillatorParams, Waveform, GAIN_MINUS_6_DB};
use zoscillator::synth::{NoteEvent, Zoscillator};

const Q16: i64 = 65536;

#[test]
fn note_on_appends_fresh_voice() {
    let mut z = Zoscillator::new();
    z.note_on(60, Q16);
    assert_eq!(z.voices.len(), 1);
    assert_eq!(z.voices[0].note, 60);
    assert_eq!(z.voices[0].velocity, Q16);
    assert_eq!(z.voices[0].phase, 0);
    z.note_on(72, Q16);
    assert_eq!(z.voices.len(), 2);
    assert_eq!(z.voices[1].note, 72);
}

#[test]
fn velocity_square_root_curve() {
    let mut z = Zoscillator::new();
    // one quarter -> one half, exactly, on the Q16 scale
    z.note_on(60, 16384);
    assert_eq!(z.voices[0].velocity, 32768);
    z.note_on(61, 0);
    assert_eq!(z.voices[1].velocity, 0);
    z.note_on(62, Q16);
    assert_eq!(z.voices[2].velocity, Q16);
}

#[test]
fn note_off_without_match_is_noop() {
    let mut z = Zoscillator::new();
    z.note_on(60, Q16);
    z.note_on(64, 16384);
    let before: Vec<(u8, i64, u64)> =
        z.voices.iter().map(|v| (v.note, v.velocity, v.phase)).collect();
    z.note_off(61);
    let after: Vec<(u8, i64, u64)> =
        z.voices.iter().map(|v| (v.note, v.velocity, v.phase)).collect();
    assert_eq!(before, after);
    let mut empty = Zoscillator::new();
    empty.note_off(60);
    assert_eq!(empty.voices.len(), 0);
}

#[test]
fn note_off_removes_first_matching_voice() {
    let mut z = Zoscillator::new();
    z.note_on(60, Q16);
    z.note_on(62, Q16);
    z.note_on(60, 16384);
    z.note_off(60);
    assert_eq!(z.voices.len(), 2);
    assert_eq!(z.voices[0].note, 62);
    // the later voice at the same pitch survives, with its own velocity
    assert_eq!(z.voices[1].note, 60);
    assert_eq!(z.voices[1].velocity, 32768);
}

#[test]
fn duplicate_notes_two_voices_removed_one_at_a_time() {
    let mut z = Zoscillator::new();
    z.note_on(69, Q16);
    z.note_on(69, 16384);
    assert_eq!(z.voices.len(), 2);
    z.note_off(69);
    assert_eq!(z.voices.len(), 1);
    assert_eq!(z.voices[0].velocity, 32768);
    z.note_off(69);
    assert_eq!(z.voices.len(), 0);
}

#[test]
fn reset_clears_all_voices() {
    let mut z = Zoscillator::new();
    z.note_on(60, Q16);
    z.note_on(64, Q16);
    z.note_on(67, Q16);
    z.reset();
    assert_eq!(z.voices.len(), 0);
}

#[test]
fn other_events_are_ignored() {
    let mut z = Zoscillator::new();
    z.note_on(60, Q16);
    z.handle_note_event(NoteEvent::Other { timing: 0 });
    assert_eq!(z.voices.len(), 1);
    assert_eq!(z.voices[0].note, 60);
}

#[test]
fn handle_note_event_dispatches() {
    let mut z = Zoscillator::new();
    z.handle_note_event(NoteEvent::NoteOn { timing: 0, note: 72, velocity: Q16 });
    assert_eq!(z.voices.len(), 1);
    z.handle_note_event(NoteEvent::NoteOff { timing: 0, note: 72 });
    assert_eq!(z.voices.len(), 0);
}

#[test]
fn default_bank_first_slot_enabled() {
    let z = Zoscillator::new();
    assert_eq!(z.oscillators.len(), 3);
    assert!(z.oscillators[0].enabled);
    assert!(!z.oscillators[1].enabled);
    assert!(!z.oscillators[2].enabled);
    for slot in &z.oscillators {
        assert_eq!(slot.gain, GAIN_MINUS_6_DB);
        assert_eq!(slot.waveform, Waveform::Sine);
    }
    assert_eq!(z.sample_rate, 1);
    assert_eq!(z.voices.len(), 0);
    let d = Zoscillator::default();
    assert_eq!(d.oscillators.len(), 3);
    assert!(d.oscillators[0].enabled);
}

#[test]
fn fresh_slot_is_disabled_sine() {
    let slot = OscillatorParams::default();
    assert!(!slot.enabled);
    assert_eq!(slot.waveform, Waveform::Sine);
    assert_eq!(slot.gain, GAIN_MINUS_6_DB);
}

#[test]
fn accepts_only_instrument_bus_layouts() {
    let z = Zoscillator::new();
    assert!(z.accepts_bus_config(0, 2));
    assert!(z.accepts_bus_config(0, 1));
    assert!(!z.accepts_bus_config(1, 2));
    assert!(!z.accepts_bus_config(0, 0));
}

#[test]
fn initialize_adopts_sample_rate() {
    let mut z = Zoscillator::new();
    z.note_on(60, Q16);
    z.initialize(48000);
    assert_eq!(z.sample_rate, 48000);
    assert_eq!(z.voices.len(), 1);
}

#[test]
fn event_timing_is_reported() {
    assert_eq!(NoteEvent::NoteOn { timing: 7, note: 60, velocity: Q16 }.timing(), 7);
    assert_eq!(NoteEvent::NoteOff { timing: 9, note: 60 }.timing(), 9);
    assert_eq!(NoteEvent::Other { timing: 11 }.timing(), 11);
}
