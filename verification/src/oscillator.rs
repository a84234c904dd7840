//! The oscillator bank and the per-voice amplitude engine.
//!
//! A bank is a fixed set of three oscillator slots (waveform, gain,
//! enabled flag) shared by every voice. For one voice and one sample the
//! engine reads the voice's phase, advances it by the voice's frequency
//! over the sample rate (wrapping at one cycle), and sums each enabled
//! slot's unit waveform value times its gain, scaled by the voice's
//! velocity.
//!
//! Unit waveform values are Q16 integers. The curved waveforms are exact
//! rational renditions on that scale: the sine is the rational
//! approximation 16a / (5 - 4a) with a = t(1 - t) on each half cycle
//! (signs alternating), and the triangle is the arcsine of the sine value
//! scaled by 2/pi, with the arcsine inverted from the same rational form
//! by an integer square root. The saw and square formulas are exact.

use vstd::prelude::*;

verus! {

use crate::fixed::Q16;
use crate::fixed::PHASE_ONE;
use crate::fixed::PHASE_HALF;
use crate::fixed::isqrt_spec;
use crate::fixed::isqrt64;
use crate::fixed::lemma_isqrt_bounds;
use crate::fixed::lemma_isqrt_le;
use crate::fixed::lemma_div_at_most;
use crate::fixed::lemma_div_below;
use crate::voice::Voice;
use crate::voice::MIN_SAMPLE_RATE;
use crate::voice::freq_q20_spec;
use crate::voice::lemma_freq_below_min_rate;
use vstd::arithmetic::div_mod::lemma_div_pos_is_pos;

/// The waveform shapes an oscillator slot can produce.
#[derive(Clone, Copy, PartialEq, Eq, Structural, Debug)]
pub enum Waveform {
    Sine,
    Saw,
    Square,
    Triangle,
}

/// Default slot gain: minus six decibels as a Q16 linear factor.
pub const GAIN_MINUS_6_DB: i64 = 32846;

/// Number of oscillator slots in the bank.
pub const BANK_SIZE: usize = 3;

/// Every unit waveform value lies strictly inside this Q16 bound.
pub const UNIT_BOUND: i64 = 131072;

/// A slot's contribution for one phase never exceeds this Q32 bound.
pub const SLOT_AMP_BOUND: i64 = 8589934592;

/// A voice's contribution for one sample never exceeds this Q48 bound.
pub const VOICE_AMP_BOUND: i64 = 1688849860263936;

/// One oscillator slot: a waveform, a linear gain on the Q16 scale, and
/// an enabled flag. Gains are configured on a decibel range whose top is
/// zero decibels, so a well-formed gain stands for a value in [0, 1].
#[derive(Clone, Copy, PartialEq, Eq, Structural, Debug)]
pub struct OscillatorParams {
    pub gain: i64,
    pub waveform: Waveform,
    pub enabled: bool,
}

impl OscillatorParams {
    /// A slot is well formed when its gain stands for a factor in [0, 1].
    pub open spec fn wf(self) -> bool {
        0 <= self.gain <= Q16
    }
}

impl Default for OscillatorParams {
    /// A fresh slot is a disabled sine at minus six decibels.
    fn default() -> (s: Self)
        ensures
            s == (OscillatorParams {
                gain: GAIN_MINUS_6_DB,
                waveform: Waveform::Sine,
                enabled: false,
            }),
            s.wf(),
    {
        OscillatorParams { gain: GAIN_MINUS_6_DB, waveform: Waveform::Sine, enabled: false }
    }
}

/// A well-formed bank holds exactly BANK_SIZE well-formed slots.
pub open spec fn bank_wf(slots: Seq<OscillatorParams>) -> bool {
    &&& slots.len() == BANK_SIZE
    &&& forall|i: int| 0 <= i < slots.len() ==> #[trigger] slots[i].wf()
}

/// Sine over the first half cycle, as a Q16 value: for t counting
/// 1/2^32 fractions of the half cycle, this is the rational form
/// 16a / (5 - 4a) with a = t(1 - t), carried out in integers.
pub open spec fn sine_half_q16_spec(t: int) -> int
    recommends
        0 <= t <= 0x1_0000_0000,
{
    let a = t * (0x1_0000_0000 - t) / 0x1_0000_0000;
    16 * a * 65536 / (5 * 0x1_0000_0000 - 4 * a)
}

/// The half-cycle sine stays within [0, 1] on the Q16 scale.
pub proof fn lemma_sine_half_range(t: int)
    requires
        0 <= t <= 0x1_0000_0000,
    ensures
        0 <= sine_half_q16_spec(t) <= 65536,
{
    assert(0 <= t * (0x1_0000_0000 - t) <= 0x4000_0000_0000_0000) by (nonlinear_arith)
        requires
            0 <= t <= 0x1_0000_0000,
    ;
    let p = t * (0x1_0000_0000 - t);
    lemma_div_pos_is_pos(p, 0x1_0000_0000);
    lemma_div_at_most(p, 0x1_0000_0000, 0x4000_0000);
    let a = p / 0x1_0000_0000;
    let num = 16 * a * 65536;
    let den = 5 * 0x1_0000_0000 - 4 * a;
    lemma_div_pos_is_pos(num, den);
    lemma_div_at_most(num, den, 65536);
}

/// Full-cycle sine as a signed Q16 value: the first half cycle positive,
/// the second half the mirrored negative.
pub open spec fn sine_q16_spec(phase: int) -> int
    recommends
        0 <= phase < 0x1_0000_0000,
{
    if phase < 0x8000_0000 {
        sine_half_q16_spec(2 * phase)
    } else {
        -sine_half_q16_spec(2 * phase - 0x1_0000_0000)
    }
}

/// Arcsine of a Q16 value in [0, 1], in radians on the Q16 scale,
/// inverted from the same rational sine form: a = 5z / (16 + 4z),
/// t = (1 - sqrt(1 - 4a)) / 2, result pi * t.
pub open spec fn asin_q16_spec(z: int) -> int
    recommends
        0 <= z <= 65536,
{
    let a = 5 * z * 65536 / (16 * 65536 + 4 * z);
    let u = 65536 - 4 * a;
    let s = isqrt_spec(u * 65536);
    let t = (65536 - s) / 2;
    205887 * t / 65536
}

/// The Q16 arcsine of a value in [0, 1] lies in [0, pi/2].
pub proof fn lemma_asin_range(z: int)
    requires
        0 <= z <= 65536,
    ensures
        0 <= asin_q16_spec(z) <= 102943,
{
    let a = 5 * z * 65536 / (16 * 65536 + 4 * z);
    lemma_div_pos_is_pos(5 * z * 65536, 16 * 65536 + 4 * z);
    lemma_div_at_most(5 * z * 65536, 16 * 65536 + 4 * z, 16384);
    let u = 65536 - 4 * a;
    lemma_isqrt_bounds(u * 65536);
    lemma_isqrt_le(u * 65536, 65536);
    let s = isqrt_spec(u * 65536);
    let t = (65536 - s) / 2;
    lemma_div_pos_is_pos(65536 - s, 2);
    lemma_div_at_most(65536 - s, 2, 32768);
    lemma_div_pos_is_pos(205887 * t, 65536);
    lemma_div_below(205887 * t, 65536, 102944);
}

/// Triangle wave: the arcsine of the sine value scaled by 2/pi, as a
/// signed Q16 value, with the sign following the sine's half cycle.
pub open spec fn triangle_q16_spec(phase: int) -> int
    recommends
        0 <= phase < 0x1_0000_0000,
{
    if phase < 0x8000_0000 {
        asin_q16_spec(sine_half_q16_spec(2 * phase) * 41722 / 65536)
    } else {
        -asin_q16_spec(sine_half_q16_spec(2 * phase - 0x1_0000_0000) * 41722 / 65536)
    }
}

/// Unit waveform value of one shape at one phase, on the Q16 scale:
/// - Sine: the rational sine rendition;
/// - Saw: a descending ramp from one at phase zero towards minus one;
/// - Square: one on the first half cycle, minus one on the second;
/// - Triangle: the arcsine-of-sine rendition.
pub open spec fn wave_unit_spec(w: Waveform, phase: int) -> int
    recommends
        0 <= phase < 0x1_0000_0000,
{
    match w {
        Waveform::Sine => sine_q16_spec(phase),
        Waveform::Saw => 65536 - phase / 32768,
        Waveform::Square => if phase < 0x8000_0000 {
            65536
        } else {
            -65536
        },
        Waveform::Triangle => triangle_q16_spec(phase),
    }
}

/// The scaled sine argument handed to the arcsine stays in [0, 1].
proof fn lemma_triangle_arg_range(t: int)
    requires
        0 <= t <= 0x1_0000_0000,
    ensures
        0 <= sine_half_q16_spec(t) * 41722 / 65536 <= 41722,
{
    lemma_sine_half_range(t);
    lemma_div_pos_is_pos(sine_half_q16_spec(t) * 41722, 65536);
    lemma_div_at_most(sine_half_q16_spec(t) * 41722, 65536, 41722);
}

/// Every unit waveform value lies strictly inside the unit bound.
pub proof fn lemma_wave_unit_bound(w: Waveform, phase: int)
    requires
        0 <= phase < 0x1_0000_0000,
    ensures
        -UNIT_BOUND < wave_unit_spec(w, phase) < UNIT_BOUND,
{
    match w {
        Waveform::Sine => {
            if phase < 0x8000_0000 {
                lemma_sine_half_range(2 * phase);
            } else {
                lemma_sine_half_range(2 * phase - 0x1_0000_0000);
            }
        },
        Waveform::Saw => {
            lemma_div_pos_is_pos(phase, 32768);
            lemma_div_below(phase, 32768, 131072);
        },
        Waveform::Square => {},
        Waveform::Triangle => {
            if phase < 0x8000_0000 {
                lemma_triangle_arg_range(2 * phase);
                lemma_asin_range(sine_half_q16_spec(2 * phase) * 41722 / 65536);
            } else {
                lemma_triangle_arg_range(2 * phase - 0x1_0000_0000);
                lemma_asin_range(sine_half_q16_spec(2 * phase - 0x1_0000_0000) * 41722 / 65536);
            }
        },
    }
}

/// Executable half-cycle sine, mirroring `sine_half_q16_spec`.
fn sine_half_q16(t: u64) -> (r: u64)
    requires
        t <= 0x1_0000_0000,
    ensures
        r == sine_half_q16_spec(t as int),
        r <= 65536,
{
    proof {
        assert(0 <= (t as int) * (0x1_0000_0000 - t as int) <= 0x4000_0000_0000_0000)
            by (nonlinear_arith)
            requires
                0 <= t as int <= 0x1_0000_0000,
        ;
        lemma_sine_half_range(t as int);
    }
    let p: u64 = t * (0x1_0000_0000 - t);
    let a: u64 = p / 0x1_0000_0000;
    proof {
        lemma_div_at_most(p as int, 0x1_0000_0000, 0x4000_0000);
    }
    let num: u64 = 16 * a * 65536;
    let den: u64 = 5 * 0x1_0000_0000 - 4 * a;
    proof {
        lemma_div_at_most(num as int, den as int, 65536);
    }
    num / den
}

/// Executable Q16 arcsine, mirroring `asin_q16_spec`.
fn asin_q16(z: u64) -> (r: u64)
    requires
        z <= 65536,
    ensures
        r == asin_q16_spec(z as int),
        r <= 102943,
{
    proof {
        lemma_asin_range(z as int);
    }
    let a: u64 = (5 * z * 65536) / (16 * 65536 + 4 * z);
    proof {
        lemma_div_at_most(5 * (z as int) * 65536, 16 * 65536 + 4 * (z as int), 16384);
    }
    let u: u64 = 65536 - 4 * a;
    let s: u64 = isqrt64(u * 65536);
    proof {
        lemma_isqrt_le((u as int) * 65536, 65536);
    }
    let t: u64 = (65536 - s) / 2;
    proof {
        lemma_div_at_most(65536 - s as int, 2, 32768);
        lemma_div_below(205887 * (t as int), 65536, 102944);
    }
    (205887 * t) / 65536
}

/// Executable unit waveform value, mirroring `wave_unit_spec`.
pub fn waveform_value_q16(w: Waveform, phase: u64) -> (r: i64)
    requires
        phase < PHASE_ONE,
    ensures
        r == wave_unit_spec(w, phase as int),
        -UNIT_BOUND < r < UNIT_BOUND,
{
    proof {
        lemma_wave_unit_bound(w, phase as int);
    }
    match w {
        Waveform::Sine => {
            if phase < PHASE_HALF {
                sine_half_q16(2 * phase) as i64
            } else {
                -(sine_half_q16(2 * phase - PHASE_ONE) as i64)
            }
        },
        Waveform::Saw => 65536 - (phase / 32768) as i64,
        Waveform::Square => {
            if phase < PHASE_HALF {
                65536
            } else {
                -65536
            }
        },
        Waveform::Triangle => {
            if phase < PHASE_HALF {
                let m: u64 = sine_half_q16(2 * phase);
                asin_q16(m * 41722 / 65536) as i64
            } else {
                let m: u64 = sine_half_q16(2 * phase - PHASE_ONE);
                -(asin_q16(m * 41722 / 65536) as i64)
            }
        },
    }
}

/// One slot's Q32 contribution at one phase: its unit waveform value
/// times its gain when enabled, zero otherwise.
pub open spec fn slot_amp_spec(slot: OscillatorParams, phase: int) -> int {
    if slot.enabled {
        wave_unit_spec(slot.waveform, phase) * slot.gain
    } else {
        0
    }
}

/// The bank's Q32 contribution at one phase: the sum over its slots.
pub open spec fn bank_amp_spec(slots: Seq<OscillatorParams>, phase: int) -> int
    decreases slots.len(),
{
    if slots.len() == 0 {
        0
    } else {
        bank_amp_spec(slots.drop_last(), phase) + slot_amp_spec(slots.last(), phase)
    }
}

/// A voice's Q48 amplitude contribution for one sample: the bank's sum
/// at the voice's current phase, scaled by the voice's velocity.
pub open spec fn voice_amp_spec(slots: Seq<OscillatorParams>, v: Voice) -> int {
    bank_amp_spec(slots, v.phase as int) * v.velocity
}

/// One slot contributes at most the slot bound in magnitude.
pub proof fn lemma_slot_amp_bound(slot: OscillatorParams, phase: int)
    requires
        slot.wf(),
        0 <= phase < 0x1_0000_0000,
    ensures
        -SLOT_AMP_BOUND <= slot_amp_spec(slot, phase) <= SLOT_AMP_BOUND,
{
    if slot.enabled {
        lemma_wave_unit_bound(slot.waveform, phase);
        assert(-SLOT_AMP_BOUND <= wave_unit_spec(slot.waveform, phase) * slot.gain
            <= SLOT_AMP_BOUND) by (nonlinear_arith)
            requires
                -131072 <= wave_unit_spec(slot.waveform, phase) <= 131072,
                0 <= slot.gain <= 65536,
        ;
    }
}

/// The bank's sum is bounded by the slot bound times the slot count.
pub proof fn lemma_bank_amp_bound(slots: Seq<OscillatorParams>, phase: int)
    requires
        forall|i: int| 0 <= i < slots.len() ==> #[trigger] slots[i].wf(),
        0 <= phase < 0x1_0000_0000,
    ensures
        -SLOT_AMP_BOUND * slots.len() <= bank_amp_spec(slots, phase)
            <= SLOT_AMP_BOUND * slots.len(),
    decreases slots.len(),
{
    if slots.len() > 0 {
        lemma_bank_amp_bound(slots.drop_last(), phase);
        lemma_slot_amp_bound(slots.last(), phase);
    }
}

/// A well-formed voice's contribution stays within the voice bound.
pub proof fn lemma_voice_amp_bound(slots: Seq<OscillatorParams>, v: Voice)
    requires
        bank_wf(slots),
        v.wf(),
    ensures
        -VOICE_AMP_BOUND <= voice_amp_spec(slots, v) <= VOICE_AMP_BOUND,
{
    lemma_bank_amp_bound(slots, v.phase as int);
    assert(-VOICE_AMP_BOUND <= bank_amp_spec(slots, v.phase as int) * v.velocity
        <= VOICE_AMP_BOUND) by (nonlinear_arith)
        requires
            -3 * 8589934592 <= bank_amp_spec(slots, v.phase as int) <= 3 * 8589934592,
            0 <= v.velocity <= 65536,
    ;
}

/// How far the phase moves in one sample: the voice's frequency as a
/// fraction of the sample rate, on the phase scale.
pub open spec fn phase_step_spec(note: int, rate: int) -> int
    recommends
        0 <= note <= 127,
        rate >= MIN_SAMPLE_RATE,
{
    freq_q20_spec(note) * 4096 / rate
}

/// Advancing wraps the phase at one cycle by a single subtraction.
pub open spec fn advance_spec(phase: int, step: int) -> int {
    if phase + step >= 0x1_0000_0000 {
        phase + step - 0x1_0000_0000
    } else {
        phase + step
    }
}

/// The voice after one sample: same note and velocity, phase advanced.
pub open spec fn advanced_voice_spec(v: Voice, rate: int) -> Voice {
    Voice {
        phase: advance_spec(v.phase as int, phase_step_spec(v.note as int, rate)) as u64,
        ..v
    }
}

/// At any accepted sample rate the phase step stays strictly below one
/// cycle per sample.
pub proof fn lemma_step_below_one_cycle(note: int, rate: int)
    requires
        0 <= note <= 127,
        rate >= MIN_SAMPLE_RATE,
    ensures
        0 <= phase_step_spec(note, rate) < 0x1_0000_0000,
{
    lemma_freq_below_min_rate(note);
    let f = freq_q20_spec(note);
    assert(f * 4096 < rate * 0x1_0000_0000) by (nonlinear_arith)
        requires
            0 < f < rate * 0x10_0000,
            rate >= 12544,
    ;
    lemma_div_pos_is_pos(f * 4096, rate);
    lemma_div_below(f * 4096, rate, 0x1_0000_0000);
}

/// A phase inside one cycle stays inside one cycle after any advance by
/// less than one cycle.
pub proof fn lemma_advance_in_range(phase: int, step: int)
    requires
        0 <= phase < 0x1_0000_0000,
        0 <= step < 0x1_0000_0000,
    ensures
        0 <= advance_spec(phase, step) < 0x1_0000_0000,
{
}

/// An advanced well-formed voice is still well formed: the phase stays
/// inside one cycle however many samples pass.
pub proof fn lemma_advanced_voice_wf(v: Voice, rate: int)
    requires
        v.wf(),
        rate >= MIN_SAMPLE_RATE,
    ensures
        advanced_voice_spec(v, rate).wf(),
        advanced_voice_spec(v, rate).note == v.note,
        advanced_voice_spec(v, rate).velocity == v.velocity,
{
    lemma_step_below_one_cycle(v.note as int, rate);
    lemma_advance_in_range(v.phase as int, phase_step_spec(v.note as int, rate));
}

/// The voice after any number of samples.
pub open spec fn advanced_times_spec(v: Voice, rate: int, k: nat) -> Voice
    decreases k,
{
    if k == 0 {
        v
    } else {
        advanced_voice_spec(advanced_times_spec(v, rate, (k - 1) as nat), rate)
    }
}

/// The phase invariant: however many sample advances a well-formed
/// voice goes through at an accepted rate, its phase always stays
/// inside one cycle, and its note and velocity never change.
pub proof fn lemma_phase_invariant(v: Voice, rate: int, k: nat)
    requires
        v.wf(),
        rate >= MIN_SAMPLE_RATE,
    ensures
        advanced_times_spec(v, rate, k).wf(),
        0 <= advanced_times_spec(v, rate, k).phase < PHASE_ONE,
        advanced_times_spec(v, rate, k).note == v.note,
        advanced_times_spec(v, rate, k).velocity == v.velocity,
    decreases k,
{
    if k > 0 {
        lemma_phase_invariant(v, rate, (k - 1) as nat);
        lemma_advanced_voice_wf(advanced_times_spec(v, rate, (k - 1) as nat), rate);
    }
}

/// Computes one voice's amplitude contribution for the current sample
/// and advances the voice's phase by one sample.
///
/// The amplitude is evaluated at the phase the voice had on entry, as a
/// Q48 value: unit waveform (Q16) times gain (Q16), summed over the
/// enabled slots, times velocity (Q16).
pub fn calculate_amplitude(
    oscillator_params: &Vec<OscillatorParams>,
    voice: &mut Voice,
    sample_rate: u32,
) -> (amp: i64)
    requires
        old(voice).wf(),
        sample_rate >= MIN_SAMPLE_RATE,
        bank_wf(oscillator_params@),
    ensures
        amp == voice_amp_spec(oscillator_params@, *old(voice)),
        -VOICE_AMP_BOUND <= amp <= VOICE_AMP_BOUND,
        *final(voice) == advanced_voice_spec(*old(voice), sample_rate as int),
        final(voice).wf(),
{
    let phase: u64 = voice.phase;
    let freq: u64 = voice.get_frequency();
    proof {
        lemma_freq_below_min_rate(voice.note as int);
        assert(freq * 4096 <= 12544 * 0x10_0000 * 4096) by (nonlinear_arith)
            requires
                0 <= freq as int <= 12544 * 0x10_0000,
        ;
        lemma_step_below_one_cycle(voice.note as int, sample_rate as int);
    }
    let step: u64 = (freq * 4096) / (sample_rate as u64);
    let next: u64 = phase + step;
    if next >= PHASE_ONE {
        voice.phase = next - PHASE_ONE;
    } else {
        voice.phase = next;
    }
    proof {
        lemma_advanced_voice_wf(*old(voice), sample_rate as int);
    }
    let mut sum: i64 = 0;
    let mut i: usize = 0;
    while i < oscillator_params.len()
        invariant
            i <= oscillator_params@.len(),
            bank_wf(oscillator_params@),
            phase < PHASE_ONE,
            sum == bank_amp_spec(oscillator_params@.take(i as int), phase as int),
            -8589934592 * (i as int) <= sum <= 8589934592 * (i as int),
        decreases oscillator_params@.len() - i,
    {
        let slot = oscillator_params[i];
        proof {
            assert(oscillator_params@[i as int].wf());
            lemma_slot_amp_bound(slot, phase as int);
            assert(oscillator_params@.take(i as int + 1).drop_last()
                =~= oscillator_params@.take(i as int));
            assert(oscillator_params@.take(i as int + 1).last() == slot);
        }
        if slot.enabled {
            let unit: i64 = waveform_value_q16(slot.waveform, phase);
            proof {
                assert(-SLOT_AMP_BOUND <= (unit as int) * slot.gain <= SLOT_AMP_BOUND)
                    by (nonlinear_arith)
                    requires
                        -131072 <= unit as int <= 131072,
                        0 <= slot.gain <= 65536,
                ;
            }
            sum = sum + unit * slot.gain;
        }
        i = i + 1;
    }
    proof {
        assert(oscillator_params@.take(oscillator_params@.len() as int)
            =~= oscillator_params@);
        assert(-VOICE_AMP_BOUND <= (sum as int) * voice.velocity <= VOICE_AMP_BOUND)
            by (nonlinear_arith)
            requires
                -3 * 8589934592 <= sum as int <= 3 * 8589934592,
                0 <= voice.velocity <= 65536,
        ;
    }
    sum * voice.velocity
}

/// Boundary values at the start of a cycle, straight from the formulas:
/// the sine and triangle renditions start at zero, the saw and the
/// square at one.
pub proof fn lemma_wave_at_phase_zero()
    ensures
        wave_unit_spec(Waveform::Sine, 0) == 0,
        wave_unit_spec(Waveform::Saw, 0) == 65536,
        wave_unit_spec(Waveform::Square, 0) == 65536,
        wave_unit_spec(Waveform::Triangle, 0) == 0,
{
    crate::fixed::lemma_isqrt_exact(0x1_0000_0000, 65536);
}

} // verus!
