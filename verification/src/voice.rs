//! A voice is one currently sounding note: its MIDI pitch, its loudness
//! scalar, and its oscillator phase accumulator. This module also holds
//! the twelve-tone equal-temperament pitch table that converts a MIDI
//! note number to a frequency on the Q20 hertz scale.

use vstd::prelude::*;

verus! {

use crate::fixed::Q16;
use crate::fixed::PHASE_ONE;
use crate::fixed::FREQ_ONE_HZ;
use vstd::arithmetic::div_mod::lemma_fundamental_div_mod;

/// Lowest sample rate, in hertz, at which every valid MIDI note's
/// frequency stays strictly below one cycle per sample, so that a single
/// conditional subtraction per sample keeps the phase inside one cycle.
pub const MIN_SAMPLE_RATE: u32 = 12544;

/// One currently sounding note.
///
/// `velocity` is the loudness scalar on the Q16 scale, already passed
/// through the square-root loudness curve. `phase` is the position inside
/// the current waveform cycle, in 1/2^32 fractions of a cycle.
#[derive(Clone, Copy, PartialEq, Eq, Structural, Debug)]
pub struct Voice {
    pub note: u8,
    pub velocity: i64,
    pub phase: u64,
}

impl Voice {
    /// A voice is well formed when its pitch is a valid MIDI note, its
    /// velocity stands for a value in [0, 1], and its phase lies inside
    /// one cycle.
    pub open spec fn wf(self) -> bool {
        &&& self.note <= 127
        &&& 0 <= self.velocity <= Q16
        &&& self.phase < PHASE_ONE
    }

    /// A fresh voice starts at the beginning of a cycle.
    pub fn new(note: u8, velocity: i64) -> (v: Voice)
        requires
            note <= 127,
            0 <= velocity <= Q16,
        ensures
            v == (Voice { note, velocity, phase: 0u64 }),
            v.wf(),
    {
        Voice { note, velocity, phase: 0 }
    }

    /// The voice's frequency on the Q20 hertz scale.
    pub fn get_frequency(&self) -> (f: u64)
        requires
            self.note <= 127,
        ensures
            f == freq_q20_spec(self.note as int),
    {
        midi_note_to_freq_q20(self.note)
    }
}

/// Powers of two, for the octave ladder of the pitch table.
pub open spec fn pow2_spec(k: int) -> int
    decreases k,
{
    if k <= 0 {
        1
    } else {
        2 * pow2_spec(k - 1)
    }
}

/// Powers of two are at least one.
pub proof fn lemma_pow2_pos(k: int)
    ensures
        1 <= pow2_spec(k),
    decreases k,
{
    if k > 0 {
        lemma_pow2_pos(k - 1);
    }
}

/// Powers of two grow monotonically from one.
pub proof fn lemma_pow2_mono(a: int, b: int)
    requires
        0 <= a <= b,
    ensures
        1 <= pow2_spec(a) <= pow2_spec(b),
    decreases b,
{
    lemma_pow2_pos(a);
    if a < b {
        lemma_pow2_mono(a, b - 1);
        lemma_pow2_pos(b - 1);
    }
}

/// Frequency of MIDI notes 0 through 11 (the lowest octave), on the Q20
/// hertz scale: the note s in that octave sounds at 440 * 2^((s - 69) / 12)
/// hertz, and each entry is that value times 2^20, rounded to the nearest
/// integer. Note 9 is exact: 55/4 hertz, five octaves below the 440 Hz
/// reference pitch.
pub open spec fn base_q20_spec(s: int) -> int {
    if s == 0 {
        8572947
    } else if s == 1 {
        9082720
    } else if s == 2 {
        9622807
    } else if s == 3 {
        10195009
    } else if s == 4 {
        10801236
    } else if s == 5 {
        11443511
    } else if s == 6 {
        12123977
    } else if s == 7 {
        12844906
    } else if s == 8 {
        13608704
    } else if s == 9 {
        14417920
    } else if s == 10 {
        15275254
    } else {
        16183568
    }
}

/// Frequency of a MIDI note on the Q20 hertz scale: the pitch of the
/// note's position within the octave, doubled once per octave.
pub open spec fn freq_q20_spec(n: int) -> int {
    base_q20_spec(n % 12) * pow2_spec(n / 12)
}

/// Table lookup for the lowest octave.
fn base_q20(s: u8) -> (r: u64)
    requires
        s < 12,
    ensures
        r == base_q20_spec(s as int),
        8572947 <= r <= 16183568,
{
    if s == 0 {
        8572947
    } else if s == 1 {
        9082720
    } else if s == 2 {
        9622807
    } else if s == 3 {
        10195009
    } else if s == 4 {
        10801236
    } else if s == 5 {
        11443511
    } else if s == 6 {
        12123977
    } else if s == 7 {
        12844906
    } else if s == 8 {
        13608704
    } else if s == 9 {
        14417920
    } else if s == 10 {
        15275254
    } else {
        16183568
    }
}

/// Converts a MIDI note number to its frequency on the Q20 hertz scale.
pub fn midi_note_to_freq_q20(note: u8) -> (r: u64)
    requires
        note <= 127,
    ensures
        r == freq_q20_spec(note as int),
{
    let s: u8 = note % 12;
    let oct: u8 = note / 12;
    let base: u64 = base_q20(s);
    let mut m: u64 = 1;
    let mut k: u8 = 0;
    while k < oct
        invariant
            k <= oct,
            oct <= 10,
            m == pow2_spec(k as int),
            m <= 1024,
        decreases oct - k,
    {
        proof {
            lemma_pow2_mono(k as int, 9);
            assert(pow2_spec(9) == 512) by {
                reveal_with_fuel(pow2_spec, 11);
            }
        }
        m = m * 2;
        k = k + 1;
    }
    proof {
        assert(base * m <= 16183568 * 1024) by (nonlinear_arith)
            requires
                base <= 16183568,
                m <= 1024,
                0 <= base,
                0 <= m,
        ;
    }
    base * m
}

/// The pitch table meets the 440 Hz reference exactly: note 69 sounds at
/// 440 hertz on the Q20 scale.
pub proof fn lemma_reference_pitch()
    ensures
        freq_q20_spec(69) == 440 * FREQ_ONE_HZ,
{
    assert(69int % 12 == 9 && 69int / 12 == 5);
    assert(pow2_spec(5) == 32) by {
        reveal_with_fuel(pow2_spec, 6);
    }
}

/// Raising a note by twelve semitones doubles its frequency exactly.
pub proof fn lemma_octave_doubles(n: int)
    requires
        0 <= n <= 115,
    ensures
        freq_q20_spec(n + 12) == 2 * freq_q20_spec(n),
{
    lemma_fundamental_div_mod(n, 12);
    lemma_fundamental_div_mod(n + 12, 12);
    let q = n / 12;
    let s = n % 12;
    assert((n + 12) / 12 == q + 1 && (n + 12) % 12 == s) by (nonlinear_arith)
        requires
            n == 12 * q + s,
            0 <= s < 12,
            n + 12 == 12 * ((n + 12) / 12) + ((n + 12) % 12),
            0 <= (n + 12) % 12 < 12,
    ;
    assert(pow2_spec(q + 1) == 2 * pow2_spec(q));
}

/// Every valid MIDI note sounds strictly below MIN_SAMPLE_RATE hertz, so
/// at any accepted sample rate the phase moves by less than one cycle per
/// sample.
pub proof fn lemma_freq_below_min_rate(n: int)
    requires
        0 <= n <= 127,
    ensures
        0 < freq_q20_spec(n) < MIN_SAMPLE_RATE * FREQ_ONE_HZ,
{
    lemma_fundamental_div_mod(n, 12);
    let q = n / 12;
    let s = n % 12;
    assert(0 <= s < 12);
    assert(0 <= q <= 10) by (nonlinear_arith)
        requires
            n == 12 * q + s,
            0 <= s < 12,
            0 <= n <= 127,
    ;
    lemma_pow2_mono(0, q);
    if n <= 119 {
        assert(q <= 9) by (nonlinear_arith)
            requires
                n == 12 * q + s,
                0 <= s < 12,
                n <= 119,
        ;
        lemma_pow2_mono(q, 9);
        assert(pow2_spec(9) == 512) by {
            reveal_with_fuel(pow2_spec, 11);
        }
        assert(base_q20_spec(s) * pow2_spec(q) <= 16183568 * 512) by (nonlinear_arith)
            requires
                0 < base_q20_spec(s) <= 16183568,
                0 < pow2_spec(q) <= 512,
        ;
    } else {
        assert(q == 10 && s <= 7) by (nonlinear_arith)
            requires
                n == 12 * q + s,
                0 <= s < 12,
                120 <= n <= 127,
                0 <= q <= 10,
        ;
        assert(pow2_spec(10) == 1024) by {
            reveal_with_fuel(pow2_spec, 11);
        }
        assert(base_q20_spec(s) * pow2_spec(q) <= 12844906 * 1024) by (nonlinear_arith)
            requires
                0 < base_q20_spec(s) <= 12844906,
                pow2_spec(q) == 1024,
        ;
    }
    assert(base_q20_spec(s) * pow2_spec(q) > 0) by (nonlinear_arith)
        requires
            0 < base_q20_spec(s),
            0 < pow2_spec(q),
    ;
}

} // verus!
