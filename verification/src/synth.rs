//! The synthesizer: a voice registry driven by note events, an
//! oscillator bank shared by every voice, and the per-block
//! orchestration that applies events with sample accuracy and produces
//! one mono amplitude value per sample.

use vstd::prelude::*;

verus! {

use crate::fixed::Q16;
use crate::fixed::sqrt_q16;
use crate::fixed::sqrt_q16_spec;
use crate::oscillator::OscillatorParams;
use crate::oscillator::Waveform;
use crate::oscillator::GAIN_MINUS_6_DB;
use crate::oscillator::bank_wf;
use crate::oscillator::voice_amp_spec;
use crate::oscillator::advanced_voice_spec;
use crate::voice::Voice;
use crate::voice::MIN_SAMPLE_RATE;

/// One timestamped host event. Timing is the sample offset inside the
/// current audio block at which the event takes effect. Note-on carries
/// the raw velocity on the Q16 scale; kinds other than note-on and
/// note-off are carried through and ignored.
#[derive(Clone, Copy, PartialEq, Eq, Structural, Debug)]
pub enum NoteEvent {
    NoteOn { timing: u32, note: u8, velocity: i64 },
    NoteOff { timing: u32, note: u8 },
    Other { timing: u32 },
}

/// The sample offset at which an event takes effect.
pub open spec fn event_timing_spec(e: NoteEvent) -> int {
    match e {
        NoteEvent::NoteOn { timing, .. } => timing as int,
        NoteEvent::NoteOff { timing, .. } => timing as int,
        NoteEvent::Other { timing } => timing as int,
    }
}

/// A well-formed event carries a valid MIDI note and a velocity in [0, 1].
pub open spec fn event_wf_spec(e: NoteEvent) -> bool {
    match e {
        NoteEvent::NoteOn { note, velocity, .. } => note <= 127 && 0 <= velocity <= Q16,
        NoteEvent::NoteOff { .. } => true,
        NoteEvent::Other { .. } => true,
    }
}

impl NoteEvent {
    /// The sample offset at which this event takes effect.
    pub fn timing(&self) -> (t: u32)
        ensures
            t == event_timing_spec(*self),
    {
        match self {
            NoteEvent::NoteOn { timing, .. } => *timing,
            NoteEvent::NoteOff { timing, .. } => *timing,
            NoteEvent::Other { timing } => *timing,
        }
    }
}

/// A note-on appends a fresh voice: phase zero, velocity put through the
/// square-root loudness curve.
pub open spec fn note_on_spec(vs: Seq<Voice>, note: u8, velocity: int) -> Seq<Voice> {
    vs.push(Voice { note, velocity: sqrt_q16_spec(velocity) as i64, phase: 0u64 })
}

/// Index of the first voice sounding the given note, or minus one when
/// none does.
pub open spec fn first_match_spec(vs: Seq<Voice>, note: u8) -> int
    decreases vs.len(),
{
    if vs.len() == 0 {
        -1
    } else if vs[0].note == note {
        0
    } else {
        let r = first_match_spec(vs.drop_first(), note);
        if r < 0 {
            -1
        } else {
            r + 1
        }
    }
}

/// A note-off removes the first voice sounding the note, in registry
/// order, and is a no-op when none does.
pub open spec fn note_off_spec(vs: Seq<Voice>, note: u8) -> Seq<Voice> {
    let idx = first_match_spec(vs, note);
    if idx < 0 {
        vs
    } else {
        vs.remove(idx)
    }
}

/// When no voice sounds the note, there is no first match.
pub proof fn lemma_first_match_none(vs: Seq<Voice>, note: u8)
    requires
        forall|i: int| 0 <= i < vs.len() ==> (#[trigger] vs[i]).note != note,
    ensures
        first_match_spec(vs, note) == -1,
    decreases vs.len(),
{
    if vs.len() > 0 {
        assert(vs[0].note != note);
        assert(forall|i: int| 0 <= i < vs.drop_first().len()
            ==> (#[trigger] vs.drop_first()[i]).note == vs[i + 1].note);
        lemma_first_match_none(vs.drop_first(), note);
    }
}

/// The earliest index sounding the note is the first match.
pub proof fn lemma_first_match_at(vs: Seq<Voice>, note: u8, k: int)
    requires
        0 <= k < vs.len(),
        vs[k].note == note,
        forall|i: int| 0 <= i < k ==> (#[trigger] vs[i]).note != note,
    ensures
        first_match_spec(vs, note) == k,
    decreases k,
{
    if k == 0 {
    } else {
        assert(vs[0].note != note);
        assert(forall|i: int| 0 <= i < vs.drop_first().len()
            ==> (#[trigger] vs.drop_first()[i]).note == vs[i + 1].note);
        assert(vs.drop_first()[k - 1] == vs[k]);
        lemma_first_match_at(vs.drop_first(), note, k - 1);
    }
}

/// Applies one event to the registry: note-on appends, note-off removes
/// the first match, anything else leaves the registry as it is.
pub open spec fn apply_event_spec(vs: Seq<Voice>, e: NoteEvent) -> Seq<Voice> {
    match e {
        NoteEvent::NoteOn { note, velocity, .. } => note_on_spec(vs, note, velocity as int),
        NoteEvent::NoteOff { note, .. } => note_off_spec(vs, note),
        NoteEvent::Other { .. } => vs,
    }
}

/// Applies the events with indices in [p, end) to the registry, in order.
pub open spec fn apply_events_spec(
    vs: Seq<Voice>,
    events: Seq<NoteEvent>,
    p: int,
    end: int,
) -> Seq<Voice>
    decreases end - p,
{
    if p < end && 0 <= p < events.len() {
        apply_events_spec(apply_event_spec(vs, events[p]), events, p + 1, end)
    } else {
        vs
    }
}

/// First event index at or after p whose timing lies after sample i:
/// the event pointer after draining all events due at sample i.
pub open spec fn next_ptr_spec(events: Seq<NoteEvent>, p: int, i: int) -> int
    decreases events.len() - p,
{
    if 0 <= p < events.len() && event_timing_spec(events[p]) <= i {
        next_ptr_spec(events, p + 1, i)
    } else {
        p
    }
}

/// The drained pointer never moves backwards and never passes the end.
pub proof fn lemma_next_ptr_range(events: Seq<NoteEvent>, p: int, i: int)
    requires
        0 <= p <= events.len(),
    ensures
        p <= next_ptr_spec(events, p, i) <= events.len(),
    decreases events.len() - p,
{
    if p < events.len() && event_timing_spec(events[p]) <= i {
        lemma_next_ptr_range(events, p + 1, i);
    }
}

/// Every voice after one sample: the same notes and velocities, each
/// phase advanced by its own frequency step.
pub open spec fn advance_all_spec(vs: Seq<Voice>, rate: int) -> Seq<Voice> {
    vs.map_values(|v: Voice| advanced_voice_spec(v, rate))
}

/// The registry's Q48 output for one sample: the sum of every voice's
/// amplitude contribution, zero when no voice sounds.
pub open spec fn registry_amp_spec(slots: Seq<OscillatorParams>, vs: Seq<Voice>) -> int
    decreases vs.len(),
{
    if vs.len() == 0 {
        0
    } else {
        registry_amp_spec(slots, vs.drop_last()) + voice_amp_spec(slots, vs.last())
    }
}

/// The produced amplitudes of a block, as mathematical integers.
pub open spec fn amps_view(out: Seq<i128>) -> Seq<int> {
    out.map_values(|a: i128| a as int)
}

/// Registry, event pointer and produced amplitudes while a block runs.
pub struct BlockState {
    pub voices: Seq<Voice>,
    pub ptr: int,
    pub amps: Seq<int>,
}

/// One sample slot: drain the events due at sample i, read one amplitude
/// from the drained registry, then advance every voice by one sample.
pub open spec fn block_step_spec(
    slots: Seq<OscillatorParams>,
    rate: int,
    events: Seq<NoteEvent>,
    st: BlockState,
    i: int,
) -> BlockState {
    let np = next_ptr_spec(events, st.ptr, i);
    let drained = apply_events_spec(st.voices, events, st.ptr, np);
    BlockState {
        voices: advance_all_spec(drained, rate),
        ptr: np,
        amps: st.amps.push(registry_amp_spec(slots, drained)),
    }
}

/// Runs the sample slots i through n - 1 from the given state.
pub open spec fn run_block_spec(
    slots: Seq<OscillatorParams>,
    rate: int,
    events: Seq<NoteEvent>,
    st: BlockState,
    i: int,
    n: int,
) -> BlockState
    decreases n - i,
{
    if i >= n {
        st
    } else {
        run_block_spec(slots, rate, events, block_step_spec(slots, rate, events, st, i), i + 1, n)
    }
}

/// The synthesizer: the shared oscillator bank, the registry of
/// currently sounding voices, and the sample rate set at initialization.
pub struct Zoscillator {
    pub oscillators: Vec<OscillatorParams>,
    pub voices: Vec<Voice>,
    pub sample_rate: u32,
}

impl Zoscillator {
    /// Structurally well formed: a well-formed bank and only well-formed
    /// voices.
    pub open spec fn wf(self) -> bool {
        &&& bank_wf(self.oscillators@)
        &&& forall|i: int| 0 <= i < self.voices@.len() ==> (#[trigger] self.voices@[i]).wf()
    }

    /// Ready to process audio: well formed, with an accepted sample rate.
    pub open spec fn ready(self) -> bool {
        &&& self.wf()
        &&& self.sample_rate >= MIN_SAMPLE_RATE
    }

    /// A freshly constructed synthesizer: no voices, a placeholder
    /// sample rate, and the default bank with only the first slot
    /// enabled.
    pub open spec fn fresh_spec(self) -> bool {
        &&& self.voices@.len() == 0
        &&& self.sample_rate == 1
        &&& self.wf()
        &&& self.oscillators@ =~= seq![
            OscillatorParams { gain: GAIN_MINUS_6_DB, waveform: Waveform::Sine, enabled: true },
            OscillatorParams { gain: GAIN_MINUS_6_DB, waveform: Waveform::Sine, enabled: false },
            OscillatorParams { gain: GAIN_MINUS_6_DB, waveform: Waveform::Sine, enabled: false },
        ]
    }

    /// Builds the fresh synthesizer. The sample rate is a placeholder
    /// until `initialize` is called.
    pub fn new() -> (z: Zoscillator)
        ensures
            z.fresh_spec(),
    {
        let mut oscillators: Vec<OscillatorParams> = Vec::new();
        let mut first = OscillatorParams::default();
        first.enabled = true;
        oscillators.push(first);
        oscillators.push(OscillatorParams::default());
        oscillators.push(OscillatorParams::default());
        let z = Zoscillator { oscillators, voices: Vec::new(), sample_rate: 1 };
        proof {
            assert(z.oscillators@ =~= seq![
                OscillatorParams {
                    gain: GAIN_MINUS_6_DB,
                    waveform: Waveform::Sine,
                    enabled: true,
                },
                OscillatorParams {
                    gain: GAIN_MINUS_6_DB,
                    waveform: Waveform::Sine,
                    enabled: false,
                },
                OscillatorParams {
                    gain: GAIN_MINUS_6_DB,
                    waveform: Waveform::Sine,
                    enabled: false,
                },
            ]);
        }
        z
    }

    /// This is an instrument: it accepts no audio input channels and at
    /// least one output channel.
    pub fn accepts_bus_config(&self, num_input_channels: u32, num_output_channels: u32) -> (r:
        bool)
        ensures
            r == (num_input_channels == 0 && num_output_channels > 0),
    {
        num_input_channels == 0 && num_output_channels > 0
    }

    /// Adopts the host's sample rate. Must be called before processing;
    /// the accepted rates keep every valid note below one cycle per
    /// sample.
    pub fn initialize(&mut self, sample_rate: u32)
        requires
            old(self).wf(),
            sample_rate >= MIN_SAMPLE_RATE,
        ensures
            final(self).sample_rate == sample_rate,
            final(self).voices@ == old(self).voices@,
            final(self).oscillators@ == old(self).oscillators@,
            final(self).ready(),
    {
        self.sample_rate = sample_rate;
    }

    /// Forgets every sounding voice.
    pub fn reset(&mut self)
        requires
            old(self).wf(),
        ensures
            final(self).voices@.len() == 0,
            final(self).oscillators@ == old(self).oscillators@,
            final(self).sample_rate == old(self).sample_rate,
            final(self).wf(),
    {
        self.voices.clear();
    }

    /// Starts a voice: appends it to the registry with phase zero and
    /// the velocity put through the square-root loudness curve. Voices
    /// are never deduplicated, so one pitch may sound several times.
    pub fn note_on(&mut self, note: u8, velocity: i64)
        requires
            old(self).wf(),
            note <= 127,
            0 <= velocity <= Q16,
        ensures
            final(self).voices@ == note_on_spec(old(self).voices@, note, velocity as int),
            final(self).voices@.len() == old(self).voices@.len() + 1,
            final(self).oscillators@ == old(self).oscillators@,
            final(self).sample_rate == old(self).sample_rate,
            final(self).wf(),
    {
        let v = sqrt_q16(velocity);
        self.voices.push(Voice::new(note, v));
    }

    /// Stops a voice: removes the first voice sounding the note, in
    /// registry order. When no voice sounds it, the registry is left
    /// unchanged; this is not an error.
    pub fn note_off(&mut self, note: u8)
        requires
            old(self).wf(),
        ensures
            final(self).voices@ == note_off_spec(old(self).voices@, note),
            (forall|i: int| 0 <= i < old(self).voices@.len()
                ==> (#[trigger] old(self).voices@[i]).note != note)
                ==> final(self).voices@ == old(self).voices@,
            final(self).oscillators@ == old(self).oscillators@,
            final(self).sample_rate == old(self).sample_rate,
            final(self).wf(),
    {
        let ghost vs0 = self.voices@;
        let n = self.voices.len();
        let mut i: usize = 0;
        while i < n
            invariant
                i <= n,
                n == self.voices@.len(),
                self.voices@ == vs0,
                vs0 == old(self).voices@,
                self.oscillators@ == old(self).oscillators@,
                self.sample_rate == old(self).sample_rate,
                old(self).wf(),
                forall|j: int| 0 <= j < i ==> (#[trigger] vs0[j]).note != note,
            decreases n - i,
        {
            if self.voices[i].note == note {
                proof {
                    lemma_first_match_at(vs0, note, i as int);
                }
                self.voices.remove(i);
                proof {
                    vs0.remove_ensures(i as int);
                }
                return ;
            }
            i = i + 1;
        }
        proof {
            lemma_first_match_none(vs0, note);
        }
    }

    /// Applies one host event: note-on starts a voice, note-off stops
    /// one, every other kind is ignored.
    pub fn handle_note_event(&mut self, event: NoteEvent)
        requires
            old(self).wf(),
            event_wf_spec(event),
        ensures
            final(self).voices@ == apply_event_spec(old(self).voices@, event),
            final(self).oscillators@ == old(self).oscillators@,
            final(self).sample_rate == old(self).sample_rate,
            final(self).wf(),
    {
        match event {
            NoteEvent::NoteOn { note, velocity, .. } => {
                self.note_on(note, velocity);
            },
            NoteEvent::NoteOff { note, .. } => {
                self.note_off(note);
            },
            NoteEvent::Other { .. } => {},
        }
    }

    /// Produces the current sample's mono amplitude: the sum of every
    /// voice's contribution at its current phase, advancing each phase
    /// by one sample. With no sounding voices the output is exactly
    /// zero.
    pub fn calculate_amplitude(&mut self) -> (amp: i128)
        requires
            old(self).ready(),
        ensures
            amp == registry_amp_spec(old(self).oscillators@, old(self).voices@),
            old(self).voices@.len() == 0 ==> amp == 0,
            final(self).voices@ == advance_all_spec(
                old(self).voices@,
                old(self).sample_rate as int,
            ),
            final(self).oscillators@ == old(self).oscillators@,
            final(self).sample_rate == old(self).sample_rate,
            final(self).ready(),
    {
        let ghost vs0 = self.voices@;
        let ghost slots0 = self.oscillators@;
        let ghost rate0 = self.sample_rate as int;
        let n = self.voices.len();
        let mut acc: i128 = 0;
        let mut i: usize = 0;
        while i < n
            invariant
                i <= n,
                n == self.voices@.len(),
                n == vs0.len(),
                self.oscillators@ == slots0,
                self.sample_rate as int == rate0,
                old(self).ready(),
                slots0 == old(self).oscillators@,
                rate0 == old(self).sample_rate as int,
                forall|j: int| i <= j < n ==> self.voices@[j] == vs0[j],
                forall|j: int| 0 <= j < vs0.len() ==> (#[trigger] vs0[j]).wf(),
                forall|j: int| 0 <= j < i
                    ==> self.voices@[j] == advanced_voice_spec(vs0[j], rate0),
                forall|j: int| 0 <= j < i ==> (#[trigger] self.voices@[j]).wf(),
                acc == registry_amp_spec(slots0, vs0.take(i as int)),
                -1688849860263936 * (i as int) <= acc <= 1688849860263936 * (i as int),
            decreases n - i,
        {
            proof {
                assert(vs0[i as int].wf());
            }
            let a: i64 = crate::oscillator::calculate_amplitude(
                &self.oscillators,
                &mut self.voices[i],
                self.sample_rate,
            );
            proof {
                assert(vs0.take(i as int + 1).drop_last() =~= vs0.take(i as int));
                assert(vs0.take(i as int + 1).last() == vs0[i as int]);
            }
            acc = acc + (a as i128);
            i = i + 1;
        }
        proof {
            assert(vs0.take(n as int) =~= vs0);
            assert(self.voices@ =~= advance_all_spec(vs0, rate0));
        }
        acc
    }

    /// Processes one audio block with sample-accurate event timing.
    ///
    /// For each sample slot, every event whose timing lies at or before
    /// the slot is applied to the registry first, then one amplitude is
    /// produced; so an event scheduled for sample k is heard from sample
    /// k exactly. The result holds one Q48 amplitude per sample, to be
    /// written identically to every output channel.
    pub fn process_block(&mut self, events: &Vec<NoteEvent>, num_samples: usize) -> (out: Vec<
        i128,
    >)
        requires
            old(self).ready(),
            forall|i: int| 0 <= i < events@.len() ==> event_wf_spec(#[trigger] events@[i]),
            num_samples <= 0xFFFF_FFFF,
        ensures
            ({
                let r = run_block_spec(
                    old(self).oscillators@,
                    old(self).sample_rate as int,
                    events@,
                    (BlockState { voices: old(self).voices@, ptr: 0, amps: Seq::empty() }),
                    0,
                    num_samples as int,
                );
                &&& final(self).voices@ == r.voices
                &&& amps_view(out@) == r.amps
                &&& out@.len() == num_samples
                &&& final(self).oscillators@ == old(self).oscillators@
                &&& final(self).sample_rate == old(self).sample_rate
                &&& final(self).ready()
            }),
    {
        let ghost slots0 = self.oscillators@;
        let ghost rate0 = self.sample_rate as int;
        let ghost st0 = BlockState { voices: self.voices@, ptr: 0, amps: Seq::empty() };
        let mut out: Vec<i128> = Vec::new();
        let mut ptr: usize = 0;
        let mut i: usize = 0;
        proof {
            assert(amps_view(out@) =~= Seq::<int>::empty());
        }
        while i < num_samples
            invariant
                i <= num_samples,
                num_samples <= 0xFFFF_FFFF,
                ptr <= events@.len(),
                forall|k: int| 0 <= k < events@.len() ==> event_wf_spec(#[trigger] events@[k]),
                self.oscillators@ == slots0,
                self.sample_rate as int == rate0,
                slots0 == old(self).oscillators@,
                rate0 == old(self).sample_rate as int,
                self.wf(),
                self.sample_rate >= MIN_SAMPLE_RATE,
                out@.len() == i,
                run_block_spec(slots0, rate0, events@, st0, 0, num_samples as int)
                    == run_block_spec(
                    slots0,
                    rate0,
                    events@,
                    (BlockState {
                        voices: self.voices@,
                        ptr: ptr as int,
                        amps: amps_view(out@),
                    }),
                    i as int,
                    num_samples as int,
                ),
            decreases num_samples - i,
        {
            let ghost vs_e = self.voices@;
            let ghost p_e = ptr as int;
            let ghost np_e = next_ptr_spec(events@, p_e, i as int);
            proof {
                lemma_next_ptr_range(events@, p_e, i as int);
            }
            while ptr < events.len() && events[ptr].timing() <= (i as u32)
                invariant
                    i < 0x1_0000_0000,
                    p_e <= ptr as int <= np_e,
                    np_e <= events@.len(),
                    np_e == next_ptr_spec(events@, ptr as int, i as int),
                    apply_events_spec(vs_e, events@, p_e, np_e) == apply_events_spec(
                        self.voices@,
                        events@,
                        ptr as int,
                        np_e,
                    ),
                    forall|k: int| 0 <= k < events@.len()
                        ==> event_wf_spec(#[trigger] events@[k]),
                    self.oscillators@ == slots0,
                    self.sample_rate as int == rate0,
                    self.wf(),
                decreases events@.len() - ptr,
            {
                let e = events[ptr];
                proof {
                    lemma_next_ptr_range(events@, ptr as int + 1, i as int);
                }
                self.handle_note_event(e);
                ptr = ptr + 1;
            }
            proof {
                assert(np_e == ptr as int);
                assert(apply_events_spec(vs_e, events@, p_e, np_e) == self.voices@);
            }
            let a: i128 = self.calculate_amplitude();
            let ghost amps_e = amps_view(out@);
            out.push(a);
            i = i + 1;
            proof {
                assert(amps_view(out@) =~= amps_e.push(a as int));
                let st_e = BlockState { voices: vs_e, ptr: p_e, amps: amps_e };
                let st_n = block_step_spec(slots0, rate0, events@, st_e, i as int - 1);
                assert(st_n.voices =~= self.voices@);
                assert(st_n.amps =~= amps_view(out@));
                assert(st_n == (BlockState {
                    voices: self.voices@,
                    ptr: ptr as int,
                    amps: amps_view(out@),
                }));
            }
        }
        out
    }
}

impl Default for Zoscillator {
    /// The fresh synthesizer, as `new` builds it.
    fn default() -> (z: Self)
        ensures
            z.fresh_spec(),
    {
        Zoscillator::new()
    }
}

/// Starting one pitch twice without a note-off in between makes two
/// independent voices: the first note-off removes exactly the earlier
/// one, a second note-off removes the other, and the registry returns
/// to where it began.
pub proof fn lemma_duplicate_notes(vs: Seq<Voice>, note: u8, vel1: int, vel2: int)
    requires
        forall|i: int| 0 <= i < vs.len() ==> (#[trigger] vs[i]).note != note,
    ensures
        ({
            let v2 = Voice { note, velocity: sqrt_q16_spec(vel2) as i64, phase: 0u64 };
            let vs2 = note_on_spec(note_on_spec(vs, note, vel1), note, vel2);
            &&& vs2.len() == vs.len() + 2
            &&& note_off_spec(vs2, note) == vs.push(v2)
            &&& note_off_spec(note_off_spec(vs2, note), note) == vs
        }),
{
    let v1 = Voice { note, velocity: sqrt_q16_spec(vel1) as i64, phase: 0u64 };
    let v2 = Voice { note, velocity: sqrt_q16_spec(vel2) as i64, phase: 0u64 };
    let vs2 = note_on_spec(note_on_spec(vs, note, vel1), note, vel2);
    let k = vs.len() as int;
    assert(vs2[k] == v1);
    assert(forall|i: int| 0 <= i < k ==> (#[trigger] vs2[i]).note == vs[i].note);
    lemma_first_match_at(vs2, note, k);
    assert(vs2.remove(k) =~= vs.push(v2));
    let vs3 = vs.push(v2);
    assert(vs3[k] == v2);
    assert(forall|i: int| 0 <= i < k ==> (#[trigger] vs3[i]).note == vs[i].note);
    lemma_first_match_at(vs3, note, k);
    assert(vs3.remove(k) =~= vs);
}

} // verus!
