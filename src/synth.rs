//! A polyphonic sine synthesizer in fixed-point arithmetic: a pool of voices,
//! each an oscillator read from a wavetable and shaped by an
//! attack/decay/sustain/release envelope, rendered sample-accurately between
//! the note events of a block.
//!
//! Units: gains are integers where `GAIN_ONE` is full scale; phases are
//! 32-bit fractions of a turn; the wavetable holds one sine-shaped period
//! within `-WAVE_ONE..=WAVE_ONE`; an output sample is the sum of wavetable
//! entry times gain over the voices.
use vstd::prelude::*;

use crate::midi::{spec_note_event, NoteEvent};
use crate::port::{AudioMut, InputSequence, OutputAudio, Port, Ported, SequenceRef};
use crate::sequence::{EventView, Sequence};
use crate::urid;

verus! {

/// Number of voice slots.
pub const VOICES: usize = 32;

/// Number of wavetable entries; a phase selects one by its top ten bits.
pub const TABLE_SIZE: usize = 1024;

/// The largest magnitude of a wavetable entry.
pub const WAVE_ONE: i32 = 32767;

/// Gain reached at velocity 127 at the top of the attack.
pub const GAIN_ONE: u64 = 10403840;

/// Attack target gain per unit of velocity (`GAIN_ONE / 127`).
pub const GAIN_PER_VELOCITY: u64 = 81920;

/// Sustain gain per unit of velocity: 0.85 of the attack target.
pub const SUSTAIN_PER_VELOCITY: u64 = 69632;

/// Attack, decay and release durations in milliseconds.
pub const ATTACK_MS: u64 = 100;
pub const DECAY_MS: u64 = 100;
pub const RELEASE_MS: u64 = 100;

// ---------------------------------------------------------------------------
// Key to frequency
// ---------------------------------------------------------------------------

/// Frequencies in microhertz of keys 0 to 11, the lowest octave, tuned so
/// that key 69 is 440 Hz.
pub open spec fn spec_semitone_base(n: int) -> int {
    if n == 0 { 8175799 }
    else if n == 1 { 8661957 }
    else if n == 2 { 9177024 }
    else if n == 3 { 9722718 }
    else if n == 4 { 10300861 }
    else if n == 5 { 10913382 }
    else if n == 6 { 11562326 }
    else if n == 7 { 12249857 }
    else if n == 8 { 12978272 }
    else if n == 9 { 13750000 }
    else if n == 10 { 14567618 }
    else { 15433853 }
}

pub open spec fn pow2(e: nat) -> nat
    decreases e,
{
    if e == 0 { 1 } else { 2 * pow2((e - 1) as nat) }
}

/// The frequency of a key in microhertz: its semitone's base frequency
/// doubled once per octave.
pub open spec fn spec_key_freq(key: int) -> int {
    spec_semitone_base(key % 12) * pow2((key / 12) as nat)
}

/// The phase increment per sample of a key at a sample rate, in 2^-32
/// turns, taken modulo one turn.
pub open spec fn spec_key_pulse(key: int, sample_rate: int) -> int {
    ((spec_key_freq(key) * 0x1_0000_0000) / (sample_rate * 1000000)) % 0x1_0000_0000
}

fn semitone_base(n: u8) -> (r: u64)
    requires
        n < 12,
    ensures
        r == spec_semitone_base(n as int),
{
    match n {
        0 => 8175799,
        1 => 8661957,
        2 => 9177024,
        3 => 9722718,
        4 => 10300861,
        5 => 10913382,
        6 => 11562326,
        7 => 12249857,
        8 => 12978272,
        9 => 13750000,
        10 => 14567618,
        _ => 15433853,
    }
}

/// The frequency of a MIDI key, in microhertz.
pub fn key_freq(key: u8) -> (r: u64)
    requires
        key < 128,
    ensures
        r == spec_key_freq(key as int),
        r <= 15433853 * 1024,
{
    let octave = key / 12;
    let mut f = semitone_base(key % 12);
    let mut i: u8 = 0;
    while i < octave
        invariant
            0 <= i <= octave <= 10,
            f == spec_semitone_base((key % 12) as int) * pow2(i as nat),
            spec_semitone_base((key % 12) as int) <= 15433853,
            pow2(i as nat) <= 1024,
        decreases octave - i,
    {
        proof {
            assert(pow2((i + 1) as nat) == 2 * pow2(i as nat));
            assert(i + 1 <= 10);
            lemma_pow2_le((i + 1) as nat, 10);
            let b = spec_semitone_base((key % 12) as int);
            assert(b * pow2((i + 1) as nat) == 2 * (b * pow2(i as nat))) by (nonlinear_arith)
                requires
                    pow2((i + 1) as nat) == 2 * pow2(i as nat),
            ;
            assert(b * pow2((i + 1) as nat) <= 15433853 * 1024) by (nonlinear_arith)
                requires
                    0 <= b <= 15433853,
                    pow2((i + 1) as nat) <= 1024,
            ;
        }
        f = f * 2;
        i = i + 1;
    }
    proof {
        assert(pow2(octave as nat) <= 1024);
        assert(f <= 15433853 * 1024) by (nonlinear_arith)
            requires
                f == spec_semitone_base((key % 12) as int) * pow2(octave as nat),
                spec_semitone_base((key % 12) as int) <= 15433853,
                pow2(octave as nat) <= 1024,
                spec_semitone_base((key % 12) as int) >= 0,
        ;
    }
    f
}

proof fn lemma_pow2_le(e: nat, m: nat)
    requires
        e <= m,
        m == 10,
    ensures
        pow2(e) <= 1024,
    decreases m - e,
{
    if e < m {
        lemma_pow2_le(e + 1, m);
        assert(pow2(e + 1) == 2 * pow2(e));
    } else {
        reveal_with_fuel(pow2, 11);
        assert(pow2(10) == 1024);
    }
}

/// A key one octave up sounds at twice the frequency.
pub proof fn lemma_key_freq_octave(key: int)
    requires
        0 <= key,
    ensures
        spec_key_freq(key + 12) == 2 * spec_key_freq(key),
{
    assert((key + 12) % 12 == key % 12);
    assert((key + 12) / 12 == key / 12 + 1);
    assert(pow2((key / 12 + 1) as nat) == 2 * pow2((key / 12) as nat));
}

/// The phase increment per sample of a key at a sample rate.
pub fn key_pulse(key: u8, sample_rate: u32) -> (r: u32)
    requires
        key < 128,
        sample_rate > 0,
    ensures
        r == spec_key_pulse(key as int, sample_rate as int),
{
    let f = key_freq(key) as u128;
    let num = f * 0x1_0000_0000u128;
    let den = sample_rate as u128 * 1000000u128;
    ((num / den) % 0x1_0000_0000u128) as u32
}

// ---------------------------------------------------------------------------
// Envelope and voice
// ---------------------------------------------------------------------------

/// The shape of one note's envelope: stage lengths in samples and the two
/// gains it heads for.
#[derive(Clone, Copy, Debug, PartialEq, Eq, Structural)]
pub struct Envelope {
    pub attack_len: u64,
    pub decay_len: u64,
    pub release_len: u64,
    pub attack_gain: u64,
    pub sustain_gain: u64,
}

/// The envelope stage of a voice.
#[derive(Clone, Copy, Debug, PartialEq, Eq, Structural)]
pub enum State {
    Attack,
    Decay,
    Sustain,
    Release,
}

/// The envelope of a note struck with velocity `vel` at a sample rate.
pub open spec fn spec_envelope(vel: int, sample_rate: int) -> Envelope {
    Envelope {
        attack_len: (sample_rate * ATTACK_MS / 1000) as u64,
        decay_len: (sample_rate * DECAY_MS / 1000) as u64,
        release_len: (sample_rate * RELEASE_MS / 1000) as u64,
        attack_gain: (vel * GAIN_PER_VELOCITY) as u64,
        sustain_gain: (vel * SUSTAIN_PER_VELOCITY) as u64,
    }
}

impl Envelope {
    pub fn new(vel: u8, sample_rate: u32) -> (r: Envelope)
        requires
            vel < 128,
        ensures
            r == spec_envelope(vel as int, sample_rate as int),
    {
        let sr = sample_rate as u64;
        Envelope {
            attack_len: sr * ATTACK_MS / 1000,
            decay_len: sr * DECAY_MS / 1000,
            release_len: sr * RELEASE_MS / 1000,
            attack_gain: vel as u64 * GAIN_PER_VELOCITY,
            sustain_gain: vel as u64 * SUSTAIN_PER_VELOCITY,
        }
    }
}

/// One sounding note: its key, oscillator phase and increment, current
/// gain, envelope, stage, the samples spent in the stage, and the gain the
/// release started from.
#[derive(Clone, Copy, Debug, PartialEq, Eq, Structural)]
pub struct Voice {
    pub key: u8,
    pub phase: u32,
    pub pulse: u32,
    pub gain: u64,
    pub env: Envelope,
    pub state: State,
    pub step: u64,
    pub release_from: u64,
}

/// A stage counter one sample on (it stops at the top of its range).
pub open spec fn next_step(x: u64) -> u64 {
    if x < u64::MAX { (x + 1) as u64 } else { x }
}

/// The voice after one more sample, or `None` when its release has brought
/// the gain to zero and it is removed. The phase advances by the increment;
/// the attack rises linearly to the attack gain over `attack_len` samples,
/// the decay falls linearly to the sustain gain over `decay_len` samples, the
/// sustain holds, and the release falls from where it started by the sustain
/// gain every `release_len` samples.
pub open spec fn advance(v: Voice) -> Option<Voice> {
    let moved = Voice { phase: ((v.phase + v.pulse) % 0x1_0000_0000) as u32, ..v };
    let k = next_step(v.step);
    let env = v.env;
    match v.state {
        State::Attack => if k >= env.attack_len {
            Some(Voice { gain: env.attack_gain, state: State::Decay, step: 0, ..moved })
        } else {
            Some(Voice { gain: (env.attack_gain * k / (env.attack_len as int)) as u64, step: k, ..moved })
        },
        State::Decay => if k >= env.decay_len {
            Some(Voice { gain: env.sustain_gain, state: State::Sustain, step: 0, ..moved })
        } else {
            Some(
                Voice {
                    gain: (env.attack_gain - (env.attack_gain - env.sustain_gain) * k
                        / (env.decay_len as int)) as u64,
                    step: k,
                    ..moved
                },
            )
        },
        State::Sustain => Some(moved),
        State::Release => if env.release_len == 0 || env.sustain_gain * k / (env.release_len as int)
            >= v.release_from {
            None
        } else {
            Some(
                Voice {
                    gain: (v.release_from - env.sustain_gain * k / (env.release_len as int)) as u64,
                    step: k,
                    ..moved
                },
            )
        },
    }
}

/// The order of the stages: a voice's stage only moves forward.
pub open spec fn stage_rank(st: State) -> int {
    match st {
        State::Attack => 0,
        State::Decay => 1,
        State::Sustain => 2,
        State::Release => 3,
    }
}

/// The voice moved to its release, starting from its current gain.
pub open spec fn released(v: Voice) -> Voice {
    Voice { state: State::Release, step: 0, release_from: v.gain, ..v }
}

/// A wavetable: `TABLE_SIZE` entries shaped like one period of a sine.
pub open spec fn wave_ok(wave: Seq<i32>) -> bool {
    &&& wave.len() == TABLE_SIZE
    &&& forall|i: int| 0 <= i < wave.len() ==> entry_ok(i, #[trigger] wave[i])
}

/// An entry of a table shaped like one period of a sine: within
/// `-WAVE_ONE..=WAVE_ONE`, zero at the start and at the middle of the
/// period, positive in the first half and negative in the second.
pub open spec fn entry_ok(i: int, w: i32) -> bool {
    &&& -WAVE_ONE <= w <= WAVE_ONE
    &&& if i == 0 || i == TABLE_SIZE / 2 {
        w == 0
    } else if i < TABLE_SIZE / 2 {
        w > 0
    } else {
        w < 0
    }
}

/// What a voice adds to the current sample.
pub open spec fn voice_sample(v: Voice, wave: Seq<i32>) -> int {
    wave[(v.phase as int) / 0x40_0000] * v.gain
}

/// Adds a contribution to an output sample, clipping at the range of `i64`.
pub open spec fn mix(o: i64, c: int) -> i64 {
    if o + c > i64::MAX {
        i64::MAX
    } else if o + c < i64::MIN {
        i64::MIN
    } else {
        (o + c) as i64
    }
}

/// Runs a voice over samples `s..end` of `out`: each sample takes the
/// voice's contribution, then the voice advances. The result is the output
/// and the voice afterwards, `None` once it was removed.
pub open spec fn render_voice(v: Voice, wave: Seq<i32>, out: Seq<i64>, s: int, end: int) -> (Seq<
    i64,
>, Option<Voice>)
    decreases end - s,
{
    if s >= end {
        (out, Some(v))
    } else {
        let out2 = out.update(s, mix(out[s], voice_sample(v, wave)));
        match advance(v) {
            None => (out2, None),
            Some(v2) => render_voice(v2, wave, out2, s + 1, end),
        }
    }
}

fn mix_sample(o: i64, c: i64) -> (r: i64)
    ensures
        r == mix(o, c as int),
{
    if c > 0 && o > i64::MAX - c {
        i64::MAX
    } else if c < 0 && o < i64::MIN - c {
        i64::MIN
    } else {
        o + c
    }
}

proof fn lemma_mul_fits_u128(a: u64, b: u64)
    ensures
        (a as int) * (b as int) <= u128::MAX,
{
    assert((a as int) * (b as int) <= (u64::MAX as int) * (u64::MAX as int)) by (nonlinear_arith)
        requires
            0 <= a <= u64::MAX,
            0 <= b <= u64::MAX,
    ;
}

proof fn lemma_scaled_le(g: int, k: int, n: int)
    requires
        0 <= g,
        0 <= k <= n,
        0 < n,
    ensures
        0 <= g * k / n <= g,
{
    assert(0 <= g * k <= g * n) by (nonlinear_arith)
        requires
            0 <= g,
            0 <= k <= n,
    ;
    assert(g * k / n <= g * n / n) by (nonlinear_arith)
        requires
            g * k <= g * n,
            0 < n,
    ;
    assert(g * n / n == g) by (nonlinear_arith)
        requires
            0 < n,
    ;
    assert(0 <= g * k / n) by (nonlinear_arith)
        requires
            0 <= g * k,
            0 < n,
    ;
}

impl Voice {
    /// A voice's gains stay within its envelope's attack gain, which stays
    /// within full scale.
    pub open spec fn wf(&self) -> bool {
        &&& self.key < 128
        &&& self.env.attack_gain <= GAIN_ONE
        &&& self.env.sustain_gain <= self.env.attack_gain
        &&& self.gain <= self.env.attack_gain
        &&& self.release_from <= self.env.attack_gain
    }

    /// Advances the voice by one sample; `false` when it is removed.
    fn advance(&mut self) -> (alive: bool)
        requires
            old(self).wf(),
        ensures
            advance(*old(self)) == (if alive { Some(*final(self)) } else { None::<Voice> }),
            final(self).wf(),
            stage_rank(final(self).state) >= stage_rank(old(self).state),
            (final(self).state == State::Release) == (old(self).state == State::Release),
            !alive ==> final(self).state == State::Release && final(self).gain == 0,
    {
        self.phase = self.phase.wrapping_add(self.pulse);
        let k = if self.step < u64::MAX { self.step + 1 } else { self.step };
        let env = self.env;
        proof {
            lemma_mul_fits_u128(env.attack_gain, k);
            lemma_mul_fits_u128((env.attack_gain - env.sustain_gain) as u64, k);
            lemma_mul_fits_u128(env.sustain_gain, k);
        }
        match self.state {
            State::Attack => {
                if k >= env.attack_len {
                    self.gain = env.attack_gain;
                    self.state = State::Decay;
                    self.step = 0;
                } else {
                    proof {
                        lemma_scaled_le(env.attack_gain as int, k as int, env.attack_len as int);
                    }
                    let g = (env.attack_gain as u128 * k as u128) / env.attack_len as u128;
                    self.gain = g as u64;
                    self.step = k;
                }
                true
            },
            State::Decay => {
                if k >= env.decay_len {
                    self.gain = env.sustain_gain;
                    self.state = State::Sustain;
                    self.step = 0;
                } else {
                    let span = env.attack_gain - env.sustain_gain;
                    proof {
                        lemma_scaled_le(span as int, k as int, env.decay_len as int);
                    }
                    let fall = (span as u128 * k as u128) / env.decay_len as u128;
                    self.gain = env.attack_gain - fall as u64;
                    self.step = k;
                }
                true
            },
            State::Sustain => true,
            State::Release => {
                if env.release_len == 0 {
                    self.gain = 0;
                    return false;
                }
                let fall = (env.sustain_gain as u128 * k as u128) / env.release_len as u128;
                if fall >= self.release_from as u128 {
                    self.gain = 0;
                    false
                } else {
                    self.gain = self.release_from - fall as u64;
                    self.step = k;
                    true
                }
            },
        }
    }

    /// What the voice adds to the current sample.
    fn sample(&self, wave: &Vec<i32>) -> (r: i64)
        requires
            self.wf(),
            wave_ok(wave@),
        ensures
            r == voice_sample(*self, wave@),
    {
        let ph = self.phase;
        assert(ph >> 22u32 == ph / 0x40_0000) by (bit_vector);
        let idx = (ph >> 22u32) as usize;
        let w = wave[idx] as i64;
        let g = self.gain as i64;
        assert(-WAVE_ONE * GAIN_ONE <= w * g <= WAVE_ONE * GAIN_ONE) by (nonlinear_arith)
            requires
                -WAVE_ONE <= w <= WAVE_ONE,
                0 <= g <= GAIN_ONE,
        ;
        w * g
    }

    /// Runs the voice over samples `start..end`, adding its oscillator into
    /// `output`; `true` when its release ended within them and it is to be
    /// removed, in which case it is left in its release at gain zero. Its
    /// stage only moves forward, and never into or out of the release.
    pub fn run(&mut self, output: &mut Vec<i64>, start: usize, end: usize, wave: &Vec<i32>) -> (removed: bool)
        requires
            old(self).wf(),
            wave_ok(wave@),
            start <= end <= old(output)@.len(),
        ensures
            render_voice(*old(self), wave@, old(output)@, start as int, end as int) == (
                final(output)@,
                if removed { None::<Voice> } else { Some(*final(self)) },
            ),
            final(self).wf(),
            removed ==> final(self).state == State::Release && final(self).gain == 0,
            stage_rank(final(self).state) >= stage_rank(old(self).state),
            (final(self).state == State::Release) == (old(self).state == State::Release),
            final(output)@.len() == old(output)@.len(),
            forall|j: int|
                0 <= j < old(output)@.len() && !(start <= j < end) ==> #[trigger] final(output)@[j]
                    == old(output)@[j],
    {
        let mut s = start;
        while s < end
            invariant
                start <= s <= end <= output@.len(),
                output@.len() == old(output)@.len(),
                forall|j: int|
                    0 <= j < output@.len() && !(start <= j < end) ==> #[trigger] output@[j]
                        == old(output)@[j],
                self.wf(),
                stage_rank(self.state) >= stage_rank(old(self).state),
                (self.state == State::Release) == (old(self).state == State::Release),
                wave_ok(wave@),
                render_voice(*old(self), wave@, old(output)@, start as int, end as int)
                    == render_voice(*self, wave@, output@, s as int, end as int),
            decreases end - s,
        {
            let c = self.sample(wave);
            let o = mix_sample(output[s], c);
            output[s] = o;
            let alive = self.advance();
            if !alive {
                return true;
            }
            s = s + 1;
        }
        false
    }
}

// ---------------------------------------------------------------------------
// The voice pool and the block
// ---------------------------------------------------------------------------

/// What a synth is set up with: the sample rate, the type of MIDI events,
/// the phase increment of each key and the wavetable.
pub struct Config {
    pub sample_rate: u32,
    pub midi_event: urid::URID,
    pub pulses: Seq<u32>,
    pub wave: Seq<i32>,
}

/// The voice that a note-on of `key` with velocity `vel` starts.
pub open spec fn spec_new_voice(cfg: Config, key: u8, vel: u8) -> Voice {
    Voice {
        key,
        phase: 0,
        pulse: cfg.pulses[key as int],
        gain: 0,
        env: spec_envelope(vel as int, cfg.sample_rate as int),
        state: State::Attack,
        step: 0,
        release_from: 0,
    }
}

/// The first free slot at or after `i`, or the pool's length if none is.
pub open spec fn first_free(pool: Seq<Option<Voice>>, i: int) -> int
    decreases pool.len() - i,
{
    if i < 0 || i >= pool.len() {
        pool.len() as int
    } else if pool[i] is None {
        i
    } else {
        first_free(pool, i + 1)
    }
}

/// Whether slot `i` holds a voice of `key`.
pub open spec fn holds_key(pool: Seq<Option<Voice>>, key: u8, i: int) -> bool {
    match pool[i] {
        Some(v) => v.key == key,
        None => false,
    }
}

/// The first slot at or after `i` that holds a voice of `key`, or the
/// pool's length if none does.
pub open spec fn first_held(pool: Seq<Option<Voice>>, key: u8, i: int) -> int
    decreases pool.len() - i,
{
    if i < 0 || i >= pool.len() {
        pool.len() as int
    } else if holds_key(pool, key, i) {
        i
    } else {
        first_held(pool, key, i + 1)
    }
}

/// A note-on takes the first free slot; with none free the note is dropped.
pub open spec fn note_on_pool(pool: Seq<Option<Voice>>, cfg: Config, key: u8, vel: u8) -> Seq<
    Option<Voice>,
> {
    let i = first_free(pool, 0);
    if i < pool.len() {
        pool.update(i, Some(spec_new_voice(cfg, key, vel)))
    } else {
        pool
    }
}

/// A note-off releases the first voice of its key; a voice already in its
/// release stays as it is, and with no voice of the key nothing changes.
pub open spec fn note_off_pool(pool: Seq<Option<Voice>>, key: u8) -> Seq<Option<Voice>> {
    let i = first_held(pool, key, 0);
    if i < pool.len() && pool[i]->Some_0.state != State::Release {
        pool.update(i, Some(released(pool[i]->Some_0)))
    } else {
        pool
    }
}

/// The pool after a recognised note message, or unchanged without one.
pub open spec fn apply_note(pool: Seq<Option<Voice>>, cfg: Config, note: Option<NoteEvent>) -> Seq<
    Option<Voice>,
> {
    match note {
        Some(NoteEvent::On { key, velocity }) => note_on_pool(pool, cfg, key, velocity),
        Some(NoteEvent::Off { key }) => note_off_pool(pool, key),
        None => pool,
    }
}

/// `out` with samples `start..end` set to zero.
pub open spec fn zero_range(out: Seq<i64>, start: int, end: int) -> Seq<i64> {
    Seq::new(out.len(), |s: int| if start <= s < end { 0i64 } else { out[s] })
}

/// Runs the voices of slots `i..` in slot order over samples `start..end`,
/// freeing the slot of each voice that is removed.
pub open spec fn render_pool(
    pool: Seq<Option<Voice>>,
    wave: Seq<i32>,
    out: Seq<i64>,
    i: int,
    start: int,
    end: int,
) -> (Seq<Option<Voice>>, Seq<i64>)
    decreases pool.len() - i,
{
    if i < 0 || i >= pool.len() {
        (pool, out)
    } else {
        match pool[i] {
            None => render_pool(pool, wave, out, i + 1, start, end),
            Some(v) => {
                let r = render_voice(v, wave, out, start, end);
                render_pool(pool.update(i, r.1), wave, r.0, i + 1, start, end)
            },
        }
    }
}

/// Clears samples `start..end`, then lets every voice add into them.
pub open spec fn run_span(pool: Seq<Option<Voice>>, wave: Seq<i32>, out: Seq<i64>, start: int, end: int) -> (
    Seq<Option<Voice>>,
    Seq<i64>,
) {
    render_pool(pool, wave, zero_range(out, start, end), 0, start, end)
}

/// Where an event at time `frames` splits a block of `n` samples whose
/// samples before `offset` are done: its time, kept within `offset..=n`.
pub open spec fn split_point(frames: i64, offset: int, n: int) -> int {
    if frames < offset {
        offset
    } else if frames > n {
        n
    } else {
        frames as int
    }
}

/// Processes a block of `n` samples from `offset` on: at each MIDI event the
/// voices run up to its time, then its note message (if any) acts on the
/// pool; other events are passed over; after the last event the voices run
/// to the end of the block.
pub open spec fn run_events(
    pool: Seq<Option<Voice>>,
    cfg: Config,
    out: Seq<i64>,
    evs: Seq<EventView>,
    offset: int,
    n: int,
) -> (Seq<Option<Voice>>, Seq<i64>)
    decreases evs.len(),
{
    if evs.len() == 0 {
        run_span(pool, cfg.wave, out, offset, n)
    } else if evs[0].type_urid != cfg.midi_event {
        run_events(pool, cfg, out, evs.drop_first(), offset, n)
    } else {
        let at = split_point(evs[0].frames, offset, n);
        let r = run_span(pool, cfg.wave, out, offset, at);
        run_events(
            apply_note(r.0, cfg, spec_note_event(evs[0].contents)),
            cfg,
            r.1,
            evs.drop_first(),
            at,
            n,
        )
    }
}

/// The synthesizer: its set-up values and a fixed pool of voice slots.
pub struct Synth {
    sample_rate: u32,
    midi_event: urid::URID,
    voices: Vec<Option<Voice>>,
    pulses: Vec<u32>,
    wave: Vec<i32>,
}

/// A pool with every slot free.
pub open spec fn empty_pool() -> Seq<Option<Voice>> {
    Seq::new(VOICES as nat, |i: int| None::<Voice>)
}

/// The phase increment of every key.
pub open spec fn spec_pulses(sample_rate: u32) -> Seq<u32> {
    Seq::new(128, |k: int| spec_key_pulse(k, sample_rate as int) as u32)
}

impl Synth {
    pub closed spec fn config(&self) -> Config {
        Config {
            sample_rate: self.sample_rate,
            midi_event: self.midi_event,
            pulses: self.pulses@,
            wave: self.wave@,
        }
    }

    /// The voice slots.
    pub closed spec fn pool(&self) -> Seq<Option<Voice>> {
        self.voices@
    }

    /// Thirty-two slots, one increment per key, a valid wavetable, and
    /// well-formed voices.
    pub closed spec fn wf(&self) -> bool {
        &&& self.voices@.len() == VOICES
        &&& self.pulses@.len() == 128
        &&& wave_ok(self.wave@)
        &&& forall|i: int| 0 <= i < self.voices@.len() ==> pool_slot_ok(#[trigger] self.voices@[i])
    }

    /// A synth for a sample rate, the identifier of MIDI events and a
    /// wavetable. `None` when the identifier was not resolved (zero), the
    /// sample rate is zero or the wavetable is not valid.
    pub fn new(sample_rate: u32, midi_event: urid::URID, wave: Vec<i32>) -> (r: Option<Synth>)
        ensures
            r is Some <==> (midi_event != 0 && sample_rate > 0 && wave_ok(wave@)),
            r matches Some(s) ==> s.wf() && s.config() == (Config {
                sample_rate,
                midi_event,
                pulses: spec_pulses(sample_rate),
                wave: wave@,
            }) && s.pool() == empty_pool(),
    {
        if midi_event == 0 || sample_rate == 0 || !check_wave(&wave) {
            return None;
        }
        let mut pulses: Vec<u32> = Vec::new();
        let mut key: u8 = 0;
        while key < 128
            invariant
                0 <= key <= 128,
                sample_rate > 0,
                pulses@ =~= spec_pulses(sample_rate).subrange(0, key as int),
            decreases 128 - key,
        {
            pulses.push(key_pulse(key, sample_rate));
            key = key + 1;
        }
        let mut voices: Vec<Option<Voice>> = Vec::new();
        let mut i: usize = 0;
        while i < VOICES
            invariant
                0 <= i <= VOICES,
                voices@ =~= Seq::new(i as nat, |j: int| None::<Voice>),
            decreases VOICES - i,
        {
            voices.push(None);
            i = i + 1;
        }
        let synth = Synth { sample_rate, midi_event, voices, pulses, wave };
        assert(synth.pulses@ =~= spec_pulses(sample_rate));
        Some(synth)
    }

    /// The voice in slot `i`.
    pub fn voice(&self, i: usize) -> (r: Option<Voice>)
        requires
            self.wf(),
            i < VOICES,
        ensures
            r == self.pool()[i as int],
    {
        self.voices[i]
    }

    /// The number of sounding voices.
    pub fn active_voices(&self) -> (r: usize)
        requires
            self.wf(),
        ensures
            r == count_active(self.pool(), VOICES as int),
    {
        let mut n: usize = 0;
        let mut i: usize = 0;
        while i < VOICES
            invariant
                0 <= i <= VOICES,
                self.wf(),
                n == count_active(self.voices@, i as int),
                n <= i,
            decreases VOICES - i,
        {
            if self.voices[i].is_some() {
                n = n + 1;
            }
            i = i + 1;
        }
        n
    }
}

/// The number of occupied slots among the first `i`.
pub open spec fn count_active(pool: Seq<Option<Voice>>, i: int) -> int
    decreases i,
{
    if i <= 0 {
        0
    } else {
        count_active(pool, i - 1) + if pool[i - 1] is Some { 1int } else { 0 }
    }
}

/// A slot is free or holds a well-formed voice.
pub open spec fn pool_slot_ok(slot: Option<Voice>) -> bool {
    match slot {
        Some(v) => v.wf(),
        None => true,
    }
}

/// Whether `wave` is a valid wavetable.
fn check_wave(wave: &Vec<i32>) -> (r: bool)
    ensures
        r == wave_ok(wave@),
{
    if wave.len() != TABLE_SIZE {
        return false;
    }
    let mut i: usize = 0;
    while i < wave.len()
        invariant
            0 <= i <= wave@.len(),
            wave@.len() == TABLE_SIZE,
            forall|j: int| 0 <= j < i ==> entry_ok(j, #[trigger] wave@[j]),
        decreases wave@.len() - i,
    {
        let w = wave[i];
        if w < -WAVE_ONE || w > WAVE_ONE {
            return false;
        }
        let ok = if i == 0 || i == TABLE_SIZE / 2 {
            w == 0
        } else if i < TABLE_SIZE / 2 {
            w > 0
        } else {
            w < 0
        };
        if !ok {
            return false;
        }
        i = i + 1;
    }
    true
}

impl Synth {
    /// Starts a voice for `key` in the first free slot; with every slot
    /// taken the note is dropped and nothing changes.
    pub fn note_on(&mut self, key: u8, vel: u8)
        requires
            old(self).wf(),
            key < 128,
            vel < 128,
        ensures
            final(self).wf(),
            final(self).config() == old(self).config(),
            final(self).pool() == note_on_pool(old(self).pool(), old(self).config(), key, vel),
    {
        let mut i: usize = 0;
        while i < VOICES
            invariant
                0 <= i <= VOICES,
                self.wf(),
                *self == *old(self),
                key < 128,
                vel < 128,
                first_free(self.voices@, i as int) == first_free(self.voices@, 0),
            decreases VOICES - i,
        {
            if self.voices[i].is_none() {
                let v = Voice::new(self, key, vel);
                self.voices[i] = Some(v);
                return;
            }
            i = i + 1;
        }
    }

    /// Releases the first voice of `key`; a voice already in its release
    /// stays as it is, and with no voice of the key nothing changes.
    pub fn note_off(&mut self, key: u8)
        requires
            old(self).wf(),
        ensures
            final(self).wf(),
            final(self).config() == old(self).config(),
            final(self).pool() == note_off_pool(old(self).pool(), key),
    {
        let mut i: usize = 0;
        while i < VOICES
            invariant
                0 <= i <= VOICES,
                self.wf(),
                *self == *old(self),
                first_held(self.voices@, key, i as int) == first_held(self.voices@, key, 0),
            decreases VOICES - i,
        {
            match self.voices[i] {
                Some(v) => {
                    if v.key == key {
                        if !matches!(v.state, State::Release) {
                            let r = Voice {
                                state: State::Release,
                                step: 0,
                                release_from: v.gain,
                                ..v
                            };
                            self.voices[i] = Some(r);
                        }
                        return;
                    }
                },
                None => {},
            }
            i = i + 1;
        }
    }

    /// Clears samples `start..end` of `output` and runs every voice over
    /// them, freeing the slots of voices whose release ends there.
    pub fn run_voices(&mut self, output: &mut Vec<i64>, start: usize, end: usize)
        requires
            old(self).wf(),
            start <= end <= old(output)@.len(),
        ensures
            final(self).wf(),
            final(self).config() == old(self).config(),
            (final(self).pool(), final(output)@) == run_span(
                old(self).pool(),
                old(self).config().wave,
                old(output)@,
                start as int,
                end as int,
            ),
            final(output)@.len() == old(output)@.len(),
    {
        let mut s = start;
        while s < end
            invariant
                start <= s <= end <= output@.len(),
                output@.len() == old(output)@.len(),
                forall|j: int|
                    0 <= j < output@.len() ==> #[trigger] output@[j] == (if start <= j < s {
                        0i64
                    } else {
                        old(output)@[j]
                    }),
            decreases end - s,
        {
            output[s] = 0;
            s = s + 1;
        }
        assert(output@ =~= zero_range(old(output)@, start as int, end as int));
        let mut i: usize = 0;
        while i < VOICES
            invariant
                0 <= i <= VOICES,
                self.wf(),
                self.config() == old(self).config(),
                start <= end <= output@.len(),
                output@.len() == old(output)@.len(),
                run_span(old(self).pool(), old(self).config().wave, old(output)@, start as int, end as int)
                    == render_pool(self.voices@, self.wave@, output@, i as int, start as int, end as int),
            decreases VOICES - i,
        {
            match self.voices[i] {
                Some(v) => {
                    let mut v = v;
                    assert(pool_slot_ok(self.voices@[i as int]));
                    let removed = v.run(output, start, end, &self.wave);
                    if removed {
                        self.voices[i] = None;
                    } else {
                        self.voices[i] = Some(v);
                    }
                },
                None => {},
            }
            i = i + 1;
        }
    }

    /// Processes one block of `sample_count` samples: renders the voices
    /// into `output` and acts on the note messages of the MIDI events of
    /// `input` at their times.
    pub fn run(&mut self, input: &Sequence, output: &mut Vec<i64>, sample_count: usize)
        requires
            old(self).wf(),
            sample_count <= old(output)@.len(),
        ensures
            final(self).wf(),
            final(self).config() == old(self).config(),
            (final(self).pool(), final(output)@) == run_events(
                old(self).pool(),
                old(self).config(),
                old(output)@,
                input.spec_events(),
                0,
                sample_count as int,
            ),
    {
        let mut it = input.iter();
        let mut offset: usize = 0;
        loop
            invariant
                self.wf(),
                self.config() == old(self).config(),
                offset <= sample_count <= output@.len(),
                output@.len() == old(output)@.len(),
                run_events(old(self).pool(), old(self).config(), old(output)@, input.spec_events(), 0, sample_count as int)
                    == run_events(self.pool(), self.config(), output@, it.pending(), offset as int, sample_count as int),
            decreases it.pending().len(),
        {
            let ghost pending = it.pending();
            match it.next() {
                None => {
                    self.run_voices(output, offset, sample_count);
                    return;
                },
                Some(ev) => {
                    assert(pending.drop_first() == it.pending());
                    if ev.type_urid() == self.midi_event {
                        let frames = ev.time_frames();
                        let at: usize = if frames <= 0 {
                            offset
                        } else {
                            let f = frames as u64;
                            if f < offset as u64 {
                                offset
                            } else if f > sample_count as u64 {
                                sample_count
                            } else {
                                f as usize
                            }
                        };
                        assert(at == split_point(frames, offset as int, sample_count as int));
                        self.run_voices(output, offset, at);
                        match crate::midi::note_event(ev.contents()) {
                            Some(NoteEvent::On { key, velocity }) => self.note_on(key, velocity),
                            Some(NoteEvent::Off { key }) => self.note_off(key),
                            None => {},
                        }
                        offset = at;
                    }
                },
            }
        }
    }
}

impl Voice {
    /// A voice for a note-on of `key` with velocity `vel`, at its key's
    /// phase increment.
    pub fn new(synth: &Synth, key: u8, vel: u8) -> (r: Voice)
        requires
            synth.wf(),
            key < 128,
            vel < 128,
        ensures
            r == spec_new_voice(synth.config(), key, vel),
            r.wf(),
    {
        Voice {
            key,
            phase: 0,
            pulse: synth.pulses[key as usize],
            gain: 0,
            env: Envelope::new(vel, synth.sample_rate),
            state: State::Attack,
            step: 0,
            release_from: 0,
        }
    }
}

/// Index of the synth's event input port.
pub const PORT_INPUT: usize = 0;

/// Index of the synth's audio output port.
pub const PORT_OUTPUT: usize = 1;

/// The synth's raw port table.
#[derive(Clone, Copy, Debug, PartialEq, Eq, Structural)]
pub struct SynthPortsRaw {
    pub input: usize,
    pub output: usize,
}

/// The synth's ports for one block.
#[derive(Clone, Copy, Debug, PartialEq, Eq, Structural)]
pub struct SynthPorts {
    pub input: SequenceRef,
    pub output: AudioMut,
}

impl Ported for Synth {
    type Ports = SynthPorts;

    type PortsRaw = SynthPortsRaw;

    open spec fn port_count() -> nat {
        2
    }

    open spec fn slot(raw: SynthPortsRaw, i: int) -> usize {
        if i == 0 {
            raw.input
        } else {
            raw.output
        }
    }

    open spec fn views(ports: SynthPorts, raw: SynthPortsRaw, sample_count: usize) -> bool {
        &&& InputSequence::views(ports.input, raw.input, sample_count)
        &&& OutputAudio::views(ports.output, raw.output, sample_count)
    }

    fn new_ports_raw() -> SynthPortsRaw {
        SynthPortsRaw { input: InputSequence::new_raw(), output: OutputAudio::new_raw() }
    }

    fn connect_port(port: usize, data: usize, ports_raw: &mut SynthPortsRaw) {
        match port {
            PORT_INPUT => {
                ports_raw.input = InputSequence::cast_raw(data);
            },
            PORT_OUTPUT => {
                ports_raw.output = OutputAudio::cast_raw(data);
            },
            _ => {},
        }
    }

    fn convert_ports(ports_raw: SynthPortsRaw, sample_count: usize) -> SynthPorts {
        SynthPorts {
            input: InputSequence::convert(ports_raw.input, sample_count),
            output: OutputAudio::convert(ports_raw.output, sample_count),
        }
    }
}

proof fn lemma_first_free_none(pool: Seq<Option<Voice>>, i: int)
    requires
        0 <= i,
        forall|j: int| i <= j < pool.len() ==> #[trigger] pool[j] is Some,
    ensures
        first_free(pool, i) == pool.len(),
    decreases pool.len() - i,
{
    if i < pool.len() {
        lemma_first_free_none(pool, i + 1);
    }
}

proof fn lemma_first_held_none(pool: Seq<Option<Voice>>, key: u8, i: int)
    requires
        0 <= i,
        forall|j: int| i <= j < pool.len() ==> !#[trigger] holds_key(pool, key, j),
    ensures
        first_held(pool, key, i) == pool.len(),
    decreases pool.len() - i,
{
    if i < pool.len() {
        lemma_first_held_none(pool, key, i + 1);
    }
}

/// With every slot taken, a note-on leaves the pool as it was: no voice is
/// stolen and none is added.
pub proof fn lemma_full_pool_drops_note_on(
    pool: Seq<Option<Voice>>,
    cfg: Config,
    key: u8,
    vel: u8,
)
    requires
        forall|i: int| 0 <= i < pool.len() ==> #[trigger] pool[i] is Some,
    ensures
        note_on_pool(pool, cfg, key, vel) == pool,
{
    lemma_first_free_none(pool, 0);
}

/// A note-off for a key that no voice sounds leaves the pool as it was.
pub proof fn lemma_unmatched_note_off(pool: Seq<Option<Voice>>, key: u8)
    requires
        forall|i: int| 0 <= i < pool.len() ==> !#[trigger] holds_key(pool, key, i),
    ensures
        note_off_pool(pool, key) == pool,
{
    lemma_first_held_none(pool, key, 0);
}

impl Synth {
    /// A well-formed synth has `VOICES` slots.
    pub proof fn lemma_pool_len(&self)
        requires
            self.wf(),
        ensures
            self.pool().len() == VOICES,
    {
    }
}

/// With every slot of a synth sounding, a note-on changes nothing: no
/// voice is stolen and none is added.
pub proof fn lemma_synth_full_drops_note_on(synth: &Synth, key: u8, vel: u8)
    requires
        synth.wf(),
        forall|i: int| 0 <= i < VOICES ==> #[trigger] synth.pool()[i] is Some,
    ensures
        note_on_pool(synth.pool(), synth.config(), key, vel) == synth.pool(),
{
    synth.lemma_pool_len();
    lemma_full_pool_drops_note_on(synth.pool(), synth.config(), key, vel);
}

proof fn lemma_render_voice_frame(v: Voice, wave: Seq<i32>, out: Seq<i64>, s: int, end: int)
    requires
        0 <= s,
        end <= out.len(),
    ensures
        render_voice(v, wave, out, s, end).0.len() == out.len(),
        forall|j: int|
            0 <= j < out.len() && !(s <= j < end) ==> #[trigger] render_voice(
                v,
                wave,
                out,
                s,
                end,
            ).0[j] == out[j],
    decreases end - s,
{
    if s < end {
        let out2 = out.update(s, mix(out[s], voice_sample(v, wave)));
        match advance(v) {
            None => {},
            Some(v2) => {
                lemma_render_voice_frame(v2, wave, out2, s + 1, end);
            },
        }
    }
}

proof fn lemma_render_pool_frame(
    pool: Seq<Option<Voice>>,
    wave: Seq<i32>,
    out: Seq<i64>,
    i: int,
    start: int,
    end: int,
)
    requires
        0 <= start,
        end <= out.len(),
    ensures
        render_pool(pool, wave, out, i, start, end).1.len() == out.len(),
        forall|j: int|
            0 <= j < out.len() && !(start <= j < end) ==> #[trigger] render_pool(
                pool,
                wave,
                out,
                i,
                start,
                end,
            ).1[j] == out[j],
    decreases pool.len() - i,
{
    if 0 <= i < pool.len() {
        match pool[i] {
            None => {
                lemma_render_pool_frame(pool, wave, out, i + 1, start, end);
            },
            Some(v) => {
                let r = render_voice(v, wave, out, start, end);
                lemma_render_voice_frame(v, wave, out, start, end);
                lemma_render_pool_frame(pool.update(i, r.1), wave, r.0, i + 1, start, end);
            },
        }
    }
}

proof fn lemma_render_pool_silent(
    pool: Seq<Option<Voice>>,
    wave: Seq<i32>,
    out: Seq<i64>,
    i: int,
    start: int,
    end: int,
)
    requires
        0 <= i,
        forall|j: int| i <= j < pool.len() ==> #[trigger] pool[j] is None,
    ensures
        render_pool(pool, wave, out, i, start, end) == (pool, out),
    decreases pool.len() - i,
{
    if i < pool.len() {
        lemma_render_pool_silent(pool, wave, out, i + 1, start, end);
    }
}

/// A block that starts with no voice sounding and whose one event is a
/// MIDI event at time `frames` within the block is silent before that
/// time.
pub proof fn lemma_silence_before_first_note(
    cfg: Config,
    out: Seq<i64>,
    evs: Seq<EventView>,
    n: int,
)
    requires
        evs.len() == 1,
        evs[0].type_urid == cfg.midi_event,
        0 <= evs[0].frames <= n <= out.len(),
    ensures
        forall|s: int|
            0 <= s < evs[0].frames ==> #[trigger] run_events(
                empty_pool(),
                cfg,
                out,
                evs,
                0,
                n,
            ).1[s] == 0,
{
    let empty = empty_pool();
    let at = evs[0].frames as int;
    assert(split_point(evs[0].frames, 0, n) == at);
    let z = zero_range(out, 0, at);
    lemma_render_pool_silent(empty, cfg.wave, z, 0, 0, at);
    let r = run_span(empty, cfg.wave, out, 0, at);
    assert(r == (empty, z));
    let p2 = apply_note(empty, cfg, spec_note_event(evs[0].contents));
    let z2 = zero_range(z, at, n);
    assert(evs.drop_first().len() == 0);
    assert(run_events(p2, cfg, z, evs.drop_first(), at, n) == run_span(p2, cfg.wave, z, at, n));
    assert(run_events(empty, cfg, out, evs, 0, n) == run_span(p2, cfg.wave, z, at, n));
    lemma_render_pool_frame(p2, cfg.wave, z2, 0, at, n);
    assert forall|s: int| 0 <= s < at implies #[trigger] run_events(
        empty,
        cfg,
        out,
        evs,
        0,
        n,
    ).1[s] == 0 by {
        assert(render_pool(p2, cfg.wave, z2, 0, at, n).1[s] == z2[s]);
    }
}

proof fn lemma_release_steps(v: Voice, wave: Seq<i32>, out: Seq<i64>, s: int, end: int)
    requires
        v.state == State::Release,
        0 < v.env.sustain_gain,
        v.release_from == v.env.sustain_gain,
        0 <= v.step < v.env.release_len,
        0 <= s,
        end <= out.len(),
        end - s >= v.env.release_len - v.step,
    ensures
        render_voice(v, wave, out, s, end).1 is None,
    decreases v.env.release_len - v.step,
{
    let r = v.env.release_len as int;
    let g = v.env.sustain_gain as int;
    let k = v.step + 1;
    assert(next_step(v.step) == k);
    let out2 = out.update(s, mix(out[s], voice_sample(v, wave)));
    if k == r {
        assert(g * k / r == g) by (nonlinear_arith)
            requires
                k == r,
                r > 0,
        ;
        assert(advance(v) is None);
    } else {
        assert(g * k / r < g) by (nonlinear_arith)
            requires
                0 < k < r,
                g > 0,
        ;
        let v2 = advance(v)->Some_0;
        assert(v2.step == k && v2.state == State::Release && v2.env == v.env && v2.release_from
            == v.release_from);
        lemma_release_steps(v2, wave, out2, s + 1, end);
    }
}

/// A voice released from its sustain gain is removed within its release
/// length: run over at least `release_len` samples, it is gone.
pub proof fn lemma_release_ends(v: Voice, wave: Seq<i32>, out: Seq<i64>, s: int, end: int)
    requires
        v.state == State::Release,
        v.step == 0,
        0 < v.env.sustain_gain,
        v.release_from == v.env.sustain_gain,
        0 < v.env.release_len,
        0 <= s,
        end <= out.len(),
        end - s >= v.env.release_len,
    ensures
        render_voice(v, wave, out, s, end).1 is None,
{
    lemma_release_steps(v, wave, out, s, end);
}

/// With no voice sounding, running a span of the block clears it and leaves
/// the pool empty.
pub proof fn lemma_silent_span(wave: Seq<i32>, out: Seq<i64>, start: int, end: int)
    ensures
        run_span(empty_pool(), wave, out, start, end) == (
            empty_pool(),
            zero_range(out, start, end),
        ),
{
    lemma_render_pool_silent(empty_pool(), wave, zero_range(out, start, end), 0, start, end);
}

/// A note struck into a silent block sounds on the sample after its event,
/// when one sample of attack already gives it a gain and its phase
/// increment lands within the first half of the wavetable's period past the
/// first entry (as every key's does at common sample rates).
pub proof fn lemma_note_sounds_after_onset(
    cfg: Config,
    out: Seq<i64>,
    evs: Seq<EventView>,
    n: int,
    key: u8,
    vel: u8,
)
    requires
        wave_ok(cfg.wave),
        cfg.pulses.len() == 128,
        evs.len() == 1,
        evs[0].type_urid == cfg.midi_event,
        0 <= evs[0].frames,
        evs[0].frames + 1 < n <= out.len(),
        spec_note_event(evs[0].contents) == Some(NoteEvent::On { key, velocity: vel }),
        key < 128,
        0 < vel < 128,
        0x40_0000 <= cfg.pulses[key as int] < 0x8000_0000,
        vel * GAIN_PER_VELOCITY >= cfg.sample_rate * ATTACK_MS / 1000,
    ensures
        run_events(empty_pool(), cfg, out, evs, 0, n).1[evs[0].frames + 1] != 0,
{
    let empty = empty_pool();
    let wave = cfg.wave;
    let f = evs[0].frames as int;
    assert(split_point(evs[0].frames, 0, n) == f);
    let z = zero_range(out, 0, f);
    lemma_silent_span(wave, out, 0, f);
    assert(first_free(empty, 0) == 0);
    let v = spec_new_voice(cfg, key, vel);
    let p2 = empty.update(0, Some(v));
    assert(apply_note(empty, cfg, spec_note_event(evs[0].contents)) == p2);
    assert(evs.drop_first().len() == 0);
    assert(run_events(p2, cfg, z, evs.drop_first(), f, n) == run_span(p2, wave, z, f, n));
    assert(run_events(empty, cfg, out, evs, 0, n) == run_span(p2, wave, z, f, n));
    let zz = zero_range(z, f, n);
    let r = render_voice(v, wave, zz, f, n);
    assert(render_pool(p2, wave, zz, 0, f, n) == render_pool(p2.update(0, r.1), wave, r.0, 1, f, n));
    lemma_render_pool_silent(p2.update(0, r.1), wave, r.0, 1, f, n);
    // The first sample of the note: zero gain.
    assert(voice_sample(v, wave) == 0);
    let out1 = zz.update(f, mix(zz[f], 0));
    let v2 = advance(v)->Some_0;
    let a = v.env.attack_len as int;
    let target = v.env.attack_gain as int;
    assert(target == vel * GAIN_PER_VELOCITY);
    assert(a == cfg.sample_rate * ATTACK_MS / 1000);
    assert(next_step(v.step) == 1);
    assert(target <= GAIN_ONE);
    assert(0 < v2.gain <= GAIN_ONE) by {
        if 1 < a {
            assert(target * 1 / a >= 1) by (nonlinear_arith)
                requires
                    target >= a,
                    a > 1,
            ;
            lemma_scaled_le(target, 1, a);
            assert(v2.gain == target * 1 / a);
        } else {
            assert(v2.gain == target);
        }
    }
    assert(v2.phase == cfg.pulses[key as int]);
    assert(r == render_voice(v2, wave, out1, f + 1, n));
    // The second sample: a nonzero table entry times a positive gain.
    let idx = (v2.phase as int) / 0x40_0000;
    assert(1 <= idx < TABLE_SIZE / 2);
    assert(entry_ok(idx, wave[idx]));
    let c = voice_sample(v2, wave);
    assert(c > 0) by (nonlinear_arith)
        requires
            c == wave[idx] * v2.gain,
            wave[idx] > 0,
            v2.gain > 0,
    ;
    assert(c <= WAVE_ONE * GAIN_ONE) by (nonlinear_arith)
        requires
            c == wave[idx] * v2.gain,
            wave[idx] <= WAVE_ONE,
            v2.gain <= GAIN_ONE,
    ;
    assert(out1[f + 1] == 0);
    let out2 = out1.update(f + 1, mix(out1[f + 1], c));
    assert(out2[f + 1] != 0);
    match advance(v2) {
        None => {},
        Some(v3) => {
            lemma_render_voice_frame(v3, wave, out2, f + 2, n);
            assert(render_voice(v3, wave, out2, f + 2, n).0[f + 1] == out2[f + 1]);
        },
    }
}

} // verus!
