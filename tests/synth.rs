use lv2::port::{InputAudio, InputControl, OutputControl, Port, Ported};
use lv2::sequence::Sequence;
use lv2::synth::{
    key_freq, key_pulse, Envelope, State, Synth, SynthPortsRaw, Voice, GAIN_ONE, TABLE_SIZE,
    VOICES, WAVE_ONE,
};

const MIDI: u32 = 7;

fn sine() -> Vec<i32> {
    (0..TABLE_SIZE)
        .map(|i| {
            let x = 2.0 * std::f64::consts::PI * i as f64 / TABLE_SIZE as f64;
            (x.sin() * WAVE_ONE as f64).round() as i32
        })
        .collect()
}

fn event(frames: i64, type_urid: u32, body: &[u8]) -> Vec<u8> {
    let mut b = Vec::new();
    b.extend_from_slice(&frames.to_le_bytes());
    b.extend_from_slice(&(body.len() as u32).to_le_bytes());
    b.extend_from_slice(&type_urid.to_le_bytes());
    b.extend_from_slice(body);
    while b.len() % 8 != 0 {
        b.push(0);
    }
    b
}

fn sequence(events: &[Vec<u8>]) -> Vec<u8> {
    let body: Vec<u8> = events.concat();
    let mut b = Vec::new();
    b.extend_from_slice(&(8 + body.len() as u32).to_le_bytes());
    b.extend_from_slice(&50u32.to_le_bytes());
    b.extend_from_slice(&51u32.to_le_bytes());
    b.extend_from_slice(&0u32.to_le_bytes());
    b.extend_from_slice(&body);
    b
}

fn run_block(synth: &mut Synth, events: &[Vec<u8>], n: usize) -> Vec<i64> {
    let bytes = sequence(events);
    let seq = Sequence::from_bytes(&bytes).unwrap();
    let mut out = vec![0i64; n];
    synth.run(&seq, &mut out, n);
    out
}

fn synth48k() -> Synth {
    Synth::new(48000, MIDI, sine()).unwrap()
}

#[test]
fn key_frequency_mapping() {
    assert_eq!(key_freq(69), 440_000_000);
    assert_eq!(key_freq(81), 880_000_000);
    assert_eq!(key_freq(57), 220_000_000);
    for k in 0u8..116 {
        assert_eq!(key_freq(k + 12), 2 * key_freq(k));
    }
    let f60 = key_freq(60) as f64 / 1e6;
    assert!((f60 - 261.6256).abs() < 1e-3);
}

#[test]
fn key_pulse_is_frequency_over_rate() {
    // 440 Hz at 44 kHz is a hundredth of a turn per sample.
    assert_eq!(key_pulse(69, 44000), 42949672);
}

#[test]
fn envelope_lengths_and_gains() {
    let e = Envelope::new(127, 48000);
    assert_eq!(e.attack_len, 4800);
    assert_eq!(e.decay_len, 4800);
    assert_eq!(e.release_len, 4800);
    assert_eq!(e.attack_gain, GAIN_ONE);
    assert_eq!(e.sustain_gain * 20, GAIN_ONE * 17);
}

#[test]
fn setup_fails_without_midi_identifier() {
    assert!(Synth::new(48000, 0, sine()).is_none());
    assert!(Synth::new(0, MIDI, sine()).is_none());
    assert!(Synth::new(48000, MIDI, vec![0; 10]).is_none());
    assert!(Synth::new(48000, MIDI, vec![0; TABLE_SIZE]).is_none());
    let mut flipped = sine();
    flipped[100] = -flipped[100];
    assert!(Synth::new(48000, MIDI, flipped).is_none());
    let mut loud = sine();
    loud[3] = WAVE_ONE + 1;
    assert!(Synth::new(48000, MIDI, loud).is_none());
    let s = Synth::new(48000, MIDI, sine()).unwrap();
    assert_eq!(s.active_voices(), 0);
}

#[test]
fn single_note_lifecycle() {
    let mut synth = synth48k();
    run_block(&mut synth, &[event(0, MIDI, &[0x90, 69, 127])], 4800);
    let v: Voice = synth.voice(0).unwrap();
    assert_eq!(synth.active_voices(), 1);
    assert_eq!(v.key, 69);
    assert_eq!(v.gain, GAIN_ONE);
    assert!(v.state == State::Decay);

    // Through the decay into the sustain.
    run_block(&mut synth, &[], 4800);
    let v = synth.voice(0).unwrap();
    assert!(v.state == State::Sustain);
    assert_eq!(v.gain * 20, GAIN_ONE * 17);

    // A note-off moves it to its release, which lasts the release time.
    run_block(&mut synth, &[event(0, MIDI, &[0x80, 69, 0])], 4799);
    let v = synth.voice(0).unwrap();
    assert!(v.state == State::Release);
    assert!(v.gain > 0);
    run_block(&mut synth, &[], 1);
    assert!(synth.voice(0).is_none());
    assert_eq!(synth.active_voices(), 0);
    let out = run_block(&mut synth, &[], 64);
    assert!(out.iter().all(|&x| x == 0));
}

#[test]
fn pool_exhaustion_drops_note() {
    let mut synth = synth48k();
    for k in 0..VOICES as u8 {
        synth.note_on(30 + k, 100);
    }
    assert_eq!(synth.active_voices(), VOICES);
    let before: Vec<Option<Voice>> = (0..VOICES).map(|i| synth.voice(i)).collect();
    synth.note_on(100, 100);
    assert_eq!(synth.active_voices(), VOICES);
    let after: Vec<Option<Voice>> = (0..VOICES).map(|i| synth.voice(i)).collect();
    assert!(before == after);
    assert!(after.iter().all(|v| v.unwrap().key != 100));
}

#[test]
fn thirty_third_note_on_in_a_block_is_dropped() {
    let mut synth = synth48k();
    let events: Vec<Vec<u8>> =
        (0..33u8).map(|k| event(k as i64, MIDI, &[0x90, 40 + k, 90])).collect();
    run_block(&mut synth, &events, 64);
    assert_eq!(synth.active_voices(), VOICES);
    assert!((0..VOICES).all(|i| synth.voice(i).unwrap().key != 72));
}

#[test]
fn mid_block_split() {
    let mut synth = synth48k();
    let out = run_block(&mut synth, &[event(32, MIDI, &[0x90, 69, 127])], 64);
    assert!(out[..32].iter().all(|&x| x == 0));
    assert!(out[32..].iter().any(|&x| x != 0));
    assert_eq!(synth.active_voices(), 1);
}

#[test]
fn unmatched_note_off_changes_nothing() {
    let mut synth = synth48k();
    synth.note_on(60, 100);
    let before: Vec<Option<Voice>> = (0..VOICES).map(|i| synth.voice(i)).collect();
    synth.note_off(61);
    let after: Vec<Option<Voice>> = (0..VOICES).map(|i| synth.voice(i)).collect();
    assert!(before == after);

    let mut empty = synth48k();
    empty.note_off(69);
    assert_eq!(empty.active_voices(), 0);
}

#[test]
fn note_off_releases_only_the_first_voice_of_the_key() {
    let mut synth = synth48k();
    synth.note_on(60, 100);
    synth.note_on(60, 100);
    synth.note_off(60);
    assert!(synth.voice(0).unwrap().state == State::Release);
    assert!(synth.voice(1).unwrap().state == State::Attack);
    let before: Vec<Option<Voice>> = (0..VOICES).map(|i| synth.voice(i)).collect();
    // The first voice of the key is already releasing: nothing changes.
    synth.note_off(60);
    let after: Vec<Option<Voice>> = (0..VOICES).map(|i| synth.voice(i)).collect();
    assert!(before == after);
    assert!(synth.voice(1).unwrap().state == State::Attack);
}

#[test]
fn voices_sum_into_the_output() {
    let mut a = synth48k();
    let mut b = synth48k();
    let mut both = synth48k();
    let oa = run_block(&mut a, &[event(0, MIDI, &[0x90, 60, 100])], 256);
    let ob = run_block(&mut b, &[event(0, MIDI, &[0x90, 67, 80])], 256);
    let ab = run_block(
        &mut both,
        &[event(0, MIDI, &[0x90, 60, 100]), event(0, MIDI, &[0x90, 67, 80])],
        256,
    );
    for s in 0..256 {
        assert_eq!(ab[s], oa[s] + ob[s]);
    }
}

#[test]
fn events_of_other_types_are_skipped() {
    let mut synth = synth48k();
    let out = run_block(&mut synth, &[event(0, MIDI + 1, &[0x90, 69, 127])], 64);
    assert_eq!(synth.active_voices(), 0);
    assert!(out.iter().all(|&x| x == 0));
    run_block(&mut synth, &[event(0, MIDI, &[0xB0, 7, 127])], 64);
    assert_eq!(synth.active_voices(), 0);
}

#[test]
fn output_block_is_cleared_before_rendering() {
    let mut synth = synth48k();
    let bytes = sequence(&[]);
    let seq = Sequence::from_bytes(&bytes).unwrap();
    let mut out = vec![5i64; 16];
    synth.run(&seq, &mut out, 8);
    assert!(out[..8].iter().all(|&x| x == 0));
    assert!(out[8..].iter().all(|&x| x == 5));
}

#[test]
fn port_table_connects_declared_ports_only() {
    let mut raw: SynthPortsRaw = Synth::new_ports_raw();
    assert_eq!(raw, SynthPortsRaw { input: 0, output: 0 });
    Synth::connect_port(0, 1000, &mut raw);
    Synth::connect_port(1, 2000, &mut raw);
    let before = raw;
    Synth::connect_port(2, 3000, &mut raw);
    Synth::connect_port(99, 3000, &mut raw);
    assert_eq!(raw, before);
    Synth::connect_port(1, 4000, &mut raw);
    let ports = Synth::convert_ports(raw, 64);
    assert_eq!(ports.input.addr, 1000);
    assert_eq!(ports.output.addr, 4000);
    assert_eq!(ports.output.len, 64);
}

#[test]
fn port_kinds_view_their_slots() {
    assert_eq!(InputControl::new_raw(), 0);
    assert_eq!(InputControl::convert(InputControl::cast_raw(8), 32).addr, 8);
    assert_eq!(OutputControl::convert(16, 32).addr, 16);
    let a = InputAudio::convert(24, 32);
    assert_eq!((a.addr, a.len), (24, 32));
}

#[test]
fn removed_voice_frees_its_slot_mid_block() {
    let mut synth = synth48k();
    synth.note_on(69, 127);
    run_block(&mut synth, &[], 9600);
    assert!(synth.voice(0).unwrap().state == State::Sustain);
    synth.note_off(69);
    let out = run_block(&mut synth, &[], 6000);
    assert!(synth.voice(0).is_none());
    // Nothing sounds once the release has ended.
    assert!(out[4800..].iter().all(|&x| x == 0));
}
