use lv2::atom::Atom;
use lv2::sequence::Sequence;

fn event(frames: i64, type_urid: u32, body: &[u8]) -> Vec<u8> {
    let mut b = Vec::new();
    b.extend_from_slice(&frames.to_le_bytes());
    b.extend_from_slice(&(body.len() as u32).to_le_bytes());
    b.extend_from_slice(&type_urid.to_le_bytes());
    b.extend_from_slice(body);
    while b.len() % 8 != 0 {
        b.push(0);
    }
    b
}

fn sequence(events: &[Vec<u8>]) -> Vec<u8> {
    let body: Vec<u8> = events.concat();
    let mut b = Vec::new();
    b.extend_from_slice(&(8 + body.len() as u32).to_le_bytes());
    b.extend_from_slice(&50u32.to_le_bytes());
    b.extend_from_slice(&51u32.to_le_bytes());
    b.extend_from_slice(&0u32.to_le_bytes());
    b.extend_from_slice(&body);
    b
}

fn collect(seq: &Sequence) -> Vec<(i64, u32, Vec<u8>)> {
    let mut out = Vec::new();
    let mut it = seq.iter();
    while let Some(ev) = it.next() {
        out.push((ev.time_frames(), ev.type_urid(), ev.contents().to_vec()));
    }
    out
}

#[test]
fn iterates_every_event_in_order() {
    let b = sequence(&[
        event(0, 7, &[0x90, 60, 100]),
        event(10, 7, &[0x80, 60, 0]),
        event(10, 8, &[1, 2, 3, 4, 5, 6, 7, 8, 9]),
        event(63, 7, &[]),
    ]);
    let seq = Sequence::from_bytes(&b).unwrap();
    assert_eq!(seq.body.unit, 51);
    assert_eq!(seq.type_urid(), 50);
    let evs = collect(&seq);
    assert_eq!(evs.len(), 4);
    assert_eq!(evs[0], (0, 7, vec![0x90, 60, 100]));
    assert_eq!(evs[1], (10, 7, vec![0x80, 60, 0]));
    assert_eq!(evs[2], (10, 8, vec![1, 2, 3, 4, 5, 6, 7, 8, 9]));
    assert_eq!(evs[3], (63, 7, vec![]));
    assert!(evs.windows(2).all(|w| w[0].0 <= w[1].0));
}

#[test]
fn iterating_twice_gives_the_same_events() {
    let b = sequence(&[event(1, 7, &[1]), event(2, 7, &[2, 2]), event(3, 7, &[3, 3, 3])]);
    let seq = Sequence::from_bytes(&b).unwrap();
    let first = collect(&seq);
    let second = collect(&seq);
    assert_eq!(first.len(), 3);
    assert_eq!(first, second);
}

#[test]
fn empty_sequence_yields_nothing() {
    let b = sequence(&[]);
    let seq = Sequence::from_bytes(&b).unwrap();
    assert!(seq.iter().next().is_none());
}

#[test]
fn event_reaching_past_declared_size_is_clipped() {
    let mut b = sequence(&[event(0, 7, &[1, 2, 3]), event(5, 7, &[4, 5, 6, 7, 8, 9])]);
    // Declare a size that ends inside the second event's body.
    let declared = 8 + 16 + 16 + 3;
    b[0..4].copy_from_slice(&(declared as u32).to_le_bytes());
    let seq = Sequence::from_bytes(&b).unwrap();
    let evs = collect(&seq);
    assert_eq!(evs, vec![(0, 7, vec![1, 2, 3])]);
}

#[test]
fn negative_and_beat_times_keep_their_bits() {
    let beats = 2.5f64.to_bits() as i64;
    let b = sequence(&[event(-3, 7, &[]), event(beats, 7, &[])]);
    let seq = Sequence::from_bytes(&b).unwrap();
    let evs = collect(&seq);
    assert_eq!(evs[0].0, -3);
    assert_eq!(f64::from_bits(evs[1].0 as u64), 2.5);
}

#[test]
fn sequence_larger_than_buffer_is_refused() {
    let mut b = sequence(&[event(0, 7, &[1])]);
    let size = u32::from_le_bytes([b[0], b[1], b[2], b[3]]) + 8;
    b[0..4].copy_from_slice(&size.to_le_bytes());
    assert!(Sequence::from_bytes(&b).is_none());
}

#[test]
fn event_whose_padding_passes_declared_size_is_clipped() {
    // A sequence declaring 27 bytes: time unit and pad, then one event
    // with a 3-byte body and no room for its padding.
    let mut b = Vec::new();
    b.extend_from_slice(&27u32.to_le_bytes());
    b.extend_from_slice(&50u32.to_le_bytes());
    b.extend_from_slice(&51u32.to_le_bytes());
    b.extend_from_slice(&0u32.to_le_bytes());
    b.extend_from_slice(&0i64.to_le_bytes());
    b.extend_from_slice(&3u32.to_le_bytes());
    b.extend_from_slice(&7u32.to_le_bytes());
    b.extend_from_slice(&[1, 2, 3]);
    assert_eq!(b.len(), 35);
    let seq = Sequence::from_bytes(&b).unwrap();
    assert!(seq.iter().next().is_none());
}
