//! Sequence atoms: a time unit followed by time-stamped events, each an
//! 8-byte time and a nested atom, padded to 8 bytes. Iteration is lazy,
//! forward-only and never reads past the size that the sequence declares.
use vstd::prelude::*;
use vstd::slice::slice_subrange;

use crate::atom::{
    header_bytes, le32_bytes, le64_bytes, le_u32, le_u64, lemma_le32, lemma_le64, lemma_pad8,
    pad8, pad_size, parse_pair, read_pair, read_u32, read_u64, signed64, to_i64, unsigned64, Atom,
    Header, CLASS_SEQUENCE,
};
use crate::urid;

verus! {

/// What an event holds: its time in frames (or a beat position stored
/// bit for bit in the same 8 bytes), and its nested atom's header and body.
pub struct EventView {
    pub frames: i64,
    pub size: u32,
    pub type_urid: urid::URID,
    pub contents: Seq<u8>,
}

/// The events of an event region `b` from byte offset `pos` on. An event
/// whose header, or body padded to 8 bytes, would reach past the end of the
/// region is clipped: the sequence ends before it.
pub open spec fn events_from(b: Seq<u8>, pos: int) -> Seq<EventView>
    decreases b.len() - pos,
{
    if pos < 0 || pos + 16 > b.len() {
        seq![]
    } else {
        let size = le_u32(b, pos + 8);
        if pos + 16 + pad8(size) > b.len() {
            seq![]
        } else {
            let ev = EventView {
                frames: signed64(le_u64(b, pos)) as i64,
                size: size as u32,
                type_urid: le_u32(b, pos + 12) as u32,
                contents: b.subrange(pos + 16, pos + 16 + size),
            };
            let next = pos + 16 + pad8(size);
            if next >= b.len() {
                seq![ev]
            } else {
                seq![ev] + events_from(b, next)
            }
        }
    }
}

/// One time-stamped event of a sequence, viewing the sequence's buffer.
pub struct Event<'a> {
    pub frames: i64,
    pub body: Header,
    pub contents: &'a [u8],
}

impl<'a> Event<'a> {
    pub open spec fn view(&self) -> EventView {
        EventView {
            frames: self.frames,
            size: self.body.size,
            type_urid: self.body.type_urid,
            contents: self.contents@,
        }
    }

    /// The event's time as a frame count.
    pub fn time_frames(&self) -> (r: i64)
        ensures
            r == self.frames,
    {
        self.frames
    }

    pub fn type_urid(&self) -> (r: urid::URID)
        ensures
            r == self.body.type_urid,
    {
        self.body.type_urid
    }

    pub fn size(&self) -> (r: usize)
        ensures
            r == self.body.size,
    {
        self.body.size as usize
    }

    /// The body of the event's nested atom.
    pub fn contents(&self) -> (r: &'a [u8])
        ensures
            r@ == self.contents@,
    {
        self.contents
    }
}

/// The time unit that leads a sequence's body, and its padding.
#[derive(Clone, Copy, Debug)]
pub struct SequenceBody {
    pub unit: urid::URID,
    pub pad: u32,
}

/// A sequence atom: its header, its time unit and its event region.
pub struct Sequence<'a> {
    pub header: Header,
    pub body: SequenceBody,
    pub events: &'a [u8],
}

/// A position in a sequence's event region.
pub struct SequenceIter<'a> {
    events: &'a [u8],
    pos: usize,
}

impl<'a> Sequence<'a> {
    /// Decodes the sequence atom that `b` frames; `None` when `b` does not
    /// hold the header, the time unit and the whole declared body.
    pub fn from_bytes(b: &'a [u8]) -> (r: Option<Sequence<'a>>)
        ensures
            match r {
                Some(s) => parse_pair(b@) == Some((s.header, s.body.unit, s.body.pad, s.events@)),
                None => parse_pair(b@) is None,
            },
    {
        match read_pair(b) {
            None => None,
            Some((header, unit, pad, events)) => Some(
                Sequence { header, body: SequenceBody { unit, pad }, events },
            ),
        }
    }

    /// The events that the sequence holds, in order.
    pub open spec fn spec_events(&self) -> Seq<EventView> {
        events_from(self.events@, 0)
    }

    /// A fresh iterator at the first event.
    pub fn iter(&self) -> (r: SequenceIter<'a>)
        ensures
            r.pending() == self.spec_events(),
    {
        SequenceIter { events: self.events, pos: 0 }
    }
}

impl<'a> Atom for Sequence<'a> {
    open spec fn spec_header(&self) -> Header {
        self.header
    }

    fn type_uri() -> &'static str {
        CLASS_SEQUENCE
    }

    fn header(&self) -> Header {
        self.header
    }
}

impl<'a> SequenceIter<'a> {
    /// The events that are still to come.
    pub closed spec fn pending(&self) -> Seq<EventView> {
        events_from(self.events@, self.pos as int)
    }

    /// The next event, or `None` at the end of the sequence.
    pub fn next(&mut self) -> (r: Option<Event<'a>>)
        ensures
            old(self).pending().len() == 0 ==> r is None && final(self).pending().len() == 0,
            old(self).pending().len() > 0 ==> r is Some && r->Some_0.view()
                == old(self).pending()[0] && final(self).pending()
                == old(self).pending().drop_first(),
    {
        let n = self.events.len();
        let p = self.pos;
        if p > n || n - p < 16 {
            return None;
        }
        let size = read_u32(self.events, p + 8);
        if n - p - 16 < size as usize {
            proof {
                lemma_pad8(size as int);
            }
            return None;
        }
        proof {
            lemma_pad8(size as int);
        }
        let padding = pad_size(size as usize) - size as usize;
        if n - p - 16 - (size as usize) < padding {
            return None;
        }
        let frames = to_i64(read_u64(self.events, p));
        let type_urid = read_u32(self.events, p + 12);
        let contents = slice_subrange(self.events, p + 16, p + 16 + size as usize);
        let ev = Event { frames, body: Header { size, type_urid }, contents };
        let ghost old_pending = events_from(self.events@, p as int);
        if n - p - 16 - (size as usize) == padding {
            self.pos = n;
            assert(old_pending == seq![ev.view()]);
        } else {
            self.pos = p + 16 + size as usize + padding;
            assert(old_pending == seq![ev.view()] + events_from(self.events@, self.pos as int));
            assert(old_pending.drop_first() =~= events_from(self.events@, self.pos as int));
        }
        Some(ev)
    }
}

// ---------------------------------------------------------------------------
// Encoding events, and what iteration makes of it
// ---------------------------------------------------------------------------

/// `n` zero bytes.
pub open spec fn zeros(n: int) -> Seq<u8> {
    Seq::new(n as nat, |i: int| 0u8)
}

/// An event as it is laid out: time, nested header, body, padding.
pub open spec fn encode_event(e: EventView) -> Seq<u8> {
    le64_bytes(unsigned64(e.frames as int)) + header_bytes(
        Header { size: e.size, type_urid: e.type_urid },
    ) + e.contents + zeros(pad8(e.size as int) - e.size)
}

/// Events laid out back to back.
pub open spec fn encode_events(evs: Seq<EventView>) -> Seq<u8>
    decreases evs.len(),
{
    if evs.len() == 0 {
        seq![]
    } else {
        encode_event(evs[0]) + encode_events(evs.drop_first())
    }
}

/// An event whose declared size is the length of its body.
pub open spec fn well_formed_event(e: EventView) -> bool {
    e.contents.len() == e.size
}

/// A whole sequence atom: header, time unit, zero padding, events.
pub open spec fn sequence_bytes(type_urid: urid::URID, unit: urid::URID, evs: Seq<EventView>) -> Seq<
    u8,
> {
    header_bytes(Header { size: (8 + encode_events(evs).len()) as u32, type_urid }) + le32_bytes(
        unit as int,
    ) + le32_bytes(0) + encode_events(evs)
}

proof fn lemma_events_shift(a: Seq<u8>, b: Seq<u8>, p: int)
    requires
        0 <= p,
    ensures
        events_from(a + b, a.len() + p) == events_from(b, p),
    decreases b.len() - p,
{
    let c = a + b;
    let q = a.len() + p;
    if p + 16 <= b.len() {
        assert forall|k: int| p <= k < b.len() implies c[a.len() + k] == #[trigger] b[k] by {}
        assert(c[q + 8] == b[p + 8] && c[q + 9] == b[p + 9] && c[q + 10] == b[p + 10] && c[q + 11]
            == b[p + 11]);
        assert(le_u32(c, q + 8) == le_u32(b, p + 8));
        let size = le_u32(b, p + 8);
        if p + 16 + size <= b.len() {
            assert(c[q] == b[p] && c[q + 1] == b[p + 1] && c[q + 2] == b[p + 2] && c[q + 3] == b[p
                + 3]);
            assert(c[q + 4] == b[p + 4] && c[q + 5] == b[p + 5] && c[q + 6] == b[p + 6] && c[q + 7]
                == b[p + 7]);
            assert(c[q + 12] == b[p + 12] && c[q + 13] == b[p + 13] && c[q + 14] == b[p + 14] && c[q
                + 15] == b[p + 15]);
            assert(c.subrange(q + 16, q + 16 + size) =~= b.subrange(p + 16, p + 16 + size));
            lemma_pad8(size);
            let next = p + 16 + pad8(size);
            if next < b.len() {
                lemma_events_shift(a, b, next);
            }
        }
    }
}

/// The fields at the start of an encoded event read back as the event.
proof fn lemma_decode_head(e: EventView, tail: Seq<u8>)
    requires
        well_formed_event(e),
    ensures
        ({
            let enc = encode_event(e) + tail;
            &&& encode_event(e).len() == 16 + pad8(e.size as int)
            &&& le_u32(enc, 8) == e.size
            &&& signed64(le_u64(enc, 0)) == e.frames
            &&& le_u32(enc, 12) == e.type_urid
            &&& enc.subrange(16, 16 + e.size) == e.contents
        }),
{
    let s = e.size as int;
    lemma_pad8(s);
    let a = le64_bytes(unsigned64(e.frames as int));
    let h = header_bytes(Header { size: e.size, type_urid: e.type_urid });
    let head = encode_event(e);
    let enc = head + tail;
    assert(head == a + h + e.contents + zeros(pad8(s) - s));
    assert(enc.subrange(0, 8) =~= a);
    assert(enc.subrange(8, 12) =~= le32_bytes(s));
    assert(enc.subrange(12, 16) =~= le32_bytes(e.type_urid as int));
    assert(enc.subrange(16, 16 + s) =~= e.contents);
    lemma_le64(enc, 0, unsigned64(e.frames as int));
    lemma_le32(enc, 8, s);
    lemma_le32(enc, 12, e.type_urid as int);
}

/// An encoded event followed by more bytes yields that event, then what the
/// bytes after it yield.
proof fn lemma_first_event(e: EventView, tail: Seq<u8>)
    requires
        well_formed_event(e),
    ensures
        events_from(encode_event(e) + tail, 0) == seq![e] + events_from(tail, 0),
{
    let head = encode_event(e);
    let enc = head + tail;
    lemma_decode_head(e, tail);
    lemma_pad8(e.size as int);
    let ev = EventView {
        frames: signed64(le_u64(enc, 0)) as i64,
        size: le_u32(enc, 8) as u32,
        type_urid: le_u32(enc, 12) as u32,
        contents: enc.subrange(16, 16 + le_u32(enc, 8)),
    };
    assert(ev == e);
    if head.len() >= enc.len() {
        assert(tail.len() == 0);
        assert(events_from(tail, 0) == Seq::<EventView>::empty());
        assert(events_from(enc, 0) == seq![e]);
        assert(seq![e] + events_from(tail, 0) =~= seq![e]);
    } else {
        lemma_events_shift(head, tail, 0);
        assert(events_from(enc, 0) == seq![e] + events_from(enc, head.len() as int));
    }
}

/// Iterating over events laid out back to back yields exactly those events,
/// in their order.
pub proof fn lemma_events_round_trip(evs: Seq<EventView>)
    requires
        forall|i: int| 0 <= i < evs.len() ==> well_formed_event(#[trigger] evs[i]),
    ensures
        events_from(encode_events(evs), 0) == evs,
    decreases evs.len(),
{
    if evs.len() == 0 {
        assert(events_from(encode_events(evs), 0) =~= evs);
    } else {
        let rest = evs.drop_first();
        assert(well_formed_event(evs[0]));
        assert forall|i: int| 0 <= i < rest.len() implies well_formed_event(#[trigger] rest[i]) by {
            assert(rest[i] == evs[i + 1]);
        }
        lemma_events_round_trip(rest);
        lemma_first_event(evs[0], encode_events(rest));
        assert(seq![evs[0]] + rest =~= evs);
    }
}

/// A sequence atom built from well-formed events decodes to a header that
/// declares its size, the time unit, and an event region whose iteration
/// yields exactly those events, in their order, each time it is iterated.
pub proof fn lemma_sequence_round_trip(
    type_urid: urid::URID,
    unit: urid::URID,
    evs: Seq<EventView>,
)
    requires
        forall|i: int| 0 <= i < evs.len() ==> well_formed_event(#[trigger] evs[i]),
        8 + encode_events(evs).len() <= u32::MAX,
    ensures
        parse_pair(sequence_bytes(type_urid, unit, evs)) == Some(
            (
                Header { size: (8 + encode_events(evs).len()) as u32, type_urid },
                unit,
                0u32,
                encode_events(evs),
            ),
        ),
        events_from(encode_events(evs), 0) == evs,
{
    let enc = encode_events(evs);
    let b = sequence_bytes(type_urid, unit, evs);
    let size = 8 + enc.len() as int;
    let p = header_bytes(Header { size: size as u32, type_urid }) + le32_bytes(unit as int)
        + le32_bytes(0);
    assert(b == p + enc);
    assert(p.len() == 16);
    assert forall|k: int| 0 <= k < 16 implies #[trigger] b[k] == p[k] by {}
    assert(p.subrange(0, 4) =~= le32_bytes(size));
    assert(p.subrange(4, 8) =~= le32_bytes(type_urid as int));
    assert(p.subrange(8, 12) =~= le32_bytes(unit as int));
    assert(p.subrange(12, 16) =~= le32_bytes(0));
    lemma_le32(p, 0, size);
    lemma_le32(p, 4, type_urid as int);
    lemma_le32(p, 8, unit as int);
    lemma_le32(p, 12, 0);
    assert(le_u32(b, 0) == le_u32(p, 0));
    assert(le_u32(b, 4) == le_u32(p, 4));
    assert(le_u32(b, 8) == le_u32(p, 8));
    assert(le_u32(b, 12) == le_u32(p, 12));
    assert(crate::atom::body_from(b, 16) =~= enc);
    lemma_events_round_trip(evs);
}

} // verus!
