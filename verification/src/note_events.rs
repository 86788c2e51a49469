//! CLAP-shaped note / expression / per-note-mod events for `process`.
//!
//! Additive to 7-bit MIDI. Wrappers keep filling MIDI; plugins that need
//! `note_id` or expressions read this list. Velocities, expression values
//! and parameter amounts are the host's `f64` values, carried here as their
//! IEEE-754 bit patterns (`f64::to_bits`); the library never computes on them.

use vstd::prelude::*;
use crate::chunked_process::TimedParamEvent;

verus! {

/// Wildcard used by CLAP when a field is unspecified (`-1`).
pub const NOTE_UNSPECIFIED: i32 = -1;

/// Note-scope fields shared by CLAP note / expression / per-note-mod events.
#[derive(Clone, Copy, Debug, PartialEq, Eq, Structural)]
pub struct NoteTarget {
    pub note_id: i32,
    pub port_index: i16,
    pub channel: i16,
    pub key: i16,
}

impl NoteTarget {
    /// All fields unspecified (`-1`).
    pub fn unspecified() -> (t: Self)
        ensures
            t.note_id == -1 && t.port_index == -1 && t.channel == -1 && t.key == -1,
    {
        NoteTarget { note_id: NOTE_UNSPECIFIED, port_index: -1, channel: -1, key: -1 }
    }
}

/// CLAP note-expression id. Unknown values stay raw.
#[derive(Clone, Copy, Debug, PartialEq, Eq, Structural)]
pub enum NoteExpression {
    Volume,
    Pan,
    Tuning,
    Vibrato,
    Expression,
    Brightness,
    Pressure,
    /// Spec id we do not name yet — still delivered.
    Other(i32),
}

pub open spec fn expression_of(id: i32) -> NoteExpression {
    if id == 0 {
        NoteExpression::Volume
    } else if id == 1 {
        NoteExpression::Pan
    } else if id == 2 {
        NoteExpression::Tuning
    } else if id == 3 {
        NoteExpression::Vibrato
    } else if id == 4 {
        NoteExpression::Expression
    } else if id == 5 {
        NoteExpression::Brightness
    } else if id == 6 {
        NoteExpression::Pressure
    } else {
        NoteExpression::Other(id)
    }
}

pub open spec fn clap_id_of(e: NoteExpression) -> i32 {
    match e {
        NoteExpression::Volume => 0,
        NoteExpression::Pan => 1,
        NoteExpression::Tuning => 2,
        NoteExpression::Vibrato => 3,
        NoteExpression::Expression => 4,
        NoteExpression::Brightness => 5,
        NoteExpression::Pressure => 6,
        NoteExpression::Other(id) => id,
    }
}

impl NoteExpression {
    pub fn from_clap(id: i32) -> (e: Self)
        ensures
            e == expression_of(id),
    {
        match id {
            0 => NoteExpression::Volume,
            1 => NoteExpression::Pan,
            2 => NoteExpression::Tuning,
            3 => NoteExpression::Vibrato,
            4 => NoteExpression::Expression,
            5 => NoteExpression::Brightness,
            6 => NoteExpression::Pressure,
            other => NoteExpression::Other(other),
        }
    }

    pub fn to_clap(self) -> (id: i32)
        ensures
            id == clap_id_of(self),
    {
        match self {
            NoteExpression::Volume => 0,
            NoteExpression::Pan => 1,
            NoteExpression::Tuning => 2,
            NoteExpression::Vibrato => 3,
            NoteExpression::Expression => 4,
            NoteExpression::Brightness => 5,
            NoteExpression::Pressure => 6,
            NoteExpression::Other(id) => id,
        }
    }
}

/// Every CLAP expression id survives a decode / encode round trip.
pub proof fn lemma_expression_id_round_trip(id: i32)
    ensures
        clap_id_of(expression_of(id)) == id,
{
}

/// A named expression, or an `Other` id outside the named range, survives
/// an encode / decode round trip.
pub proof fn lemma_expression_round_trip(e: NoteExpression)
    requires
        !(e matches NoteExpression::Other(id) && 0 <= id <= 6),
    ensures
        expression_of(clap_id_of(e)) == e,
{
}

/// The CLAP note-expression ids: 0 volume, 1 pan, 2 tuning, 3 vibrato,
/// 4 expression, 5 brightness, 6 pressure. Decoding gives and encoding
/// sends exactly these; every other id is kept as it is.
pub proof fn lemma_clap_expression_ids(other: i32)
    requires
        !(0 <= other <= 6),
    ensures
        expression_of(0) == NoteExpression::Volume,
        expression_of(1) == NoteExpression::Pan,
        expression_of(2) == NoteExpression::Tuning,
        expression_of(3) == NoteExpression::Vibrato,
        expression_of(4) == NoteExpression::Expression,
        expression_of(5) == NoteExpression::Brightness,
        expression_of(6) == NoteExpression::Pressure,
        expression_of(other) == NoteExpression::Other(other),
        clap_id_of(NoteExpression::Volume) == 0,
        clap_id_of(NoteExpression::Pan) == 1,
        clap_id_of(NoteExpression::Tuning) == 2,
        clap_id_of(NoteExpression::Vibrato) == 3,
        clap_id_of(NoteExpression::Expression) == 4,
        clap_id_of(NoteExpression::Brightness) == 5,
        clap_id_of(NoteExpression::Pressure) == 6,
        clap_id_of(NoteExpression::Other(other)) == other,
{
}

/// What happened to a (possibly scoped) note. Float payloads are `f64` bits.
#[derive(Clone, Copy, Debug, PartialEq, Eq, Structural)]
pub enum NoteEventKind {
    On { velocity: u64 },
    Off { velocity: u64 },
    Choke,
    /// The voice for this note has finished (plugin → host `NOTE_END`).
    End,
    Expression { id: NoteExpression, value: u64 },
    /// Per-note `PARAM_MOD` (`note_id >= 0`).
    ParamMod { param_id: u32, amount: u64 },
    /// Per-note `PARAM_VALUE` (`note_id >= 0`). Absolute plain value.
    ParamValue { param_id: u32, plain: u64 },
}

/// One timed note-scoped event inside a process block.
#[derive(Clone, Copy, Debug, PartialEq, Eq, Structural)]
pub struct NoteEvent {
    pub sample_offset: u32,
    /// Host note id, or [`NOTE_UNSPECIFIED`].
    pub note_id: i32,
    pub port_index: i16,
    pub channel: i16,
    pub key: i16,
    pub kind: NoteEventKind,
}

/// `-1` fields are wildcards on either side.
pub open spec fn event_matches(ev: NoteEvent, note_id: i32, key: i16) -> bool {
    (ev.note_id < 0 || note_id < 0 || ev.note_id == note_id) && (ev.key < 0 || key < 0 || ev.key
        == key)
}

impl NoteEvent {
    pub fn on(sample_offset: u32, note_id: i32, key: i16, velocity: u64) -> (e: Self)
        ensures
            e == (NoteEvent {
                sample_offset,
                note_id,
                port_index: 0,
                channel: 0,
                key,
                kind: NoteEventKind::On { velocity },
            }),
    {
        NoteEvent {
            sample_offset,
            note_id,
            port_index: 0,
            channel: 0,
            key,
            kind: NoteEventKind::On { velocity },
        }
    }

    pub fn off(sample_offset: u32, note_id: i32, key: i16, velocity: u64) -> (e: Self)
        ensures
            e == (NoteEvent {
                sample_offset,
                note_id,
                port_index: 0,
                channel: 0,
                key,
                kind: NoteEventKind::Off { velocity },
            }),
    {
        NoteEvent {
            sample_offset,
            note_id,
            port_index: 0,
            channel: 0,
            key,
            kind: NoteEventKind::Off { velocity },
        }
    }

    pub fn end(sample_offset: u32, note_id: i32, key: i16) -> (e: Self)
        ensures
            e == (NoteEvent {
                sample_offset,
                note_id,
                port_index: 0,
                channel: 0,
                key,
                kind: NoteEventKind::End,
            }),
    {
        NoteEvent { sample_offset, note_id, port_index: 0, channel: 0, key, kind: NoteEventKind::End }
    }

    /// True when this event applies to the sounding voice (`-1` = wildcard).
    pub fn matches_voice(self, note_id: i32, key: i16) -> (b: bool)
        ensures
            b == event_matches(self, note_id, key),
    {
        let id_ok = self.note_id < 0 || note_id < 0 || self.note_id == note_id;
        let key_ok = self.key < 0 || key < 0 || self.key == key;
        id_ok && key_ok
    }
}

/// Events are ordered by sample offset (equal offsets keep arrival order).
pub open spec fn sorted_by_offset(s: Seq<NoteEvent>) -> bool {
    forall|i: int, j: int| 0 <= i <= j < s.len() ==> s[i].sample_offset <= s[j].sample_offset
}

/// `k` splits `s` into the events at or before `off` and those after it.
pub open spec fn is_upper_bound(s: Seq<NoteEvent>, off: u32, k: int) -> bool {
    &&& 0 <= k <= s.len()
    &&& forall|j: int| 0 <= j < k ==> s[j].sample_offset <= off
    &&& forall|j: int| k <= j < s.len() ==> s[j].sample_offset > off
}

/// The insertion point after every event at or before `off`.
pub open spec fn upper_bound(s: Seq<NoteEvent>, off: u32) -> int {
    choose|k: int| is_upper_bound(s, off, k)
}

/// Ordered insertion: after all events with the same or an earlier offset.
pub open spec fn insert_sorted(s: Seq<NoteEvent>, ev: NoteEvent) -> Seq<NoteEvent> {
    s.insert(upper_bound(s, ev.sample_offset), ev)
}

/// Ordered insertion of each event in turn.
pub open spec fn insert_all(s: Seq<NoteEvent>, evs: Seq<NoteEvent>) -> Seq<NoteEvent>
    decreases evs.len(),
{
    if evs.len() == 0 {
        s
    } else {
        insert_sorted(insert_all(s, evs.drop_last()), evs.last())
    }
}

/// The upper bound is unique.
pub proof fn lemma_upper_bound_unique(s: Seq<NoteEvent>, off: u32, k: int)
    requires
        is_upper_bound(s, off, k),
    ensures
        upper_bound(s, off) == k,
{
    let c = upper_bound(s, off);
    assert(is_upper_bound(s, off, c));
    if c < k {
        assert(s[c].sample_offset <= off);
    } else if k < c {
        assert(s[k].sample_offset <= off);
    }
}

/// A sorted sequence has an upper bound for every offset.
pub proof fn lemma_upper_bound_exists(s: Seq<NoteEvent>, off: u32)
    requires
        sorted_by_offset(s),
    ensures
        is_upper_bound(s, off, upper_bound(s, off)),
    decreases s.len(),
{
    if s.len() == 0 {
        assert(is_upper_bound(s, off, 0));
    } else if s.last().sample_offset <= off {
        assert(is_upper_bound(s, off, s.len() as int));
    } else {
        let t = s.drop_last();
        assert(sorted_by_offset(t));
        lemma_upper_bound_exists(t, off);
        let k = upper_bound(t, off);
        assert forall|j: int| k <= j < s.len() implies s[j].sample_offset > off by {
            if j < t.len() {
                assert(s[j] == t[j]);
            }
        }
        assert forall|j: int| 0 <= j < k implies s[j].sample_offset <= off by {
            assert(s[j] == t[j]);
        }
        assert(is_upper_bound(s, off, k));
    }
}

/// Inserting at the upper bound keeps the sequence sorted.
pub proof fn lemma_insert_sorted_keeps_order(s: Seq<NoteEvent>, ev: NoteEvent)
    requires
        sorted_by_offset(s),
    ensures
        sorted_by_offset(insert_sorted(s, ev)),
        insert_sorted(s, ev).len() == s.len() + 1,
{
    lemma_upper_bound_exists(s, ev.sample_offset);
}

/// Events in `[start, end)` of `s`, offsets made relative to `start`.
pub open spec fn rebased_range(s: Seq<NoteEvent>, start: u32, end: u32) -> Seq<NoteEvent>
    decreases s.len(),
{
    if s.len() == 0 {
        Seq::empty()
    } else {
        let r = rebased_range(s.drop_last(), start, end);
        let e = s.last();
        if start <= e.sample_offset < end {
            r.push(NoteEvent { sample_offset: (e.sample_offset - start) as u32, ..e })
        } else {
            r
        }
    }
}

/// A rebased chunk only holds events inside the chunk: every offset is
/// below the chunk length `end - start`, and nothing else changes.
pub proof fn lemma_rebased_within_chunk(s: Seq<NoteEvent>, start: u32, end: u32)
    ensures
        forall|k: int|
            0 <= k < rebased_range(s, start, end).len() ==> (#[trigger] rebased_range(
                s,
                start,
                end,
            )[k]).sample_offset < end - start,
        rebased_range(s, start, end).len() <= s.len(),
    decreases s.len(),
{
    if s.len() > 0 {
        lemma_rebased_within_chunk(s.drop_last(), start, end);
    }
}

/// Events in `[start, end)` of `s`, unchanged.
pub open spec fn in_range(s: Seq<NoteEvent>, start: u32, end: u32) -> Seq<NoteEvent>
    decreases s.len(),
{
    if s.len() == 0 {
        Seq::empty()
    } else {
        let r = in_range(s.drop_last(), start, end);
        let e = s.last();
        if start <= e.sample_offset < end {
            r.push(e)
        } else {
            r
        }
    }
}

/// Ordered note events for one audio block (same insert rules as MIDI).
#[derive(Clone, Debug)]
pub struct NoteBuffer {
    events: Vec<NoteEvent>,
}

impl View for NoteBuffer {
    type V = Seq<NoteEvent>;

    closed spec fn view(&self) -> Seq<NoteEvent> {
        self.events@
    }
}

impl NoteBuffer {
    /// Well-formed: events ordered by sample offset.
    pub open spec fn wf(&self) -> bool {
        sorted_by_offset(self@)
    }

    pub fn new() -> (b: Self)
        ensures
            b.wf(),
            b@ == Seq::<NoteEvent>::empty(),
    {
        NoteBuffer { events: Vec::new() }
    }

    pub fn with_capacity(cap: usize) -> (b: Self)
        ensures
            b.wf(),
            b@ == Seq::<NoteEvent>::empty(),
    {
        NoteBuffer { events: Vec::with_capacity(cap) }
    }

    pub fn clear(&mut self)
        ensures
            final(self).wf(),
            final(self)@ == Seq::<NoteEvent>::empty(),
    {
        self.events.clear();
    }

    pub fn reserve(&mut self, additional: usize)
        ensures
            final(self).wf() == old(self).wf(),
            final(self)@ == old(self)@,
    {
        self.events.reserve(additional);
    }

    pub fn len(&self) -> (n: usize)
        ensures
            n == self@.len(),
    {
        self.events.len()
    }

    pub fn is_empty(&self) -> (b: bool)
        ensures
            b == (self@.len() == 0),
    {
        self.events.len() == 0
    }

    /// Insert after every event with the same or an earlier sample offset.
    pub fn push(&mut self, ev: NoteEvent)
        requires
            old(self).wf(),
        ensures
            final(self).wf(),
            final(self)@ == insert_sorted(old(self)@, ev),
    {
        let off = ev.sample_offset;
        let n = self.events.len();
        let mut lo: usize = 0;
        let mut hi: usize = n;
        while lo < hi
            invariant
                0 <= lo <= hi <= n,
                n == self.events@.len(),
                sorted_by_offset(self.events@),
                forall|j: int| 0 <= j < lo ==> self.events@[j].sample_offset <= off,
                forall|j: int| hi <= j < n ==> self.events@[j].sample_offset > off,
            decreases hi - lo,
        {
            let mid = lo + (hi - lo) / 2;
            if self.events[mid].sample_offset <= off {
                lo = mid + 1;
            } else {
                hi = mid;
            }
        }
        proof {
            assert(is_upper_bound(self.events@, off, lo as int));
            lemma_upper_bound_unique(self.events@, off, lo as int);
            lemma_insert_sorted_keeps_order(self.events@, ev);
        }
        self.events.insert(lo, ev);
    }

    /// All events in order.
    pub fn to_vec(&self) -> (v: Vec<NoteEvent>)
        ensures
            v@ == self@,
    {
        self.events.clone()
    }

    /// Events with `start <= sample_offset < end`, in order.
    pub fn iter_range(&self, start: u32, end: u32) -> (v: Vec<NoteEvent>)
        ensures
            v@ == in_range(self@, start, end),
    {
        let mut out: Vec<NoteEvent> = Vec::new();
        let n = self.events.len();
        let mut i: usize = 0;
        while i < n
            invariant
                0 <= i <= n,
                n == self.events@.len(),
                out@ == in_range(self.events@.take(i as int), start, end),
            decreases n - i,
        {
            let e = self.events[i];
            proof {
                assert(self.events@.take(i + 1).drop_last() == self.events@.take(i as int));
            }
            if start <= e.sample_offset && e.sample_offset < end {
                out.push(e);
            }
            i = i + 1;
        }
        proof {
            assert(self.events@.take(n as int) == self.events@);
        }
        out
    }

    /// Events in `[start, end)`, rebased so `start` becomes offset `0`.
    pub fn slice_rebased(&self, start: u32, end: u32) -> (b: Self)
        requires
            self.wf(),
        ensures
            b.wf(),
            b@ == rebased_range(self@, start, end),
    {
        let mut out = NoteBuffer::with_capacity(self.events.len());
        out.copy_range_rebased(self, start, end);
        out
    }

    /// Like [`Self::slice_rebased`], into this buffer (no new `Vec`).
    pub fn copy_range_rebased(&mut self, src: &Self, start: u32, end: u32)
        requires
            src.wf(),
        ensures
            final(self).wf(),
            final(self)@ == rebased_range(src@, start, end),
    {
        self.events.clear();
        let n = src.events.len();
        let mut i: usize = 0;
        while i < n
            invariant
                0 <= i <= n,
                n == src.events@.len(),
                sorted_by_offset(src.events@),
                self.events@ == rebased_range(src.events@.take(i as int), start, end),
                sorted_by_offset(self.events@),
                forall|k: int, j: int|
                    0 <= k < self.events@.len() && i <= j < n ==> #[trigger] self.events@[k].sample_offset
                        + start <= #[trigger] src.events@[j].sample_offset,
            decreases n - i,
        {
            let e = src.events[i];
            proof {
                assert(src.events@.take(i + 1).drop_last() == src.events@.take(i as int));
            }
            if start <= e.sample_offset && e.sample_offset < end {
                let r = NoteEvent { sample_offset: e.sample_offset - start, ..e };
                self.events.push(r);
            }
            i = i + 1;
        }
        proof {
            assert(src.events@.take(n as int) == src.events@);
        }
    }

    pub fn as_slice(&self) -> (s: &[NoteEvent])
        ensures
            s@ == self@,
    {
        self.events.as_slice()
    }
}

/// Per-note `PARAM_MOD` (`note_id >= 0`) → note list; mono → timed params.
pub fn route_param_mod(
    timed: &mut Vec<TimedParamEvent>,
    notes: &mut NoteBuffer,
    sample_offset: u32,
    param_id: u32,
    amount: u64,
    target: NoteTarget,
)
    requires
        old(notes).wf(),
    ensures
        final(notes).wf(),
        target.note_id >= 0 ==> final(timed)@ == old(timed)@ && final(notes)@ == insert_sorted(
            old(notes)@,
            NoteEvent {
                sample_offset,
                note_id: target.note_id,
                port_index: target.port_index,
                channel: target.channel,
                key: target.key,
                kind: NoteEventKind::ParamMod { param_id, amount },
            },
        ),
        target.note_id < 0 ==> final(notes)@ == old(notes)@ && final(timed)@ == old(timed)@.push(
            TimedParamEvent::Mod { sample_offset, id: param_id, amount },
        ),
{
    if target.note_id >= 0 {
        notes.push(
            NoteEvent {
                sample_offset,
                note_id: target.note_id,
                port_index: target.port_index,
                channel: target.channel,
                key: target.key,
                kind: NoteEventKind::ParamMod { param_id, amount },
            },
        );
    } else {
        timed.push(TimedParamEvent::Mod { sample_offset, id: param_id, amount });
    }
}

/// Per-note `PARAM_VALUE` (`note_id >= 0`) → note list; mono → timed params.
pub fn route_param_value(
    timed: &mut Vec<TimedParamEvent>,
    notes: &mut NoteBuffer,
    sample_offset: u32,
    param_id: u32,
    plain: u64,
    target: NoteTarget,
)
    requires
        old(notes).wf(),
    ensures
        final(notes).wf(),
        target.note_id >= 0 ==> final(timed)@ == old(timed)@ && final(notes)@ == insert_sorted(
            old(notes)@,
            NoteEvent {
                sample_offset,
                note_id: target.note_id,
                port_index: target.port_index,
                channel: target.channel,
                key: target.key,
                kind: NoteEventKind::ParamValue { param_id, plain },
            },
        ),
        target.note_id < 0 ==> final(notes)@ == old(notes)@ && final(timed)@ == old(timed)@.push(
            TimedParamEvent::Value { sample_offset, id: param_id, plain },
        ),
{
    if target.note_id >= 0 {
        notes.push(
            NoteEvent {
                sample_offset,
                note_id: target.note_id,
                port_index: target.port_index,
                channel: target.channel,
                key: target.key,
                kind: NoteEventKind::ParamValue { param_id, plain },
            },
        );
    } else {
        timed.push(TimedParamEvent::Value { sample_offset, id: param_id, plain });
    }
}

} // verus!
