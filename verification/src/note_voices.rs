//! CLAP voice table keyed by `note_id` — expressions in, `NOTE_END` out.
//!
//! The plugin owns oscillators and envelopes. This table tracks which host
//! notes are live and queues a `NOTE_END` event when the plugin marks a voice
//! silent, when the host chokes it, or when a new note steals its slot.
//! Velocity and expression values are the host's `f64` bit patterns.

use vstd::prelude::*;
use crate::note_events::{
    event_matches, insert_all, NoteBuffer, NoteEvent, NoteEventKind, NoteExpression,
};

verus! {

/// Bit pattern of `1.0_f64` (unity volume / pressure).
pub const ONE_F64_BITS: u64 = 0x3FF0_0000_0000_0000;

/// One slot in [`NoteVoiceTable`].
#[derive(Clone, Copy, Debug, PartialEq, Eq, Structural)]
pub struct NoteVoice {
    pub note_id: i32,
    pub key: i16,
    pub channel: i16,
    pub port_index: i16,
    pub velocity: u64,
    /// CLAP volume expression (1.0 = 0 dB).
    pub volume: u64,
    pub pan: u64,
    /// Tuning expression in semitones.
    pub tuning: u64,
    pub vibrato: u64,
    pub expression: u64,
    pub brightness: u64,
    pub pressure: u64,
    /// The note is still held (no note-off yet).
    pub gated: bool,
    /// The slot holds a host note.
    pub occupied: bool,
}

impl NoteVoice {
    /// The slot holds a host note.
    pub open spec fn occupied_spec(self) -> bool {
        self.occupied
    }

    /// The note is still held (no note-off yet).
    pub open spec fn gated_spec(self) -> bool {
        self.gated
    }

    /// This voice with its gate closed (note-off seen).
    pub open spec fn released(self) -> NoteVoice {
        NoteVoice { gated: false, ..self }
    }

    fn empty() -> (v: Self)
        ensures
            v == empty_voice(),
    {
        NoteVoice {
            note_id: -1,
            key: 0,
            channel: 0,
            port_index: 0,
            velocity: 0,
            volume: ONE_F64_BITS,
            pan: 0,
            tuning: 0,
            vibrato: 0,
            expression: 0,
            brightness: 0,
            pressure: ONE_F64_BITS,
            gated: false,
            occupied: false,
        }
    }

    pub fn is_occupied(self) -> (b: bool)
        ensures
            b == self.occupied_spec(),
    {
        self.occupied
    }

    pub fn is_gated(self) -> (b: bool)
        ensures
            b == (self.occupied_spec() && self.gated_spec()),
    {
        self.occupied && self.gated
    }
}

/// A free slot: no note, unity volume and pressure, everything else zero.
pub open spec fn empty_voice() -> NoteVoice {
    NoteVoice {
        note_id: -1i32,
        key: 0,
        channel: 0,
        port_index: 0,
        velocity: 0,
        volume: ONE_F64_BITS,
        pan: 0,
        tuning: 0,
        vibrato: 0,
        expression: 0,
        brightness: 0,
        pressure: ONE_F64_BITS,
        gated: false,
        occupied: false,
    }
}

/// A slot freshly started by note-on `ev`.
pub open spec fn started_voice(ev: NoteEvent, velocity: u64) -> NoteVoice {
    NoteVoice {
        occupied: true,
        gated: true,
        note_id: ev.note_id,
        key: ev.key,
        channel: ev.channel,
        port_index: ev.port_index,
        velocity,
        ..empty_voice()
    }
}

/// The `NOTE_END` reported for voice `v` at `off`.
pub open spec fn end_for(v: NoteVoice, off: u32) -> NoteEvent {
    NoteEvent {
        sample_offset: off,
        note_id: v.note_id,
        port_index: v.port_index,
        channel: v.channel,
        key: v.key,
        kind: NoteEventKind::End,
    }
}

/// Event `ev` addresses the occupied voice `v`.
pub open spec fn voice_hit(v: NoteVoice, ev: NoteEvent) -> bool {
    v.occupied_spec() && event_matches(ev, v.note_id, v.key)
}

/// `v` with the expression `id` set to `value` (unknown ids change nothing).
pub open spec fn with_expression(v: NoteVoice, id: NoteExpression, value: u64) -> NoteVoice {
    match id {
        NoteExpression::Volume => NoteVoice { volume: value, ..v },
        NoteExpression::Pan => NoteVoice { pan: value, ..v },
        NoteExpression::Tuning => NoteVoice { tuning: value, ..v },
        NoteExpression::Vibrato => NoteVoice { vibrato: value, ..v },
        NoteExpression::Expression => NoteVoice { expression: value, ..v },
        NoteExpression::Brightness => NoteVoice { brightness: value, ..v },
        NoteExpression::Pressure => NoteVoice { pressure: value, ..v },
        NoteExpression::Other(_) => v,
    }
}

/// Slot predicates used when a note-on picks a slot.
#[derive(Clone, Copy, Debug, PartialEq, Eq, Structural)]
pub enum SlotQuery {
    /// An occupied slot playing this `note_id`.
    SameId(i32),
    /// A free slot.
    Free,
    /// An occupied slot whose note was released.
    Released,
    /// Any occupied slot.
    Any,
}

pub open spec fn query_holds(q: SlotQuery, v: NoteVoice) -> bool {
    match q {
        SlotQuery::SameId(id) => v.occupied_spec() && v.note_id == id,
        SlotQuery::Free => !v.occupied_spec(),
        SlotQuery::Released => v.occupied_spec() && !v.gated_spec(),
        SlotQuery::Any => v.occupied_spec(),
    }
}

/// `i` is the first index of `vs` where `q` holds (`vs.len()` if none).
pub open spec fn is_first_where(vs: Seq<NoteVoice>, q: SlotQuery, i: int) -> bool {
    &&& 0 <= i <= vs.len()
    &&& forall|j: int| 0 <= j < i ==> !query_holds(q, #[trigger] vs[j])
    &&& i < vs.len() ==> query_holds(q, vs[i])
}

pub open spec fn first_where(vs: Seq<NoteVoice>, q: SlotQuery) -> int {
    choose|i: int| is_first_where(vs, q, i)
}

pub proof fn lemma_first_where(vs: Seq<NoteVoice>, q: SlotQuery, i: int)
    requires
        is_first_where(vs, q, i),
    ensures
        first_where(vs, q) == i,
{
    let c = first_where(vs, q);
    assert(is_first_where(vs, q, c));
    if c < i {
        assert(!query_holds(q, vs[c]));
    } else if i < c {
        assert(!query_holds(q, vs[i]));
    }
}

/// `first_where` always names a slot satisfying its definition.
pub proof fn lemma_first_where_exists(vs: Seq<NoteVoice>, q: SlotQuery)
    ensures
        is_first_where(vs, q, first_where(vs, q)),
    decreases vs.len(),
{
    if vs.len() == 0 {
        assert(is_first_where(vs, q, 0));
    } else {
        let t = vs.drop_last();
        lemma_first_where_exists(t, q);
        let k = first_where(t, q);
        if k < t.len() {
            assert forall|j: int| 0 <= j < k implies !query_holds(q, #[trigger] vs[j]) by {
                assert(vs[j] == t[j]);
            }
            assert(vs[k] == t[k]);
            assert(is_first_where(vs, q, k));
        } else if query_holds(q, vs.last()) {
            assert forall|j: int| 0 <= j < t.len() implies !query_holds(q, #[trigger] vs[j]) by {
                assert(vs[j] == t[j]);
            }
            assert(is_first_where(vs, q, t.len() as int));
        } else {
            assert forall|j: int| 0 <= j < vs.len() implies !query_holds(q, #[trigger] vs[j]) by {
                if j < t.len() {
                    assert(vs[j] == t[j]);
                }
            }
            assert(is_first_where(vs, q, vs.len() as int));
        }
    }
}

/// Which voices a silencing operation addresses.
#[derive(Clone, Copy, Debug, PartialEq, Eq, Structural)]
pub enum Selector {
    /// Occupied voices that this event addresses.
    Hit(NoteEvent),
    /// Occupied voices with this `note_id` (a negative id selects all).
    Id(i32),
    /// Every occupied voice.
    All,
}

pub open spec fn selects(sel: Selector, v: NoteVoice) -> bool {
    match sel {
        Selector::Hit(ev) => voice_hit(v, ev),
        Selector::Id(id) => v.occupied_spec() && (id < 0 || v.note_id == id),
        Selector::All => v.occupied_spec(),
    }
}

/// Selected slots are emptied.
pub open spec fn drop_where(vs: Seq<NoteVoice>, sel: Selector) -> Seq<NoteVoice> {
    Seq::new(vs.len(), |i: int| if selects(sel, vs[i]) { empty_voice() } else { vs[i] })
}

/// `NOTE_END` events, in slot order, for the selected slots.
pub open spec fn ends_where(vs: Seq<NoteVoice>, sel: Selector, off: u32) -> Seq<NoteEvent>
    decreases vs.len(),
{
    if vs.len() == 0 {
        Seq::empty()
    } else {
        let r = ends_where(vs.drop_last(), sel, off);
        if selects(sel, vs.last()) {
            r.push(end_for(vs.last(), off))
        } else {
            r
        }
    }
}

/// Number of occupied slots.
pub open spec fn count_occupied(vs: Seq<NoteVoice>) -> nat
    decreases vs.len(),
{
    if vs.len() == 0 {
        0
    } else {
        count_occupied(vs.drop_last()) + if vs.last().occupied_spec() {
            1nat
        } else {
            0nat
        }
    }
}

/// The model of a table: its slots and its queued `NOTE_END` events.
pub struct TableModel {
    pub voices: Seq<NoteVoice>,
    pub pending: Seq<NoteEvent>,
}

/// Which slot a note-on takes, and whether that evicts a sounding voice:
/// the slot already playing the same `note_id`, else the first free slot,
/// else the first released voice, else the first voice.
pub open spec fn alloc_slot(vs: Seq<NoteVoice>, ev: NoteEvent) -> (int, bool) {
    let same = first_where(vs, SlotQuery::SameId(ev.note_id));
    let free = first_where(vs, SlotQuery::Free);
    let rel = first_where(vs, SlotQuery::Released);
    let any = first_where(vs, SlotQuery::Any);
    if ev.note_id >= 0 && same < vs.len() {
        (same, false)
    } else if free < vs.len() {
        (free, false)
    } else if rel < vs.len() {
        (rel, true)
    } else {
        (any, true)
    }
}

/// The table after one inbound note event.
pub open spec fn table_step(m: TableModel, ev: NoteEvent) -> TableModel {
    match ev.kind {
        NoteEventKind::On { velocity } => {
            let (slot, steal) = alloc_slot(m.voices, ev);
            TableModel {
                voices: m.voices.update(slot, started_voice(ev, velocity)),
                pending: if steal {
                    m.pending.push(end_for(m.voices[slot], ev.sample_offset))
                } else {
                    m.pending
                },
            }
        },
        NoteEventKind::Off { .. } => TableModel {
            voices: Seq::new(
                m.voices.len(),
                |i: int|
                    if voice_hit(m.voices[i], ev) {
                        m.voices[i].released()
                    } else {
                        m.voices[i]
                    },
            ),
            pending: m.pending,
        },
        NoteEventKind::Choke => TableModel {
            voices: drop_where(m.voices, Selector::Hit(ev)),
            pending: m.pending + ends_where(m.voices, Selector::Hit(ev), ev.sample_offset),
        },
        NoteEventKind::End => TableModel {
            voices: drop_where(m.voices, Selector::Hit(ev)),
            pending: m.pending,
        },
        NoteEventKind::Expression { id, value } => TableModel {
            voices: Seq::new(
                m.voices.len(),
                |i: int|
                    if voice_hit(m.voices[i], ev) {
                        with_expression(m.voices[i], id, value)
                    } else {
                        m.voices[i]
                    },
            ),
            pending: m.pending,
        },
        _ => m,
    }
}

/// The table after a whole block of inbound note events, in order.
pub open spec fn table_apply(m: TableModel, evs: Seq<NoteEvent>) -> TableModel
    decreases evs.len(),
{
    if evs.len() == 0 {
        m
    } else {
        table_step(table_apply(m, evs.drop_last()), evs.last())
    }
}

/// No two sounding voices share a (non-negative) host `note_id`.
pub open spec fn ids_unique(vs: Seq<NoteVoice>) -> bool {
    forall|i: int, j: int|
        0 <= i < vs.len() && 0 <= j < vs.len() && i != j && (#[trigger] vs[i]).occupied_spec()
            && (#[trigger] vs[j]).occupied_spec() && vs[i].note_id >= 0 ==> vs[i].note_id
            != vs[j].note_id
}

/// Every table operation keeps the number of slots.
pub proof fn lemma_step_keeps_slots(m: TableModel, ev: NoteEvent)
    requires
        m.voices.len() >= 1,
    ensures
        table_step(m, ev).voices.len() == m.voices.len(),
{
    if let NoteEventKind::On { velocity } = ev.kind {
        lemma_alloc_slot_in_range(m.voices, ev);
    }
}

/// A note-on always finds a slot inside the table.
pub proof fn lemma_alloc_slot_in_range(vs: Seq<NoteVoice>, ev: NoteEvent)
    requires
        vs.len() >= 1,
    ensures
        0 <= alloc_slot(vs, ev).0 < vs.len(),
{
    lemma_first_where_exists(vs, SlotQuery::SameId(ev.note_id));
    lemma_first_where_exists(vs, SlotQuery::Free);
    lemma_first_where_exists(vs, SlotQuery::Released);
    lemma_first_where_exists(vs, SlotQuery::Any);
    let free = first_where(vs, SlotQuery::Free);
    if free == vs.len() {
        assert(!query_holds(SlotQuery::Free, vs[0]));
        assert(query_holds(SlotQuery::Any, vs[0]));
    }
}

/// A block of events keeps the number of slots.
pub proof fn lemma_apply_keeps_slots(m: TableModel, evs: Seq<NoteEvent>)
    requires
        m.voices.len() >= 1,
    ensures
        table_apply(m, evs).voices.len() == m.voices.len(),
    decreases evs.len(),
{
    if evs.len() > 0 {
        lemma_apply_keeps_slots(m, evs.drop_last());
        lemma_step_keeps_slots(table_apply(m, evs.drop_last()), evs.last());
    }
}

/// One inbound event never makes two sounding voices share a `note_id`:
/// a repeated id retriggers its own voice.
pub proof fn lemma_step_keeps_ids_unique(m: TableModel, ev: NoteEvent)
    requires
        m.voices.len() >= 1,
        ids_unique(m.voices),
    ensures
        ids_unique(table_step(m, ev).voices),
{
    let vs = m.voices;
    let r = table_step(m, ev).voices;
    match ev.kind {
        NoteEventKind::On { velocity } => {
            lemma_alloc_slot_in_range(vs, ev);
            lemma_first_where_exists(vs, SlotQuery::SameId(ev.note_id));
            let (slot, steal) = alloc_slot(vs, ev);
            let same = first_where(vs, SlotQuery::SameId(ev.note_id));
            assert forall|i: int, j: int|
                0 <= i < r.len() && 0 <= j < r.len() && i != j && (#[trigger] r[i]).occupied_spec()
                    && (#[trigger] r[j]).occupied_spec() && r[i].note_id >= 0 implies r[i].note_id
                != r[j].note_id by {
                if i != slot && j != slot {
                    assert(r[i] == vs[i] && r[j] == vs[j]);
                } else if ev.note_id >= 0 && same < vs.len() {
                    assert(slot == same);
                    assert(query_holds(SlotQuery::SameId(ev.note_id), vs[same]));
                    if i == slot {
                        assert(r[j] == vs[j]);
                    } else {
                        assert(r[i] == vs[i]);
                    }
                } else if i == slot {
                    assert(r[j] == vs[j]);
                    assert(!query_holds(SlotQuery::SameId(ev.note_id), vs[j]));
                } else {
                    assert(r[i] == vs[i]);
                    if ev.note_id >= 0 {
                        assert(!query_holds(SlotQuery::SameId(ev.note_id), vs[i]));
                    }
                }
            }
        },
        NoteEventKind::Off { .. } => {
            assert forall|i: int, j: int|
                0 <= i < r.len() && 0 <= j < r.len() && i != j && (#[trigger] r[i]).occupied_spec()
                    && (#[trigger] r[j]).occupied_spec() && r[i].note_id >= 0 implies r[i].note_id
                != r[j].note_id by {
                assert(vs[i].occupied_spec() && vs[j].occupied_spec());
            }
        },
        NoteEventKind::Expression { id, value } => {
            assert forall|i: int, j: int|
                0 <= i < r.len() && 0 <= j < r.len() && i != j && (#[trigger] r[i]).occupied_spec()
                    && (#[trigger] r[j]).occupied_spec() && r[i].note_id >= 0 implies r[i].note_id
                != r[j].note_id by {
                assert(vs[i].occupied_spec() && vs[j].occupied_spec());
            }
        },
        NoteEventKind::Choke | NoteEventKind::End => {
            assert forall|i: int, j: int|
                0 <= i < r.len() && 0 <= j < r.len() && i != j && (#[trigger] r[i]).occupied_spec()
                    && (#[trigger] r[j]).occupied_spec() && r[i].note_id >= 0 implies r[i].note_id
                != r[j].note_id by {
                assert(r[i] == vs[i] && r[j] == vs[j]);
            }
        },
        _ => {},
    }
}

/// A whole block keeps `note_id`s of sounding voices unique.
pub proof fn lemma_apply_keeps_ids_unique(m: TableModel, evs: Seq<NoteEvent>)
    requires
        m.voices.len() >= 1,
        ids_unique(m.voices),
    ensures
        ids_unique(table_apply(m, evs).voices),
    decreases evs.len(),
{
    if evs.len() > 0 {
        lemma_apply_keeps_ids_unique(m, evs.drop_last());
        lemma_apply_keeps_slots(m, evs.drop_last());
        lemma_step_keeps_ids_unique(table_apply(m, evs.drop_last()), evs.last());
    }
}

/// A note-off only closes gates: no slot is freed or filled, nothing is
/// queued, every voice the event addresses keeps its note with its gate
/// closed, and every other voice is unchanged.
pub proof fn lemma_note_off_only_releases(m: TableModel, ev: NoteEvent)
    requires
        ev.kind is Off,
    ensures
        table_step(m, ev).pending == m.pending,
        table_step(m, ev).voices.len() == m.voices.len(),
        forall|j: int|
            0 <= j < m.voices.len() ==> {
                let old_v = #[trigger] m.voices[j];
                let new_v = table_step(m, ev).voices[j];
                &&& new_v.occupied == old_v.occupied
                &&& new_v.note_id == old_v.note_id
                &&& new_v.key == old_v.key
                &&& (if old_v.occupied && event_matches(ev, old_v.note_id, old_v.key) {
                    !new_v.gated
                } else {
                    new_v == old_v
                })
            },
{
}

/// A note-on never cuts a sounding note while a slot is free or its own
/// `note_id` is already playing: every occupied voice with another
/// `note_id` stays unchanged, nothing is queued, and exactly one slot (free,
/// or the one with the same id) changes, to play the new note.
pub proof fn lemma_note_on_without_steal(m: TableModel, ev: NoteEvent)
    requires
        m.voices.len() >= 1,
        ev.kind is On,
        exists|i: int|
            0 <= i < m.voices.len() && (!(#[trigger] m.voices[i]).occupied || (ev.note_id >= 0
                && m.voices[i].note_id == ev.note_id)),
    ensures
        table_step(m, ev).pending == m.pending,
        table_step(m, ev).voices.len() == m.voices.len(),
        exists|k: int|
            0 <= k < m.voices.len() && (!(#[trigger] m.voices[k]).occupied || m.voices[k].note_id
                == ev.note_id) && table_step(m, ev).voices[k].occupied && table_step(m, ev).voices[k].gated
                && table_step(m, ev).voices[k].note_id == ev.note_id && table_step(m, ev).voices[k].key
                == ev.key && forall|j: int|
                0 <= j < m.voices.len() && j != k ==> table_step(m, ev).voices[j] == m.voices[j],
{
    let vs = m.voices;
    lemma_first_where_exists(vs, SlotQuery::SameId(ev.note_id));
    lemma_first_where_exists(vs, SlotQuery::Free);
    let same = first_where(vs, SlotQuery::SameId(ev.note_id));
    let free = first_where(vs, SlotQuery::Free);
    let w = choose|i: int|
        0 <= i < vs.len() && (!(#[trigger] vs[i]).occupied || (ev.note_id >= 0 && vs[i].note_id
            == ev.note_id));
    if ev.note_id >= 0 && same < vs.len() {
        assert(query_holds(SlotQuery::SameId(ev.note_id), vs[same]));
        assert(alloc_slot(vs, ev) == (same, false));
    } else {
        if free == vs.len() {
            assert(!query_holds(SlotQuery::Free, vs[w]));
            if ev.note_id >= 0 {
                assert(!query_holds(SlotQuery::SameId(ev.note_id), vs[w]));
            }
        }
        assert(free < vs.len());
        assert(query_holds(SlotQuery::Free, vs[free]));
        assert(alloc_slot(vs, ev) == (free, false));
    }
}

/// A note-on that finds neither a voice already playing its `note_id` nor
/// a free slot steals a released voice whenever one exists: every held
/// (gated) voice keeps sounding unchanged, and the one `NOTE_END` queued is
/// for a released voice, whose slot now plays the new note.
pub proof fn lemma_steal_prefers_released(m: TableModel, ev: NoteEvent)
    requires
        m.voices.len() >= 1,
        ev.kind is On,
        forall|i: int| 0 <= i < m.voices.len() ==> (#[trigger] m.voices[i]).occupied,
        forall|i: int|
            0 <= i < m.voices.len() && ev.note_id >= 0 ==> (#[trigger] m.voices[i]).note_id
                != ev.note_id,
        exists|i: int| 0 <= i < m.voices.len() && !(#[trigger] m.voices[i]).gated,
    ensures
        table_step(m, ev).voices.len() == m.voices.len(),
        forall|j: int|
            0 <= j < m.voices.len() && (#[trigger] m.voices[j]).gated ==> table_step(m, ev).voices[j]
                == m.voices[j],
        exists|k: int|
            0 <= k < m.voices.len() && !(#[trigger] m.voices[k]).gated && table_step(m, ev).pending
                == m.pending.push(
                NoteEvent {
                    sample_offset: ev.sample_offset,
                    note_id: m.voices[k].note_id,
                    port_index: m.voices[k].port_index,
                    channel: m.voices[k].channel,
                    key: m.voices[k].key,
                    kind: NoteEventKind::End,
                },
            ) && table_step(m, ev).voices[k].note_id == ev.note_id && table_step(m, ev).voices[k].key
                == ev.key && table_step(m, ev).voices[k].gated,
{
    let vs = m.voices;
    lemma_first_where_exists(vs, SlotQuery::SameId(ev.note_id));
    lemma_first_where_exists(vs, SlotQuery::Free);
    lemma_first_where_exists(vs, SlotQuery::Released);
    let same = first_where(vs, SlotQuery::SameId(ev.note_id));
    let free = first_where(vs, SlotQuery::Free);
    let rel = first_where(vs, SlotQuery::Released);
    if ev.note_id >= 0 && same < vs.len() {
        assert(query_holds(SlotQuery::SameId(ev.note_id), vs[same]));
        assert(vs[same].note_id != ev.note_id);
    }
    if free < vs.len() {
        assert(query_holds(SlotQuery::Free, vs[free]));
        assert(vs[free].occupied);
    }
    let w = choose|i: int| 0 <= i < vs.len() && !(#[trigger] vs[i]).gated;
    if rel == vs.len() {
        assert(!query_holds(SlotQuery::Released, vs[w]));
    }
    assert(rel < vs.len());
    assert(query_holds(SlotQuery::Released, vs[rel]));
    assert(alloc_slot(vs, ev) == (rel, true));
    assert(end_for(vs[rel], ev.sample_offset) == NoteEvent {
        sample_offset: ev.sample_offset,
        note_id: vs[rel].note_id,
        port_index: vs[rel].port_index,
        channel: vs[rel].channel,
        key: vs[rel].key,
        kind: NoteEventKind::End,
    });
}

/// When every slot holds a gated note and none plays the new `note_id`, a
/// note-on steals the first slot: only slot 0 changes, and its note is the
/// one `NOTE_END` queued.
pub proof fn lemma_steal_held_takes_first(m: TableModel, ev: NoteEvent)
    requires
        m.voices.len() >= 1,
        ev.kind is On,
        forall|i: int| 0 <= i < m.voices.len() ==> (#[trigger] m.voices[i]).occupied && m.voices[i].gated,
        forall|i: int|
            0 <= i < m.voices.len() && ev.note_id >= 0 ==> (#[trigger] m.voices[i]).note_id
                != ev.note_id,
    ensures
        table_step(m, ev).voices.len() == m.voices.len(),
        forall|j: int| 0 < j < m.voices.len() ==> table_step(m, ev).voices[j] == m.voices[j],
        table_step(m, ev).voices[0].note_id == ev.note_id,
        table_step(m, ev).pending == m.pending.push(
            NoteEvent {
                sample_offset: ev.sample_offset,
                note_id: m.voices[0].note_id,
                port_index: m.voices[0].port_index,
                channel: m.voices[0].channel,
                key: m.voices[0].key,
                kind: NoteEventKind::End,
            },
        ),
{
    let vs = m.voices;
    lemma_first_where_exists(vs, SlotQuery::SameId(ev.note_id));
    lemma_first_where_exists(vs, SlotQuery::Free);
    lemma_first_where_exists(vs, SlotQuery::Released);
    lemma_first_where_exists(vs, SlotQuery::Any);
    let same = first_where(vs, SlotQuery::SameId(ev.note_id));
    let free = first_where(vs, SlotQuery::Free);
    let rel = first_where(vs, SlotQuery::Released);
    if ev.note_id >= 0 && same < vs.len() {
        assert(query_holds(SlotQuery::SameId(ev.note_id), vs[same]));
        assert(vs[same].note_id != ev.note_id);
    }
    if free < vs.len() {
        assert(query_holds(SlotQuery::Free, vs[free]));
    }
    if rel < vs.len() {
        assert(query_holds(SlotQuery::Released, vs[rel]));
    }
    assert(query_holds(SlotQuery::Any, vs[0]));
    lemma_first_where(vs, SlotQuery::Any, 0);
    assert(alloc_slot(vs, ev) == (0int, true));
}

/// Fixed-size voice pool. No heap growth in `apply` / `flush_ends` beyond
/// the `NOTE_END` queue.
pub struct NoteVoiceTable {
    voices: Vec<NoteVoice>,
    pending_ends: Vec<NoteEvent>,
}

impl NoteVoiceTable {
    /// Model: the slots and the queued `NOTE_END` events.
    pub closed spec fn model(&self) -> TableModel {
        TableModel { voices: self.voices@, pending: self.pending_ends@ }
    }

    /// Between 1 and 128 slots.
    pub open spec fn wf(&self) -> bool {
        1 <= self.model().voices.len() <= 128
    }

    /// A table of `max_voices` free slots, clamped to `1..=128`.
    pub fn new(max_voices: usize) -> (t: Self)
        ensures
            t.wf(),
            t.model().voices == Seq::new(
                (if max_voices < 1 {
                    1
                } else if max_voices > 128 {
                    128
                } else {
                    max_voices
                }) as nat,
                |i: int| empty_voice(),
            ),
            t.model().pending == Seq::<NoteEvent>::empty(),
    {
        let n: usize = if max_voices < 1 {
            1
        } else if max_voices > 128 {
            128
        } else {
            max_voices
        };
        let mut voices: Vec<NoteVoice> = Vec::with_capacity(n);
        let mut i: usize = 0;
        while i < n
            invariant
                0 <= i <= n,
                voices@ == Seq::new(i as nat, |j: int| empty_voice()),
            decreases n - i,
        {
            voices.push(NoteVoice::empty());
            i = i + 1;
        }
        NoteVoiceTable { voices, pending_ends: Vec::with_capacity(n) }
    }

    pub fn max_voices(&self) -> (n: usize)
        ensures
            n == self.model().voices.len(),
    {
        self.voices.len()
    }

    pub fn occupied_count(&self) -> (n: usize)
        ensures
            n == count_occupied(self.model().voices),
    {
        let mut c: usize = 0;
        let mut i: usize = 0;
        while i < self.voices.len()
            invariant
                0 <= i <= self.voices@.len(),
                c == count_occupied(self.voices@.take(i as int)),
                c <= i,
            decreases self.voices@.len() - i,
        {
            proof {
                assert(self.voices@.take(i + 1).drop_last() == self.voices@.take(i as int));
            }
            if self.voices[i].occupied {
                c = c + 1;
            }
            i = i + 1;
        }
        proof {
            assert(self.voices@.take(i as int) == self.voices@);
        }
        c
    }

    pub fn voices(&self) -> (s: &[NoteVoice])
        ensures
            s@ == self.model().voices,
    {
        self.voices.as_slice()
    }

    /// Route inbound CLAP notes. `On` allocates / retriggers; `Off`
    /// ungates the voice; `Choke` frees the slot and reports `NOTE_END`; host `End`
    /// frees the slot silently; expressions update matching voices.
    pub fn apply(&mut self, notes: &NoteBuffer)
        requires
            old(self).wf(),
        ensures
            final(self).wf(),
            final(self).model() == table_apply(old(self).model(), notes@),
    {
        let evs = notes.as_slice();
        let n = evs.len();
        let mut i: usize = 0;
        while i < n
            invariant
                0 <= i <= n,
                n == evs@.len(),
                evs@ == notes@,
                self.wf(),
                self.model() == table_apply(old(self).model(), evs@.take(i as int)),
            decreases n - i,
        {
            let ev = evs[i];
            proof {
                assert(evs@.take(i + 1).drop_last() == evs@.take(i as int));
                assert(evs@.take(i + 1).last() == ev);
            }
            match ev.kind {
                NoteEventKind::On { velocity } => {
                    self.allocate(ev, velocity);
                },
                NoteEventKind::Off { .. } => {
                    self.release_matching(ev);
                },
                NoteEventKind::Choke => {
                    self.choke_matching(ev);
                },
                NoteEventKind::End => {
                    self.drop_matching(ev);
                },
                NoteEventKind::Expression { id, value } => {
                    self.express_matching(ev, id, value);
                },
                _ => {},
            }
            i = i + 1;
        }
        proof {
            assert(evs@.take(n as int) == evs@);
        }
    }

    fn release_matching(&mut self, ev: NoteEvent)
        requires
            old(self).wf(),
            ev.kind is Off,
        ensures
            final(self).wf(),
            final(self).model() == table_step(old(self).model(), ev),
    {
        let ghost old_vs = self.voices@;
        let n = self.voices.len();
        let mut i: usize = 0;
        while i < n
            invariant
                0 <= i <= n,
                n == old_vs.len(),
                self.voices@.len() == n,
                self.pending_ends@ == old(self).pending_ends@,
                old_vs == old(self).voices@,
                forall|j: int|
                    0 <= j < i ==> #[trigger] self.voices@[j] == (if voice_hit(old_vs[j], ev) {
                        old_vs[j].released()
                    } else {
                        old_vs[j]
                    }),
                forall|j: int| i <= j < n ==> #[trigger] self.voices@[j] == old_vs[j],
            decreases n - i,
        {
            let v = self.voices[i];
            if v.occupied && ev.matches_voice(v.note_id, v.key) {
                let nv = NoteVoice { gated: false, ..v };
                self.voices.set(i, nv);
            }
            i = i + 1;
        }
        proof {
            let t = table_step(old(self).model(), ev);
            assert(self.voices@ =~= t.voices);
        }
    }

    fn express_matching(&mut self, ev: NoteEvent, id: NoteExpression, value: u64)
        requires
            old(self).wf(),
            ev.kind == (NoteEventKind::Expression { id, value }),
        ensures
            final(self).wf(),
            final(self).model() == table_step(old(self).model(), ev),
    {
        let ghost old_vs = self.voices@;
        let n = self.voices.len();
        let mut i: usize = 0;
        while i < n
            invariant
                0 <= i <= n,
                n == old_vs.len(),
                self.voices@.len() == n,
                self.pending_ends@ == old(self).pending_ends@,
                old_vs == old(self).voices@,
                forall|j: int|
                    0 <= j < i ==> #[trigger] self.voices@[j] == (if voice_hit(old_vs[j], ev) {
                        with_expression(old_vs[j], id, value)
                    } else {
                        old_vs[j]
                    }),
                forall|j: int| i <= j < n ==> #[trigger] self.voices@[j] == old_vs[j],
            decreases n - i,
        {
            let v = self.voices[i];
            if v.occupied && ev.matches_voice(v.note_id, v.key) {
                let nv = match id {
                    NoteExpression::Volume => NoteVoice { volume: value, ..v },
                    NoteExpression::Pan => NoteVoice { pan: value, ..v },
                    NoteExpression::Tuning => NoteVoice { tuning: value, ..v },
                    NoteExpression::Vibrato => NoteVoice { vibrato: value, ..v },
                    NoteExpression::Expression => NoteVoice { expression: value, ..v },
                    NoteExpression::Brightness => NoteVoice { brightness: value, ..v },
                    NoteExpression::Pressure => NoteVoice { pressure: value, ..v },
                    NoteExpression::Other(_) => v,
                };
                self.voices.set(i, nv);
            }
            i = i + 1;
        }
        proof {
            let t = table_step(old(self).model(), ev);
            assert(self.voices@ =~= t.voices);
        }
    }

    /// Empty the selected slots, queueing `NOTE_END` for each when `emit`.
    fn clear_slots(&mut self, sel: Selector, off: u32, emit: bool)
        requires
            old(self).wf(),
        ensures
            final(self).wf(),
            final(self).model().voices == drop_where(old(self).model().voices, sel),
            final(self).model().pending == old(self).model().pending + if emit {
                ends_where(old(self).model().voices, sel, off)
            } else {
                Seq::empty()
            },
    {
        let ghost old_vs = self.voices@;
        let ghost old_p = self.pending_ends@;
        let n = self.voices.len();
        let mut i: usize = 0;
        while i < n
            invariant
                0 <= i <= n,
                n == old_vs.len(),
                self.voices@.len() == n,
                old_vs == old(self).voices@,
                old_p == old(self).pending_ends@,
                self.pending_ends@ == old_p + if emit {
                    ends_where(old_vs.take(i as int), sel, off)
                } else {
                    Seq::empty()
                },
                forall|j: int|
                    0 <= j < i ==> #[trigger] self.voices@[j] == (if selects(sel, old_vs[j]) {
                        empty_voice()
                    } else {
                        old_vs[j]
                    }),
                forall|j: int| i <= j < n ==> #[trigger] self.voices@[j] == old_vs[j],
            decreases n - i,
        {
            let v = self.voices[i];
            proof {
                assert(old_vs.take(i + 1).drop_last() == old_vs.take(i as int));
                assert(old_vs.take(i + 1).last() == old_vs[i as int]);
            }
            let hit = match sel {
                Selector::Hit(ev) => v.occupied && ev.matches_voice(v.note_id, v.key),
                Selector::Id(id) => v.occupied && (id < 0 || v.note_id == id),
                Selector::All => v.occupied,
            };
            if hit {
                if emit {
                    let end = NoteEvent {
                        sample_offset: off,
                        note_id: v.note_id,
                        port_index: v.port_index,
                        channel: v.channel,
                        key: v.key,
                        kind: NoteEventKind::End,
                    };
                    self.pending_ends.push(end);
                }
                self.voices.set(i, NoteVoice::empty());
            }
            i = i + 1;
        }
        proof {
            assert(old_vs.take(n as int) == old_vs);
            assert(self.voices@ =~= drop_where(old_vs, sel));
        }
    }

    fn choke_matching(&mut self, ev: NoteEvent)
        requires
            old(self).wf(),
            ev.kind is Choke,
        ensures
            final(self).wf(),
            final(self).model() == table_step(old(self).model(), ev),
    {
        self.clear_slots(Selector::Hit(ev), ev.sample_offset, true);
    }

    fn drop_matching(&mut self, ev: NoteEvent)
        requires
            old(self).wf(),
            ev.kind is End,
        ensures
            final(self).wf(),
            final(self).model() == table_step(old(self).model(), ev),
    {
        self.clear_slots(Selector::Hit(ev), ev.sample_offset, false);
        proof {
            assert(self.pending_ends@ =~= old(self).pending_ends@);
        }
    }

    /// The first slot where `q` holds, or the slot count if none.
    fn find_first(&self, q: SlotQuery) -> (i: usize)
        ensures
            is_first_where(self.model().voices, q, i as int),
            first_where(self.model().voices, q) == i,
    {
        let n = self.voices.len();
        let mut i: usize = 0;
        while i < n
            invariant
                0 <= i <= n,
                n == self.voices@.len(),
                forall|j: int| 0 <= j < i ==> !query_holds(q, #[trigger] self.voices@[j]),
            decreases n - i,
        {
            let v = self.voices[i];
            let hit = match q {
                SlotQuery::SameId(id) => v.occupied && v.note_id == id,
                SlotQuery::Free => !v.occupied,
                SlotQuery::Released => v.occupied && !v.gated,
                SlotQuery::Any => v.occupied,
            };
            if hit {
                proof {
                    lemma_first_where(self.voices@, q, i as int);
                }
                return i;
            }
            i = i + 1;
        }
        proof {
            lemma_first_where(self.voices@, q, i as int);
        }
        i
    }

    /// Take `slot` for note-on `ev`.
    fn start_slot(&mut self, slot: usize, ev: NoteEvent, velocity: u64)
        requires
            slot < old(self).voices@.len(),
        ensures
            final(self).voices@ == old(self).voices@.update(slot as int, started_voice(ev, velocity)),
            final(self).pending_ends@ == old(self).pending_ends@,
    {
        let v = NoteVoice {
            occupied: true,
            gated: true,
            note_id: ev.note_id,
            key: ev.key,
            channel: ev.channel,
            port_index: ev.port_index,
            velocity,
            ..NoteVoice::empty()
        };
        self.voices.set(slot, v);
    }

    fn allocate(&mut self, ev: NoteEvent, velocity: u64)
        requires
            old(self).wf(),
            ev.kind == (NoteEventKind::On { velocity }),
        ensures
            final(self).wf(),
            final(self).model() == table_step(old(self).model(), ev),
    {
        let n = self.voices.len();
        let same = self.find_first(SlotQuery::SameId(ev.note_id));
        if ev.note_id >= 0 && same < n {
            self.start_slot(same, ev, velocity);
            return;
        }
        let free = self.find_first(SlotQuery::Free);
        if free < n {
            self.start_slot(free, ev, velocity);
            return;
        }
        let rel = self.find_first(SlotQuery::Released);
        let slot = if rel < n {
            rel
        } else {
            let any = self.find_first(SlotQuery::Any);
            proof {
                assert(!query_holds(SlotQuery::Free, self.voices@[0]));
                assert(query_holds(SlotQuery::Any, self.voices@[0]));
            }
            any
        };
        let v = self.voices[slot];
        let end = NoteEvent {
            sample_offset: ev.sample_offset,
            note_id: v.note_id,
            port_index: v.port_index,
            channel: v.channel,
            key: v.key,
            kind: NoteEventKind::End,
        };
        self.pending_ends.push(end);
        self.start_slot(slot, ev, velocity);
    }

    /// The model after [`Self::mark_silent`].
    pub open spec fn silenced(m: TableModel, index: int, off: u32) -> TableModel {
        if 0 <= index < m.voices.len() && m.voices[index].occupied_spec() {
            TableModel {
                voices: m.voices.update(index, empty_voice()),
                pending: m.pending.push(end_for(m.voices[index], off)),
            }
        } else {
            m
        }
    }

    /// Envelope finished. Frees the slot; the next [`Self::flush_ends`]
    /// emits its `NOTE_END`.
    pub fn mark_silent(&mut self, index: usize, sample_offset: u32)
        requires
            old(self).wf(),
        ensures
            final(self).wf(),
            final(self).model() == Self::silenced(old(self).model(), index as int, sample_offset),
    {
        if index >= self.voices.len() || !self.voices[index].occupied {
            return;
        }
        let v = self.voices[index];
        let end = NoteEvent {
            sample_offset,
            note_id: v.note_id,
            port_index: v.port_index,
            channel: v.channel,
            key: v.key,
            kind: NoteEventKind::End,
        };
        self.pending_ends.push(end);
        self.voices.set(index, NoteVoice::empty());
    }

    /// Silence every voice with this `note_id` (a negative id: every voice).
    pub fn mark_silent_id(&mut self, note_id: i32, sample_offset: u32)
        requires
            old(self).wf(),
        ensures
            final(self).wf(),
            final(self).model().voices == drop_where(old(self).model().voices, Selector::Id(note_id)),
            final(self).model().pending == old(self).model().pending + ends_where(
                old(self).model().voices,
                Selector::Id(note_id),
                sample_offset,
            ),
    {
        self.clear_slots(Selector::Id(note_id), sample_offset, true);
    }

    /// Silence every sounding voice.
    pub fn mark_all_silent(&mut self, sample_offset: u32)
        requires
            old(self).wf(),
        ensures
            final(self).wf(),
            final(self).model().voices == drop_where(old(self).model().voices, Selector::All),
            final(self).model().pending == old(self).model().pending + ends_where(
                old(self).model().voices,
                Selector::All,
                sample_offset,
            ),
    {
        self.clear_slots(Selector::All, sample_offset, true);
    }

    /// Push queued `NOTE_END` events into `out` and empty the queue.
    pub fn flush_ends(&mut self, out: &mut NoteBuffer)
        requires
            old(self).wf(),
            old(out).wf(),
        ensures
            final(self).wf(),
            final(out).wf(),
            final(out)@ == insert_all(old(out)@, old(self).model().pending),
            final(self).model().voices == old(self).model().voices,
            final(self).model().pending == Seq::<NoteEvent>::empty(),
    {
        let n = self.pending_ends.len();
        let mut i: usize = 0;
        while i < n
            invariant
                0 <= i <= n,
                n == self.pending_ends@.len(),
                self.pending_ends@ == old(self).pending_ends@,
                self.voices@ == old(self).voices@,
                out.wf(),
                out@ == insert_all(old(out)@, self.pending_ends@.take(i as int)),
            decreases n - i,
        {
            proof {
                assert(self.pending_ends@.take(i + 1).drop_last() == self.pending_ends@.take(
                    i as int,
                ));
            }
            out.push(self.pending_ends[i]);
            i = i + 1;
        }
        proof {
            assert(self.pending_ends@.take(n as int) == self.pending_ends@);
        }
        self.pending_ends.clear();
    }
}

} // verus!
