//! Routing of the host's input events for one process block: parameter
//! values and modulation go to the timed parameter list (mono) or the note
//! list (per-note), note and expression events go to the note list, tuning
//! selections to their own list. Non-essential note-list events are capped
//! at [`MAX_NOTE_EVENTS`] per block; note on / off / choke / end never are.
//!
//! The format wrapper reads each raw event and hands it over as a
//! [`HostEvent`]; MIDI byte streams are the MIDI crate's concern.

use vstd::prelude::*;
use crate::chunked_process::TimedParamEvent;
use crate::clap_support::{accept_note_event, MAX_NOTE_EVENTS};
use crate::note_events::{
    clap_id_of, expression_of, insert_sorted, lemma_insert_sorted_keeps_order, sorted_by_offset, route_param_mod, route_param_value, NoteBuffer, NoteEvent,
    NoteEventKind, NoteExpression, NoteTarget,
};
use crate::tuning::TuningEvent;

verus! {

/// A note event's kind as the host sends it.
#[derive(Clone, Copy, Debug, PartialEq, Eq, Structural)]
pub enum NoteAction {
    On,
    Off,
    Choke,
    End,
}

/// One host input event, decoded to plain values. Float payloads are the
/// host's `f64` values as IEEE-754 bits.
#[derive(Clone, Copy, Debug, PartialEq, Eq, Structural)]
pub enum HostEvent {
    /// `PARAM_VALUE`: absolute plain value.
    ParamValue { time: u32, param_id: u32, value: u64, target: NoteTarget },
    /// `PARAM_MOD`: modulation amount.
    ParamMod { time: u32, param_id: u32, amount: u64, target: NoteTarget },
    /// `NOTE_ON` / `NOTE_OFF` / `NOTE_CHOKE` / `NOTE_END`.
    Note { time: u32, action: NoteAction, velocity: u64, target: NoteTarget },
    /// `NOTE_EXPRESSION` with the raw CLAP expression id.
    Expression { time: u32, expression_id: i32, value: u64, target: NoteTarget },
    /// A tuning selection (the host's tuning event space).
    Tuning(TuningEvent),
}

/// The three lists a block's input events are routed into.
pub struct RoutedModel {
    pub timed: Seq<TimedParamEvent>,
    pub notes: Seq<NoteEvent>,
    pub tuning: Seq<TuningEvent>,
}

pub open spec fn note_at(time: u32, target: NoteTarget, kind: NoteEventKind) -> NoteEvent {
    NoteEvent {
        sample_offset: time,
        note_id: target.note_id,
        port_index: target.port_index,
        channel: target.channel,
        key: target.key,
        kind,
    }
}

pub open spec fn action_kind(action: NoteAction, velocity: u64) -> NoteEventKind {
    match action {
        NoteAction::On => NoteEventKind::On { velocity },
        NoteAction::Off => NoteEventKind::Off { velocity },
        NoteAction::Choke => NoteEventKind::Choke,
        NoteAction::End => NoteEventKind::End,
    }
}

/// The note list has room for one more non-essential event.
pub open spec fn has_room(notes: Seq<NoteEvent>) -> bool {
    notes.len() < MAX_NOTE_EVENTS
}

/// Route one event.
pub open spec fn route_step(m: RoutedModel, ev: HostEvent) -> RoutedModel {
    match ev {
        HostEvent::ParamValue { time, param_id, value, target } => if target.note_id >= 0 {
            if has_room(m.notes) {
                RoutedModel {
                    notes: insert_sorted(
                        m.notes,
                        note_at(time, target, NoteEventKind::ParamValue { param_id, plain: value }),
                    ),
                    ..m
                }
            } else {
                m
            }
        } else {
            RoutedModel {
                timed: m.timed.push(
                    TimedParamEvent::Value { sample_offset: time, id: param_id, plain: value },
                ),
                ..m
            }
        },
        HostEvent::ParamMod { time, param_id, amount, target } => if target.note_id >= 0 {
            if has_room(m.notes) {
                RoutedModel {
                    notes: insert_sorted(
                        m.notes,
                        note_at(time, target, NoteEventKind::ParamMod { param_id, amount }),
                    ),
                    ..m
                }
            } else {
                m
            }
        } else {
            RoutedModel {
                timed: m.timed.push(
                    TimedParamEvent::Mod { sample_offset: time, id: param_id, amount },
                ),
                ..m
            }
        },
        HostEvent::Note { time, action, velocity, target } => RoutedModel {
            notes: insert_sorted(m.notes, note_at(time, target, action_kind(action, velocity))),
            ..m
        },
        HostEvent::Expression { time, expression_id, value, target } => if has_room(m.notes) {
            RoutedModel {
                notes: insert_sorted(
                    m.notes,
                    note_at(
                        time,
                        target,
                        NoteEventKind::Expression { id: expression_of(expression_id), value },
                    ),
                ),
                ..m
            }
        } else {
            m
        },
        HostEvent::Tuning(t) => RoutedModel { tuning: m.tuning.push(t), ..m },
    }
}

/// Route events in order.
pub open spec fn route_all(m: RoutedModel, evs: Seq<HostEvent>) -> RoutedModel
    decreases evs.len(),
{
    if evs.len() == 0 {
        m
    } else {
        route_step(route_all(m, evs.drop_last()), evs.last())
    }
}

pub open spec fn model_of(
    timed: Seq<TimedParamEvent>,
    notes: Seq<NoteEvent>,
    tuning: Seq<TuningEvent>,
) -> RoutedModel {
    RoutedModel { timed, notes, tuning }
}

/// Route one host event into the block's lists.
pub fn route_host_event(
    ev: &HostEvent,
    timed: &mut Vec<TimedParamEvent>,
    notes: &mut NoteBuffer,
    tuning: &mut Vec<TuningEvent>,
)
    requires
        old(notes).wf(),
    ensures
        final(notes).wf(),
        model_of(final(timed)@, final(notes)@, final(tuning)@) == route_step(
            model_of(old(timed)@, old(notes)@, old(tuning)@),
            *ev,
        ),
{
    match *ev {
        HostEvent::ParamValue { time, param_id, value, target } => {
            if target.note_id >= 0 && !accept_note_event(notes.len(), false) {
                return;
            }
            route_param_value(timed, notes, time, param_id, value, target);
        },
        HostEvent::ParamMod { time, param_id, amount, target } => {
            if target.note_id >= 0 && !accept_note_event(notes.len(), false) {
                return;
            }
            route_param_mod(timed, notes, time, param_id, amount, target);
        },
        HostEvent::Note { time, action, velocity, target } => {
            let kind = match action {
                NoteAction::On => NoteEventKind::On { velocity },
                NoteAction::Off => NoteEventKind::Off { velocity },
                NoteAction::Choke => NoteEventKind::Choke,
                NoteAction::End => NoteEventKind::End,
            };
            notes.push(
                NoteEvent {
                    sample_offset: time,
                    note_id: target.note_id,
                    port_index: target.port_index,
                    channel: target.channel,
                    key: target.key,
                    kind,
                },
            );
        },
        HostEvent::Expression { time, expression_id, value, target } => {
            if !accept_note_event(notes.len(), false) {
                return;
            }
            notes.push(
                NoteEvent {
                    sample_offset: time,
                    note_id: target.note_id,
                    port_index: target.port_index,
                    channel: target.channel,
                    key: target.key,
                    kind: NoteEventKind::Expression {
                        id: NoteExpression::from_clap(expression_id),
                        value,
                    },
                },
            );
        },
        HostEvent::Tuning(t) => {
            tuning.push(t);
        },
    }
}

/// Clear the block's lists and route every host event, in order.
pub fn collect_host_events(
    events: &[HostEvent],
    timed: &mut Vec<TimedParamEvent>,
    notes: &mut NoteBuffer,
    tuning: &mut Vec<TuningEvent>,
)
    requires
        old(notes).wf(),
    ensures
        final(notes).wf(),
        model_of(final(timed)@, final(notes)@, final(tuning)@) == route_all(
            model_of(Seq::empty(), Seq::empty(), Seq::empty()),
            events@,
        ),
{
    timed.clear();
    notes.clear();
    tuning.clear();
    let ghost start = model_of(Seq::empty(), Seq::empty(), Seq::empty());
    let n = events.len();
    let mut i: usize = 0;
    proof {
        assert(model_of(timed@, notes@, tuning@) == route_all(start, events@.take(0)));
    }
    while i < n
        invariant
            0 <= i <= n,
            n == events@.len(),
            notes.wf(),
            model_of(timed@, notes@, tuning@) == route_all(start, events@.take(i as int)),
        decreases n - i,
    {
        proof {
            assert(events@.take(i + 1).drop_last() == events@.take(i as int));
            assert(events@.take(i + 1).last() == events@[i as int]);
        }
        route_host_event(&events[i], timed, notes, tuning);
        i = i + 1;
    }
    proof {
        assert(events@.take(n as int) == events@);
    }
}

/// The event reaches the note list: always for note on / off / choke /
/// end; for expressions and per-note parameter events only while the list
/// holds fewer than [`MAX_NOTE_EVENTS`].
pub open spec fn enters_notes(m: RoutedModel, ev: HostEvent) -> bool {
    match ev {
        HostEvent::Note { .. } => true,
        HostEvent::Expression { .. } => has_room(m.notes),
        HostEvent::ParamValue { target, .. } => target.note_id >= 0 && has_room(m.notes),
        HostEvent::ParamMod { target, .. } => target.note_id >= 0 && has_room(m.notes),
        HostEvent::Tuning(_) => false,
    }
}

/// Routing adds at most one event to the note list, exactly when the event
/// enters it: note on / off / choke / end are never dropped, however many
/// other events came first, and the list stays ordered by sample offset.
pub proof fn lemma_route_step_notes(m: RoutedModel, ev: HostEvent)
    requires
        sorted_by_offset(m.notes),
    ensures
        sorted_by_offset(route_step(m, ev).notes),
        route_step(m, ev).notes.len() == m.notes.len() + if enters_notes(m, ev) {
            1int
        } else {
            0int
        },
{
    match ev {
        HostEvent::ParamValue { time, param_id, value, target } => {
            lemma_insert_sorted_keeps_order(
                m.notes,
                note_at(time, target, NoteEventKind::ParamValue { param_id, plain: value }),
            );
        },
        HostEvent::ParamMod { time, param_id, amount, target } => {
            lemma_insert_sorted_keeps_order(
                m.notes,
                note_at(time, target, NoteEventKind::ParamMod { param_id, amount }),
            );
        },
        HostEvent::Note { time, action, velocity, target } => {
            lemma_insert_sorted_keeps_order(m.notes, note_at(time, target, action_kind(action, velocity)));
        },
        HostEvent::Expression { time, expression_id, value, target } => {
            lemma_insert_sorted_keeps_order(
                m.notes,
                note_at(
                    time,
                    target,
                    NoteEventKind::Expression { id: expression_of(expression_id), value },
                ),
            );
        },
        HostEvent::Tuning(_) => {},
    }
}

// ---------------------------------------------------------------------------
// Plugin → host events
// ---------------------------------------------------------------------------

/// Parameter event from the editor toward the host (gestures frame an
/// automation edit). `plain` is the `f64` value's bits.
#[derive(Clone, Copy, Debug, PartialEq, Eq, Structural)]
pub enum ParamEvent {
    GestureBegin(u32),
    Value { id: u32, plain: u64 },
    GestureEnd(u32),
}

/// One event for the host's output queue, decoded to plain values.
#[derive(Clone, Copy, Debug, PartialEq, Eq, Structural)]
pub enum OutEvent {
    /// `NOTE_ON` / `NOTE_OFF` / `NOTE_CHOKE` / `NOTE_END` (port `-1`).
    Note { time: u32, action: NoteAction, note_id: i32, channel: i16, key: i16, velocity: u64 },
    /// `NOTE_EXPRESSION` with the CLAP expression id.
    Expression {
        time: u32,
        expression_id: i32,
        note_id: i32,
        port_index: i16,
        channel: i16,
        key: i16,
        value: u64,
    },
    ParamGestureBegin { param_id: u32 },
    ParamGestureEnd { param_id: u32 },
    /// Global (`-1` note scope) `PARAM_VALUE`.
    ParamValue { param_id: u32, plain: u64 },
}

/// The output event for one plugin note event at chunk start `base`
/// (times saturate); per-note parameter events are not sent back.
pub open spec fn out_of_note(ev: NoteEvent, base: u32) -> Option<OutEvent> {
    let time = if ev.sample_offset + base > u32::MAX {
        u32::MAX
    } else {
        (ev.sample_offset + base) as u32
    };
    match ev.kind {
        NoteEventKind::On { velocity } => Some(
            OutEvent::Note {
                time,
                action: NoteAction::On,
                note_id: ev.note_id,
                channel: ev.channel,
                key: ev.key,
                velocity,
            },
        ),
        NoteEventKind::Off { velocity } => Some(
            OutEvent::Note {
                time,
                action: NoteAction::Off,
                note_id: ev.note_id,
                channel: ev.channel,
                key: ev.key,
                velocity,
            },
        ),
        NoteEventKind::Choke => Some(
            OutEvent::Note {
                time,
                action: NoteAction::Choke,
                note_id: ev.note_id,
                channel: ev.channel,
                key: ev.key,
                velocity: 0,
            },
        ),
        NoteEventKind::End => Some(
            OutEvent::Note {
                time,
                action: NoteAction::End,
                note_id: ev.note_id,
                channel: ev.channel,
                key: ev.key,
                velocity: 0,
            },
        ),
        NoteEventKind::Expression { id, value } => Some(
            OutEvent::Expression {
                time,
                expression_id: clap_id_of(id),
                note_id: ev.note_id,
                port_index: ev.port_index,
                channel: ev.channel,
                key: ev.key,
                value,
            },
        ),
        NoteEventKind::ParamMod { .. } => None,
        NoteEventKind::ParamValue { .. } => None,
    }
}

/// Output events for a list of note events, in order.
pub open spec fn outs_of_notes(s: Seq<NoteEvent>, base: u32) -> Seq<OutEvent>
    decreases s.len(),
{
    if s.len() == 0 {
        Seq::empty()
    } else {
        let r = outs_of_notes(s.drop_last(), base);
        match out_of_note(s.last(), base) {
            Some(o) => r.push(o),
            None => r,
        }
    }
}

fn note_out_event(ev: NoteEvent, base: u32) -> (r: Option<OutEvent>)
    ensures
        r == out_of_note(ev, base),
{
    let time = ev.sample_offset.saturating_add(base);
    match ev.kind {
        NoteEventKind::On { velocity } => Some(
            OutEvent::Note {
                time,
                action: NoteAction::On,
                note_id: ev.note_id,
                channel: ev.channel,
                key: ev.key,
                velocity,
            },
        ),
        NoteEventKind::Off { velocity } => Some(
            OutEvent::Note {
                time,
                action: NoteAction::Off,
                note_id: ev.note_id,
                channel: ev.channel,
                key: ev.key,
                velocity,
            },
        ),
        NoteEventKind::Choke => Some(
            OutEvent::Note {
                time,
                action: NoteAction::Choke,
                note_id: ev.note_id,
                channel: ev.channel,
                key: ev.key,
                velocity: 0,
            },
        ),
        NoteEventKind::End => Some(
            OutEvent::Note {
                time,
                action: NoteAction::End,
                note_id: ev.note_id,
                channel: ev.channel,
                key: ev.key,
                velocity: 0,
            },
        ),
        NoteEventKind::Expression { id, value } => Some(
            OutEvent::Expression {
                time,
                expression_id: id.to_clap(),
                note_id: ev.note_id,
                port_index: ev.port_index,
                channel: ev.channel,
                key: ev.key,
                value,
            },
        ),
        NoteEventKind::ParamMod { .. } => None,
        NoteEventKind::ParamValue { .. } => None,
    }
}

/// The host events for the notes a plugin emitted during a chunk that
/// starts at sample `base`.
pub fn note_out_events(notes: &NoteBuffer, base: u32) -> (v: Vec<OutEvent>)
    ensures
        v@ == outs_of_notes(notes@, base),
{
    let evs = notes.as_slice();
    let n = evs.len();
    let mut v: Vec<OutEvent> = Vec::new();
    let mut i: usize = 0;
    while i < n
        invariant
            0 <= i <= n,
            n == evs@.len(),
            evs@ == notes@,
            v@ == outs_of_notes(evs@.take(i as int), base),
        decreases n - i,
    {
        proof {
            assert(evs@.take(i + 1).drop_last() == evs@.take(i as int));
        }
        match note_out_event(evs[i], base) {
            Some(o) => v.push(o),
            None => {},
        }
        i = i + 1;
    }
    proof {
        assert(evs@.take(n as int) == evs@);
    }
    v
}

/// The host event for an editor parameter event.
pub fn param_out_event(ev: ParamEvent) -> (r: OutEvent)
    ensures
        r == match ev {
            ParamEvent::GestureBegin(id) => OutEvent::ParamGestureBegin { param_id: id },
            ParamEvent::GestureEnd(id) => OutEvent::ParamGestureEnd { param_id: id },
            ParamEvent::Value { id, plain } => OutEvent::ParamValue { param_id: id, plain },
        },
{
    match ev {
        ParamEvent::GestureBegin(id) => OutEvent::ParamGestureBegin { param_id: id },
        ParamEvent::GestureEnd(id) => OutEvent::ParamGestureEnd { param_id: id },
        ParamEvent::Value { id, plain } => OutEvent::ParamValue { param_id: id, plain },
    }
}

} // verus!
