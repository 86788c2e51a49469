use aura::chunked_process::TimedParamEvent;
use aura::clap_support::MAX_NOTE_EVENTS;
use aura::host_events::{collect_host_events, route_host_event, HostEvent, NoteAction};
use aura::note_events::{NoteBuffer, NoteEventKind, NoteExpression, NoteTarget};
use aura::tuning::TuningEvent;

fn target(note_id: i32, key: i16) -> NoteTarget {
    NoteTarget { note_id, port_index: 0, channel: 0, key }
}

#[test]
fn events_are_routed_by_kind_and_scope() {
    let events = [
        HostEvent::ParamValue { time: 4, param_id: 1, value: 10, target: NoteTarget::unspecified() },
        HostEvent::ParamMod { time: 2, param_id: 2, amount: 20, target: target(5, 60) },
        HostEvent::Note { time: 0, action: NoteAction::On, velocity: 0.5f64.to_bits(), target: target(5, 60) },
        HostEvent::Expression { time: 3, expression_id: 2, value: 30, target: target(5, 60) },
        HostEvent::Tuning(TuningEvent { sample_offset: 1, port_index: -1, channel: -1, tuning_id: 9 }),
        HostEvent::Note { time: 6, action: NoteAction::Choke, velocity: 0, target: target(5, 60) },
    ];
    let mut timed = vec![TimedParamEvent::Value { sample_offset: 0, id: 99, plain: 0 }];
    let mut notes = NoteBuffer::new();
    let mut tuning = Vec::new();
    collect_host_events(&events, &mut timed, &mut notes, &mut tuning);
    assert_eq!(timed, vec![TimedParamEvent::Value { sample_offset: 4, id: 1, plain: 10 }]);
    assert_eq!(tuning.len(), 1);
    assert_eq!(tuning[0].tuning_id, 9);
    let kinds: Vec<(u32, NoteEventKind)> = notes.as_slice().iter().map(|e| (e.sample_offset, e.kind)).collect();
    assert_eq!(
        kinds,
        vec![
            (0, NoteEventKind::On { velocity: 0.5f64.to_bits() }),
            (2, NoteEventKind::ParamMod { param_id: 2, amount: 20 }),
            (3, NoteEventKind::Expression { id: NoteExpression::Tuning, value: 30 }),
            (6, NoteEventKind::Choke),
        ]
    );
}

#[test]
fn flood_caps_expressions_but_not_notes() {
    let mut timed = Vec::new();
    let mut notes = NoteBuffer::new();
    let mut tuning = Vec::new();
    let expr = HostEvent::Expression { time: 1, expression_id: 0, value: 0, target: target(1, 60) };
    for _ in 0..MAX_NOTE_EVENTS + 10 {
        route_host_event(&expr, &mut timed, &mut notes, &mut tuning);
    }
    assert_eq!(notes.len(), MAX_NOTE_EVENTS);
    let poly_mod = HostEvent::ParamMod { time: 1, param_id: 3, amount: 1, target: target(1, 60) };
    route_host_event(&poly_mod, &mut timed, &mut notes, &mut tuning);
    assert_eq!(notes.len(), MAX_NOTE_EVENTS);
    let mono_mod = HostEvent::ParamMod { time: 1, param_id: 3, amount: 1, target: NoteTarget::unspecified() };
    route_host_event(&mono_mod, &mut timed, &mut notes, &mut tuning);
    assert_eq!(timed.len(), 1);
    let off = HostEvent::Note { time: 2, action: NoteAction::Off, velocity: 0, target: target(1, 60) };
    route_host_event(&off, &mut timed, &mut notes, &mut tuning);
    route_host_event(&off, &mut timed, &mut notes, &mut tuning);
    assert_eq!(notes.len(), MAX_NOTE_EVENTS + 2);
    assert_eq!(notes.as_slice()[MAX_NOTE_EVENTS].kind, NoteEventKind::Off { velocity: 0 });
}

#[test]
fn end_action_maps_to_end_kind() {
    let mut timed = Vec::new();
    let mut notes = NoteBuffer::new();
    let mut tuning = Vec::new();
    let end = HostEvent::Note { time: 7, action: NoteAction::End, velocity: 0, target: target(3, 62) };
    route_host_event(&end, &mut timed, &mut notes, &mut tuning);
    assert_eq!(notes.as_slice()[0].kind, NoteEventKind::End);
    assert_eq!(notes.as_slice()[0].note_id, 3);
}

use aura::host_events::{note_out_events, param_out_event, OutEvent, ParamEvent};
use aura::note_events::NoteEvent;

#[test]
fn notes_out_maps_end_to_clap_note_end() {
    let mut out = NoteBuffer::new();
    out.push(NoteEvent::end(5, 3, 60));
    out.push(NoteEvent::on(1, 4, 62, 7));
    out.push(NoteEvent {
        sample_offset: 2,
        note_id: 4,
        port_index: 1,
        channel: 2,
        key: 62,
        kind: NoteEventKind::ParamMod { param_id: 1, amount: 0 },
    });
    out.push(NoteEvent {
        sample_offset: 3,
        note_id: 4,
        port_index: 1,
        channel: 2,
        key: 62,
        kind: NoteEventKind::Expression { id: NoteExpression::Pan, value: 9 },
    });
    let evs = note_out_events(&out, 100);
    assert_eq!(
        evs,
        vec![
            OutEvent::Note { time: 101, action: NoteAction::On, note_id: 4, channel: 0, key: 62, velocity: 7 },
            OutEvent::Expression { time: 103, expression_id: 1, note_id: 4, port_index: 1, channel: 2, key: 62, value: 9 },
            OutEvent::Note { time: 105, action: NoteAction::End, note_id: 3, channel: 0, key: 60, velocity: 0 },
        ]
    );
}

#[test]
fn out_times_saturate() {
    let mut out = NoteBuffer::new();
    out.push(NoteEvent::on(10, 1, 60, 0));
    let evs = note_out_events(&out, u32::MAX - 3);
    assert!(matches!(evs[0], OutEvent::Note { time: u32::MAX, .. }));
}

#[test]
fn editor_param_events_become_host_events() {
    assert_eq!(param_out_event(ParamEvent::GestureBegin(4)), OutEvent::ParamGestureBegin { param_id: 4 });
    assert_eq!(param_out_event(ParamEvent::GestureEnd(4)), OutEvent::ParamGestureEnd { param_id: 4 });
    assert_eq!(
        param_out_event(ParamEvent::Value { id: 4, plain: 0.5f64.to_bits() }),
        OutEvent::ParamValue { param_id: 4, plain: 0.5f64.to_bits() }
    );
}
