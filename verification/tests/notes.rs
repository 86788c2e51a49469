use aura::chunked_process::TimedParamEvent;
use aura::note_events::{
    route_param_mod, route_param_value, NoteBuffer, NoteEvent, NoteEventKind, NoteExpression,
    NoteTarget, NOTE_UNSPECIFIED,
};
use aura::note_voices::NoteVoiceTable;

fn bits(x: f64) -> u64 {
    x.to_bits()
}

fn val(b: u64) -> f64 {
    f64::from_bits(b)
}

fn expression(sample_offset: u32, note_id: i32, key: i16, id: NoteExpression, value: f64) -> NoteEvent {
    NoteEvent {
        sample_offset,
        note_id,
        port_index: 0,
        channel: 0,
        key,
        kind: NoteEventKind::Expression { id, value: bits(value) },
    }
}

#[test]
fn poly_mod_does_not_enter_timed_params() {
    let mut timed = Vec::new();
    let mut notes = NoteBuffer::new();
    route_param_mod(
        &mut timed,
        &mut notes,
        8,
        1,
        bits(0.25),
        NoteTarget { note_id: 7, port_index: 0, channel: 0, key: 60 },
    );
    route_param_mod(&mut timed, &mut notes, 0, 1, bits(0.1), NoteTarget::unspecified());
    assert_eq!(timed.len(), 1);
    assert!(matches!(
        timed[0],
        TimedParamEvent::Mod { sample_offset: 0, id: 1, amount: a } if (val(a) - 0.1).abs() < 1e-12
    ));
    assert_eq!(notes.len(), 1);
    let ev = notes.as_slice()[0];
    assert_eq!(ev.note_id, 7);
    assert_eq!(ev.sample_offset, 8);
    assert!(matches!(
        ev.kind,
        NoteEventKind::ParamMod { param_id: 1, amount: a } if (val(a) - 0.25).abs() < 1e-12
    ));
}

#[test]
fn poly_value_goes_to_notes_mono_to_timed() {
    let mut timed = Vec::new();
    let mut notes = NoteBuffer::new();
    route_param_value(
        &mut timed,
        &mut notes,
        3,
        9,
        bits(0.5),
        NoteTarget { note_id: 2, port_index: 1, channel: 4, key: 61 },
    );
    route_param_value(&mut timed, &mut notes, 6, 9, bits(0.75), NoteTarget::unspecified());
    assert_eq!(
        timed,
        vec![TimedParamEvent::Value { sample_offset: 6, id: 9, plain: bits(0.75) }]
    );
    assert_eq!(
        notes.to_vec(),
        vec![NoteEvent {
            sample_offset: 3,
            note_id: 2,
            port_index: 1,
            channel: 4,
            key: 61,
            kind: NoteEventKind::ParamValue { param_id: 9, plain: bits(0.5) },
        }]
    );
}

#[test]
fn slice_rebases_and_matches_voice() {
    let mut notes = NoteBuffer::new();
    notes.push(NoteEvent::on(10, 1, 60, bits(0.8)));
    notes.push(expression(20, 1, 60, NoteExpression::Tuning, 0.5));
    notes.push(NoteEvent::on(40, 2, 64, bits(0.5)));
    let chunk = notes.slice_rebased(10, 30);
    assert_eq!(chunk.len(), 2);
    assert_eq!(chunk.as_slice()[0].sample_offset, 0);
    assert_eq!(chunk.as_slice()[1].sample_offset, 10);
    assert!(chunk.as_slice()[1].matches_voice(1, 60));
    assert!(!chunk.as_slice()[1].matches_voice(2, 64));
}

#[test]
fn copy_range_rebased_reuses_buffer() {
    let mut notes = NoteBuffer::new();
    notes.push(NoteEvent::on(10, 1, 60, bits(0.8)));
    notes.push(NoteEvent::on(40, 2, 64, bits(0.5)));
    let mut dest = NoteBuffer::with_capacity(8);
    dest.copy_range_rebased(&notes, 10, 30);
    assert_eq!(dest.len(), 1);
    assert_eq!(dest.as_slice()[0].sample_offset, 0);
    dest.copy_range_rebased(&notes, 0, 50);
    assert_eq!(dest.len(), 2);
}

#[test]
fn push_keeps_offset_order_and_arrival_order() {
    let mut notes = NoteBuffer::new();
    notes.push(NoteEvent::on(30, 1, 60, 0));
    notes.push(NoteEvent::on(10, 2, 61, 0));
    notes.push(NoteEvent::on(30, 3, 62, 0));
    notes.push(NoteEvent::on(20, 4, 63, 0));
    notes.push(NoteEvent::on(10, 5, 64, 0));
    let ids: Vec<i32> = notes.as_slice().iter().map(|e| e.note_id).collect();
    assert_eq!(ids, vec![2, 5, 4, 1, 3]);
}

#[test]
fn iter_range_is_half_open() {
    let mut notes = NoteBuffer::new();
    for off in [0u32, 5, 10, 15] {
        notes.push(NoteEvent::on(off, off as i32, 60, 0));
    }
    let got: Vec<u32> = notes.iter_range(5, 15).iter().map(|e| e.sample_offset).collect();
    assert_eq!(got, vec![5, 10]);
    assert!(notes.iter_range(20, 30).is_empty());
}

#[test]
fn clear_and_is_empty() {
    let mut notes = NoteBuffer::with_capacity(4);
    assert!(notes.is_empty());
    notes.push(NoteEvent::end(1, 1, 60));
    notes.reserve(16);
    assert!(!notes.is_empty());
    notes.clear();
    assert!(notes.is_empty());
    assert_eq!(notes.len(), 0);
}

#[test]
fn wildcards_match_any_voice() {
    let ev = NoteEvent::on(0, NOTE_UNSPECIFIED, -1, 0);
    assert!(ev.matches_voice(5, 70));
    let keyed = NoteEvent::on(0, NOTE_UNSPECIFIED, 60, 0);
    assert!(keyed.matches_voice(9, 60));
    assert!(!keyed.matches_voice(9, 61));
    assert!(NoteEvent::on(0, 4, 60, 0).matches_voice(-1, 60));
}

#[test]
fn expression_ids_round_trip() {
    for id in -2..10 {
        assert_eq!(NoteExpression::from_clap(id).to_clap(), id);
    }
    assert_eq!(NoteExpression::from_clap(2), NoteExpression::Tuning);
    assert_eq!(NoteExpression::from_clap(42), NoteExpression::Other(42));
    assert_eq!(NoteExpression::Pressure.to_clap(), 6);
}

#[test]
fn note_event_constructors() {
    let off = NoteEvent::off(3, 8, 62, bits(0.1));
    assert_eq!(off.kind, NoteEventKind::Off { velocity: bits(0.1) });
    assert_eq!((off.port_index, off.channel), (0, 0));
    assert_eq!(NoteEvent::end(4, 8, 62).kind, NoteEventKind::End);
    let t = NoteTarget::unspecified();
    assert_eq!((t.note_id, t.port_index, t.channel, t.key), (-1, -1, -1, -1));
}

#[test]
fn on_off_end_and_steal() {
    let mut table = NoteVoiceTable::new(1);
    let mut notes = NoteBuffer::new();
    notes.push(NoteEvent::on(0, 3, 60, bits(0.8)));
    table.apply(&notes);
    assert_eq!(table.occupied_count(), 1);
    assert!((val(table.voices()[0].velocity) as f32 - 0.8).abs() < 1e-6);
    assert!(table.voices()[0].is_gated());

    notes.clear();
    notes.push(NoteEvent::off(4, 3, 60, bits(0.0)));
    table.apply(&notes);
    assert!(table.voices()[0].is_occupied());
    assert!(!table.voices()[0].is_gated());

    let mut out = NoteBuffer::new();
    table.mark_silent(0, 20);
    table.flush_ends(&mut out);
    assert_eq!(out.len(), 1);
    assert!(matches!(out.as_slice()[0].kind, NoteEventKind::End));
    assert_eq!(out.as_slice()[0].note_id, 3);
    assert_eq!(table.occupied_count(), 0);

    notes.clear();
    notes.push(NoteEvent::on(0, 1, 64, bits(1.0)));
    table.apply(&notes);
    notes.clear();
    notes.push(NoteEvent::on(8, 2, 67, bits(1.0)));
    table.apply(&notes);
    out.clear();
    table.flush_ends(&mut out);
    assert_eq!(out.len(), 1);
    assert_eq!(out.as_slice()[0].note_id, 1);
    assert_eq!(table.voices()[0].note_id, 2);
}

#[test]
fn expression_matches_note_id() {
    let mut table = NoteVoiceTable::new(2);
    let mut notes = NoteBuffer::new();
    notes.push(NoteEvent::on(0, 1, 60, bits(1.0)));
    notes.push(NoteEvent::on(0, 2, 64, bits(1.0)));
    notes.push(expression(1, 2, 64, NoteExpression::Tuning, 7.0));
    table.apply(&notes);
    assert!(val(table.voices()[0].tuning).abs() < 1e-6);
    assert!((val(table.voices()[1].tuning) - 7.0).abs() < 1e-6);
}

#[test]
fn table_size_is_clamped() {
    assert_eq!(NoteVoiceTable::new(0).max_voices(), 1);
    assert_eq!(NoteVoiceTable::new(500).max_voices(), 128);
    assert_eq!(NoteVoiceTable::new(6).max_voices(), 6);
}

#[test]
fn choke_frees_and_reports_end() {
    let mut table = NoteVoiceTable::new(2);
    let mut notes = NoteBuffer::new();
    notes.push(NoteEvent::on(0, 5, 60, bits(1.0)));
    notes.push(NoteEvent {
        sample_offset: 2,
        note_id: 5,
        port_index: 0,
        channel: 0,
        key: 60,
        kind: NoteEventKind::Choke,
    });
    table.apply(&notes);
    assert_eq!(table.occupied_count(), 0);
    let mut out = NoteBuffer::new();
    table.flush_ends(&mut out);
    assert_eq!(out.len(), 1);
    assert_eq!(out.as_slice()[0].note_id, 5);
    assert_eq!(out.as_slice()[0].kind, NoteEventKind::End);
}

#[test]
fn host_end_frees_silently() {
    let mut table = NoteVoiceTable::new(2);
    let mut notes = NoteBuffer::new();
    notes.push(NoteEvent::on(0, 5, 60, bits(1.0)));
    notes.push(NoteEvent::end(1, 5, 60));
    table.apply(&notes);
    assert_eq!(table.occupied_count(), 0);
    let mut out = NoteBuffer::new();
    table.flush_ends(&mut out);
    assert!(out.is_empty());
}

#[test]
fn mark_silent_by_id_and_all() {
    let mut table = NoteVoiceTable::new(4);
    let mut notes = NoteBuffer::new();
    notes.push(NoteEvent::on(0, 1, 60, bits(1.0)));
    notes.push(NoteEvent::on(0, 2, 62, bits(1.0)));
    notes.push(NoteEvent::on(0, 3, 64, bits(1.0)));
    table.apply(&notes);
    table.mark_silent_id(2, 9);
    assert_eq!(table.occupied_count(), 2);
    table.mark_all_silent(11);
    assert_eq!(table.occupied_count(), 0);
    let mut out = NoteBuffer::new();
    table.flush_ends(&mut out);
    let ends: Vec<(u32, i32)> = out.as_slice().iter().map(|e| (e.sample_offset, e.note_id)).collect();
    assert_eq!(ends, vec![(9, 2), (11, 1), (11, 3)]);
}

#[test]
fn mark_silent_on_free_slot_is_a_no_op() {
    let mut table = NoteVoiceTable::new(2);
    table.mark_silent(1, 5);
    table.mark_silent(7, 5);
    let mut out = NoteBuffer::new();
    table.flush_ends(&mut out);
    assert!(out.is_empty());
}
