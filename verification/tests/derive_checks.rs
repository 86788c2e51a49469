use aura::derive_checks::{
    check_param_ids, derive_verdict, DeriveError, first_midi_conflict, first_repeated_key, meter_ids, midi_attr, IdError,
    MidiAttrEffect, MidiAttrError, MidiBindKind, MidiLit, METER_ID_BASE,
};

#[test]
fn ids_ok_when_explicit_distinct_and_below_meter_range() {
    assert_eq!(check_param_ids(&[Some(1), Some(2), Some(METER_ID_BASE - 1)]), Ok(()));
    assert_eq!(check_param_ids(&[]), Ok(()));
}

#[test]
fn missing_id_reported_before_other_problems() {
    assert_eq!(
        check_param_ids(&[Some(1), Some(1), None, None]),
        Err(IdError::Missing { field: 2 })
    );
}

#[test]
fn first_clash_in_field_order() {
    assert_eq!(
        check_param_ids(&[Some(4), Some(METER_ID_BASE), Some(4)]),
        Err(IdError::InMeterRange { field: 1, id: METER_ID_BASE })
    );
    assert_eq!(
        check_param_ids(&[Some(4), Some(7), Some(4), Some(u32::MAX)]),
        Err(IdError::Duplicate { field: 2, id: 4 })
    );
}

#[test]
fn meters_numbered_from_base() {
    assert_eq!(meter_ids(3), vec![METER_ID_BASE, METER_ID_BASE + 1, METER_ID_BASE + 2]);
    assert!(meter_ids(0).is_empty());
    assert_eq!(METER_ID_BASE, 1 << 24);
}

#[test]
fn midi_conflicts_need_same_source_and_overlapping_channel() {
    let cc = MidiBindKind::Cc(74);
    assert_eq!(first_midi_conflict(&[(cc, Some(0)), (cc, Some(1))]), None);
    assert_eq!(first_midi_conflict(&[(cc, Some(0)), (MidiBindKind::Cc(75), None)]), None);
    assert_eq!(
        first_midi_conflict(&[(MidiBindKind::PitchBend, Some(3)), (cc, Some(1)), (cc, None), (MidiBindKind::PitchBend, Some(3))]),
        Some((0, 3))
    );
    assert_eq!(first_midi_conflict(&[(cc, Some(2)), (cc, Some(2))]), Some((0, 1)));
    assert_eq!(first_midi_conflict(&[]), None);
}

#[test]
fn midi_cc_attribute() {
    assert_eq!(
        midi_attr("midi_cc", &MidiLit::Int(Some(74)), false),
        MidiAttrEffect::Bind(MidiBindKind::Cc(74))
    );
    assert_eq!(
        midi_attr("midi_cc", &MidiLit::Int(Some(128)), false),
        MidiAttrEffect::Fail(MidiAttrError::CcOutOfRange)
    );
    assert_eq!(
        midi_attr("midi_cc", &MidiLit::Int(None), false),
        MidiAttrEffect::Fail(MidiAttrError::CcOutOfRange)
    );
    assert_eq!(
        midi_attr("midi_cc", &MidiLit::Int(Some(1)), true),
        MidiAttrEffect::Fail(MidiAttrError::BothSet)
    );
    assert_eq!(
        midi_attr("midi_cc", &MidiLit::Str("1".to_string()), false),
        MidiAttrEffect::Fail(MidiAttrError::ExpectsInteger)
    );
}

#[test]
fn midi_source_attribute() {
    assert_eq!(
        midi_attr("midi_source", &MidiLit::Str("pressure".to_string()), false),
        MidiAttrEffect::Bind(MidiBindKind::ChannelPressure)
    );
    assert_eq!(
        midi_attr("midi_source", &MidiLit::Str("program".to_string()), false),
        MidiAttrEffect::Bind(MidiBindKind::ProgramChange)
    );
    assert_eq!(
        midi_attr("midi_source", &MidiLit::Str("pitchbend".to_string()), false),
        MidiAttrEffect::Bind(MidiBindKind::PitchBend)
    );
    assert_eq!(
        midi_attr("midi_source", &MidiLit::Str("aftertouch".to_string()), false),
        MidiAttrEffect::Fail(MidiAttrError::UnknownSource)
    );
    assert_eq!(
        midi_attr("midi_source", &MidiLit::Str("bogus".to_string()), true),
        MidiAttrEffect::Fail(MidiAttrError::BothSet)
    );
    assert_eq!(
        midi_attr("midi_source", &MidiLit::Int(Some(3)), false),
        MidiAttrEffect::Fail(MidiAttrError::ExpectsString)
    );
}

#[test]
fn midi_channel_attribute() {
    assert_eq!(
        midi_attr("midi_channel", &MidiLit::Int(Some(1)), true),
        MidiAttrEffect::Channel(0)
    );
    assert_eq!(
        midi_attr("midi_channel", &MidiLit::Int(Some(16)), false),
        MidiAttrEffect::Channel(15)
    );
    assert_eq!(
        midi_attr("midi_channel", &MidiLit::Int(Some(0)), false),
        MidiAttrEffect::Fail(MidiAttrError::ChannelOutOfRange)
    );
    assert_eq!(
        midi_attr("midi_channel", &MidiLit::Other, false),
        MidiAttrEffect::Fail(MidiAttrError::ExpectsInteger)
    );
    assert_eq!(
        midi_attr("midi_other", &MidiLit::Int(Some(1)), false),
        MidiAttrEffect::Fail(MidiAttrError::ExpectsInteger)
    );
}

#[test]
fn repeated_persist_keys() {
    let keys: Vec<String> = ["zoom", "tab", "eq", "tab", "zoom"].iter().map(|s| s.to_string()).collect();
    assert_eq!(first_repeated_key(&keys), Some(3));
    let ok: Vec<String> = ["a", "b"].iter().map(|s| s.to_string()).collect();
    assert_eq!(first_repeated_key(&ok), None);
    assert_eq!(first_repeated_key(&[]), None);
}

#[test]
fn verdict_takes_the_first_failing_check_in_order() {
    let keys = vec!["a".to_string(), "a".to_string()];
    let bound = [(MidiBindKind::Cc(1), None), (MidiBindKind::Cc(1), Some(3))];
    assert_eq!(derive_verdict(false, &[None], &bound, &keys), Err(DeriveError::NoFields));
    assert_eq!(
        derive_verdict(true, &[None], &bound, &keys),
        Err(DeriveError::Ids(IdError::Missing { field: 0 }))
    );
    assert_eq!(
        derive_verdict(true, &[Some(1)], &bound, &keys),
        Err(DeriveError::MidiConflict { first: 0, second: 1 })
    );
    assert_eq!(
        derive_verdict(true, &[Some(1)], &bound[..1], &keys),
        Err(DeriveError::RepeatedKey { index: 1 })
    );
    assert_eq!(derive_verdict(true, &[Some(1)], &bound[..1], &keys[..1]), Ok(()));
}
