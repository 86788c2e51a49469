use aura::chunked_process::{
    chunked_events_at, is_split_event, non_chunked_events, split_points, TimedParamEvent,
};
use aura::params::{ParamFlags, ParamInfo, AUTOMATABLE, CHUNKED};

fn info(id: u32, chunked: bool) -> ParamInfo {
    ParamInfo {
        id,
        group: String::new(),
        flags: ParamFlags::from_bits(if chunked { AUTOMATABLE | CHUNKED } else { AUTOMATABLE }),
        stepped: false,
    }
}

fn value(sample_offset: u32, id: u32, plain: f64) -> TimedParamEvent {
    TimedParamEvent::Value { sample_offset, id, plain: plain.to_bits() }
}

#[test]
fn split_only_chunked_mid_block() {
    let infos = [info(1, true), info(2, false)];
    let events = [value(0, 1, 0.5), value(64, 1, 1.0), value(32, 2, 0.25)];
    assert_eq!(split_points(128, &events, &infos), vec![0, 64, 128]);
}

#[test]
fn no_split_when_nothing_chunked() {
    let infos = [info(1, false)];
    let events = [value(50, 1, 1.0)];
    assert_eq!(split_points(100, &events, &infos), vec![0, 100]);
}

#[test]
fn split_points_sorted_and_deduplicated() {
    let infos = [info(1, true)];
    let events = [value(96, 1, 0.1), value(16, 1, 0.2), value(96, 1, 0.3), value(200, 1, 0.4)];
    assert_eq!(split_points(128, &events, &infos), vec![0, 16, 96, 128]);
}

#[test]
fn empty_block_has_one_point() {
    assert_eq!(split_points(0, &[], &[]), vec![0]);
}

#[test]
fn unknown_ids_do_not_split() {
    let infos = [info(1, true)];
    let ev = value(10, 9, 0.0);
    assert!(!is_split_event(&ev, &infos));
    assert_eq!(split_points(20, &[ev], &infos), vec![0, 20]);
}

#[test]
fn first_info_with_an_id_decides() {
    let infos = [info(1, false), info(1, true)];
    assert!(!is_split_event(&value(3, 1, 0.0), &infos));
}

#[test]
fn events_partition_by_chunking() {
    let infos = [info(1, true), info(2, false)];
    let m = TimedParamEvent::Mod { sample_offset: 64, id: 1, amount: 0.5f64.to_bits() };
    let events = [value(0, 2, 0.1), value(64, 1, 1.0), m, value(5, 2, 0.2)];
    assert_eq!(non_chunked_events(&events, &infos), vec![events[0], events[3]]);
    assert_eq!(chunked_events_at(&events, 64, &infos), vec![events[1], events[2]]);
    assert!(chunked_events_at(&events, 0, &infos).is_empty());
}

#[test]
fn event_accessors() {
    let m = TimedParamEvent::Mod { sample_offset: 7, id: 3, amount: 0 };
    assert_eq!(m.sample_offset(), 7);
    assert_eq!(m.param_id(), 3);
}

use aura::chunked_process::block_split_points;
use aura::tuning::TuningEvent;

fn tuning_at(sample_offset: u32) -> TuningEvent {
    TuningEvent { sample_offset, port_index: -1, channel: -1, tuning_id: 1 }
}

#[test]
fn tuning_selections_split_the_block_too() {
    let infos = [info(1, true)];
    let events = [value(64, 1, 1.0)];
    let tuning = [tuning_at(32), tuning_at(64), tuning_at(0), tuning_at(128), tuning_at(200)];
    assert_eq!(block_split_points(128, &events, &infos, &tuning), vec![0, 32, 64, 128]);
    assert_eq!(block_split_points(128, &[], &[], &[]), vec![0, 128]);
}
