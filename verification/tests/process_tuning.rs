use aura::process::{chunk_action, merge_chunk_status, ChunkAction, ProcessStatus};
use aura::tuning::{TuningEvent, TuningIdTable, INVALID_TUNING_ID};

fn block(chunks: &[ProcessStatus]) -> ProcessStatus {
    let mut acc = ProcessStatus::default();
    for c in chunks {
        let (next, stop) = merge_chunk_status(acc, *c);
        acc = next;
        if stop {
            break;
        }
    }
    acc
}

#[test]
fn default_status_is_continue() {
    assert_eq!(ProcessStatus::default(), ProcessStatus::Continue);
}

#[test]
fn error_stops_the_block() {
    assert_eq!(
        merge_chunk_status(ProcessStatus::TailFinished, ProcessStatus::Error),
        (ProcessStatus::Error, true)
    );
    assert_eq!(
        block(&[ProcessStatus::Continue, ProcessStatus::Error, ProcessStatus::TailFinished]),
        ProcessStatus::Error
    );
}

#[test]
fn finished_tail_sticks_through_later_chunks() {
    assert_eq!(
        merge_chunk_status(ProcessStatus::TailFinished, ProcessStatus::Continue),
        (ProcessStatus::TailFinished, false)
    );
    assert_eq!(
        block(&[ProcessStatus::TailFinished, ProcessStatus::Continue, ProcessStatus::Continue]),
        ProcessStatus::TailFinished
    );
    assert_eq!(block(&[ProcessStatus::Continue]), ProcessStatus::Continue);
    assert_eq!(block(&[]), ProcessStatus::Continue);
}

fn ev(port_index: i16, channel: i16, tuning_id: u32) -> TuningEvent {
    TuningEvent { sample_offset: 0, port_index, channel, tuning_id }
}

#[test]
fn no_selection_is_invalid_id() {
    let t = TuningIdTable::new();
    assert_eq!(t.current_id(0, 0), INVALID_TUNING_ID);
    assert_eq!(t.current_id(-1, -1), INVALID_TUNING_ID);
}

#[test]
fn most_specific_selection_wins() {
    let mut t = TuningIdTable::new();
    t.apply(&ev(-1, -1, 1));
    t.apply(&ev(0, -1, 2));
    t.apply(&ev(0, 3, 3));
    assert_eq!(t.current_id(0, 3), 3);
    assert_eq!(t.current_id(0, 4), 2);
    assert_eq!(t.current_id(1, 3), 1);
    assert_eq!(t.current_id(9, 0), 1);
    assert_eq!(t.current_id(0, 99), 2);
}

#[test]
fn reselect_overwrites_scope() {
    let mut t = TuningIdTable::new();
    t.apply(&ev(2, 5, 10));
    t.apply(&ev(2, 5, 11));
    assert_eq!(t.current_id(2, 5), 11);
    t.apply(&ev(2, 5, INVALID_TUNING_ID));
    assert_eq!(t.current_id(2, 5), INVALID_TUNING_ID);
}

use aura::process::{block_precheck, effective_out_channels, input_channel_map, MAX_AUDIO_CH};

#[test]
fn precheck_rejects_inactive_and_oversized_blocks() {
    assert_eq!(block_precheck(false, 64, 512), Some(ProcessStatus::Error));
    assert_eq!(block_precheck(true, 0, 512), Some(ProcessStatus::Continue));
    assert_eq!(block_precheck(true, 64, 0), Some(ProcessStatus::Error));
    assert_eq!(block_precheck(true, 513, 512), Some(ProcessStatus::Error));
    assert_eq!(block_precheck(true, 512, 512), None);
}

#[test]
fn output_channels_follow_the_host_port() {
    assert_eq!(effective_out_channels(2, Some(2)), 2);
    assert_eq!(effective_out_channels(2, Some(1)), 1);
    assert_eq!(effective_out_channels(1, Some(8)), 1);
    assert_eq!(effective_out_channels(2, None), 0);
}

#[test]
fn input_channels_fill_in_port_order_then_silence() {
    assert_eq!(
        input_channel_map(3, &[Some(2), None, Some(2)]),
        vec![Some((0, 0)), Some((0, 1)), Some((2, 0))]
    );
    assert_eq!(input_channel_map(3, &[Some(1)]), vec![Some((0, 0)), None, None]);
    assert!(input_channel_map(0, &[Some(2)]).is_empty());
    assert_eq!(input_channel_map(2, &[]), vec![None, None]);
    assert_eq!(MAX_AUDIO_CH, 8);
}

#[test]
fn chunk_loop_steps() {
    let splits = [0u32, 16, 16, 64];
    assert_eq!(
        chunk_action(&splits, 0, 64, ProcessStatus::Continue),
        ChunkAction::Run { start: 0, end: 16, single: false }
    );
    assert_eq!(chunk_action(&splits, 1, 64, ProcessStatus::Continue), ChunkAction::Skip);
    assert_eq!(chunk_action(&splits, 2, 32, ProcessStatus::Continue), ChunkAction::Fail);
    assert_eq!(
        chunk_action(&splits, 3, 64, ProcessStatus::TailFinished),
        ChunkAction::Finish(ProcessStatus::TailFinished)
    );
    assert_eq!(
        chunk_action(&[0, 64], 0, 64, ProcessStatus::Continue),
        ChunkAction::Run { start: 0, end: 64, single: true }
    );
}
