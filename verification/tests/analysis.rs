use aura::analysis::{
    clip_wave_buckets, clip_wave_scroll_phase_parts, relay_slot_active, ShmClaimShared,
    RELAY_MASK_DRIVEN,
};
use std::sync::atomic::Ordering;

fn minmax_window(ring: &[f32], write_pos: usize, cols: usize) -> Vec<(f32, f32)> {
    let (start, ranges) = clip_wave_buckets(ring.len(), write_pos, cols);
    ranges
        .iter()
        .map(|&(i0, i1)| {
            let mut min = f32::MAX;
            let mut max = f32::MIN;
            for i in i0..i1 {
                let v = ring[(start + i) % ring.len()];
                min = min.min(v);
                max = max.max(v);
            }
            if min == f32::MAX { (0.0, 0.0) } else { (min, max) }
        })
        .collect()
}

#[test]
fn relay_slot_active_respects_bits() {
    assert!(relay_slot_active(0, 0));
    assert!(relay_slot_active(0, 2));
    let mask = (1 << 2) | RELAY_MASK_DRIVEN;
    assert!(!relay_slot_active(mask, 0));
    assert!(relay_slot_active(mask, 2));
    assert!(!relay_slot_active(RELAY_MASK_DRIVEN, 0));
    assert!(!relay_slot_active(RELAY_MASK_DRIVEN, 2));
}

#[test]
fn driven_mask_keeps_slot_31_active() {
    assert!(relay_slot_active(RELAY_MASK_DRIVEN, 31));
}

#[test]
fn minmax_window_buckets_signed_samples() {
    let ring = vec![1.0, -0.5, 0.8, -1.0, 0.0, 0.2];
    let out = minmax_window(&ring, 6, 3);
    assert_eq!(out.len(), 3);
    assert_eq!(out[0], (-0.5, 1.0));
    assert_eq!(out[1], (-1.0, 0.8));
    assert_eq!(out[2], (0.0, 0.2));
}

#[test]
fn buckets_start_at_oldest_and_last_takes_remainder() {
    let (start, ranges) = clip_wave_buckets(7, 9, 3);
    assert_eq!(start, 2);
    assert_eq!(ranges, vec![(0, 2), (2, 4), (4, 7)]);
}

#[test]
fn buckets_start_at_next_write_slot() {
    let (start, ranges) = clip_wave_buckets(3, 1, 3);
    assert_eq!(start, 1);
    assert_eq!(ranges, vec![(0, 1), (1, 2), (2, 3)]);
    let ring = vec![10.0, 20.0, 30.0];
    let out = minmax_window(&ring, 1, 3);
    assert_eq!(out, vec![(20.0, 20.0), (30.0, 30.0), (10.0, 10.0)]);
}

#[test]
fn buckets_empty_for_empty_ring_or_display() {
    assert!(clip_wave_buckets(0, 3, 4).1.is_empty());
    assert!(clip_wave_buckets(8, 3, 0).1.is_empty());
}

#[test]
fn more_columns_than_samples_is_one_per_sample() {
    let (_, ranges) = clip_wave_buckets(3, 0, 10);
    assert_eq!(ranges, vec![(0, 1), (1, 2), (2, 3)]);
}

#[test]
fn scroll_phase_wraps_within_bucket() {
    assert_eq!(clip_wave_scroll_phase_parts(0, 8192, 320), (0, 25));
    let (n, d) = clip_wave_scroll_phase_parts(13, 8192, 320);
    assert!((n as f32 / d as f32 - 13.0 / 25.0).abs() < 1e-5);
    assert_eq!(clip_wave_scroll_phase_parts(7, 4, 0), (3, 4));
}

#[test]
fn shm_claim_default_is_unclaimed() {
    let c = ShmClaimShared::default();
    assert_eq!(c.slot.load(Ordering::Relaxed), -1);
    assert_eq!(c.generation.load(Ordering::Relaxed), 0);
    let d = c.clone();
    d.slot.store(3, Ordering::Relaxed);
    assert_eq!(c.slot.load(Ordering::Relaxed), 3);
}
