//! Portable analysis building blocks: relay masks, clip-wave bucketing and
//! the shared-memory publisher claim. Sample maths (FFT, dB) stay in the
//! floating-point side of the plugin.

use vstd::prelude::*;
use std::sync::Arc;
use std::sync::atomic::{AtomicI32, AtomicU32};

verus! {

/// Half-spectrum bin count.
pub const SPECTRUM_BINS: usize = 1024;
/// EQ band count used by multi-band product UIs.
pub const EQ_BANDS: usize = 5;
pub const SCOPE_BUFFER_LEN: usize = 4096;
/// Pre-clipper waveform ring length (signed linear samples).
pub const CLIP_WAVE_LEN: usize = 16384;

/// Editor-driving flag for relay active masks.
pub const RELAY_MASK_DRIVEN: u32 = 0x8000_0000;

/// Whether publisher `slot` is enabled under the editor's relay mask: every
/// slot is, until the editor drives the mask; then exactly the set bits.
pub fn relay_slot_active(mask: u32, slot: u8) -> (b: bool)
    requires
        slot < 32,
    ensures
        b == (mask & RELAY_MASK_DRIVEN == 0 || mask & (1u32 << slot) != 0),
{
    if mask & RELAY_MASK_DRIVEN == 0 {
        return true;
    }
    mask & (1u32 << slot) != 0
}

/// The driven flag is bit 31, so slot 31 is always active while driven.
pub proof fn lemma_driven_bit_is_slot_31(mask: u32)
    ensures
        mask & RELAY_MASK_DRIVEN != 0 ==> mask & (1u32 << 31u8) != 0,
{
    assert(mask & 0x8000_0000u32 != 0 ==> mask & (1u32 << 31u8) != 0) by (bit_vector);
}

/// Samples per display column of a ring (at least one).
pub open spec fn samples_per_col(ring_len: int, cols: int) -> int {
    let c = if cols < 1 { 1 } else { cols };
    let spp = ring_len / c;
    if spp < 1 { 1 } else { spp }
}

/// Sub-pixel scroll phase within the newest bucket, as `(numerator,
/// denominator)`: the phase is `numerator / denominator` in `0..1`.
pub fn clip_wave_scroll_phase_parts(write_pos: usize, ring_len: usize, cols: usize) -> (r: (usize, usize))
    ensures
        r.1 == samples_per_col(ring_len as int, cols as int),
        r.0 == write_pos % r.1,
        r.0 < r.1,
{
    let c = if cols < 1 { 1 } else { cols };
    let spp0 = ring_len / c;
    let spp = if spp0 < 1 { 1 } else { spp0 };
    (write_pos % spp, spp)
}

/// The ring positions of display column `col`: chronological order starts
/// at the oldest sample; the last column takes the remainder.
pub open spec fn bucket_of(len: int, cols: int, col: int) -> (int, int) {
    let spp = if len / cols < 1 { 1 } else { len / cols };
    let i0 = col * spp;
    let i1 = if col + 1 == cols { len } else if (col + 1) * spp < len { (col + 1) * spp } else { len };
    (i0, i1)
}

/// The display columns cover the ring exactly once, oldest first: column
/// `0` starts at the oldest sample, each column starts where the one before
/// ended, every column holds at least one sample, and the last column
/// ends at the newest.
pub proof fn lemma_buckets_tile_ring(len: int, c: int)
    requires
        1 <= c <= len,
    ensures
        bucket_of(len, c, 0).0 == 0,
        bucket_of(len, c, c - 1).1 == len,
        forall|k: int| 0 <= k < c - 1 ==> (#[trigger] bucket_of(len, c, k)).1 == bucket_of(len, c, k + 1).0,
        forall|k: int| 0 <= k < c ==> (#[trigger] bucket_of(len, c, k)).0 < bucket_of(len, c, k).1,
{
    let spp = len / c;
    assert(spp >= 1 && c * spp <= len) by (nonlinear_arith)
        requires
            spp == len / c,
            1 <= c <= len,
    ;
    assert forall|k: int| 0 <= k < c - 1 implies (#[trigger] bucket_of(len, c, k)).1 == bucket_of(len, c, k + 1).0 by {
        assert((k + 1) * spp <= len) by (nonlinear_arith)
            requires
                0 <= k < c,
                spp >= 1,
                c * spp <= len,
        ;
    }
    assert forall|k: int| 0 <= k < c implies (#[trigger] bucket_of(len, c, k)).0 < bucket_of(len, c, k).1 by {
        assert((k + 1) * spp <= len && k * spp < (k + 1) * spp) by (nonlinear_arith)
            requires
                0 <= k < c,
                spp >= 1,
                c * spp <= len,
        ;
    }
}

/// Where chronological order starts in a ring written up to `write_pos`:
/// the next slot to be written, which holds the oldest sample.
pub open spec fn ring_start(write_pos: usize, len: usize) -> int {
    write_pos as int % (len as int)
}

/// Bucket ranges for a filled min/max waveform over a ring of `len`
/// samples: `(start, ranges)` where sample `i` of the chronological order
/// is `ring[(start + i) % len]` and column `c` covers `ranges[c]`. Empty
/// when the ring or the display is empty.
pub fn clip_wave_buckets(len: usize, write_pos: usize, cols: usize) -> (r: (usize, Vec<(usize, usize)>))
    ensures
        (len == 0 || cols == 0) ==> r.1@.len() == 0,
        (len > 0 && cols > 0) ==> {
            let c = if cols < len { cols } else { len };
            &&& r.1@.len() == c
            &&& forall|k: int|
                0 <= k < c ==> (#[trigger] r.1@[k]).0 == bucket_of(len as int, c as int, k).0
                    && r.1@[k].1 == bucket_of(len as int, c as int, k).1
            &&& r.0 < len
            &&& r.0 == ring_start(write_pos, len)
        },
{
    let mut out: Vec<(usize, usize)> = Vec::new();
    if len == 0 || cols == 0 {
        return (0, out);
    }
    let c = if cols < len { cols } else { len };
    let start = write_pos % len;
    let spp0 = len / c;
    let spp = if spp0 < 1 { 1 } else { spp0 };
    assert(spp0 >= 1 && c * spp0 <= len) by (nonlinear_arith)
        requires
            spp0 == len / c,
            1 <= c <= len,
    ;
    let mut col: usize = 0;
    while col < c
        invariant
            0 <= col <= c,
            1 <= c <= len,
            spp == (if len / c < 1 { 1 } else { len / c }),
            spp == len / c,
            1 <= spp,
            c * spp <= len,
            out@.len() == col,
            forall|k: int|
                0 <= k < col ==> (#[trigger] out@[k]).0 == bucket_of(len as int, c as int, k).0
                    && out@[k].1 == bucket_of(len as int, c as int, k).1,
        decreases c - col,
    {
        assert((col as int) * (spp as int) <= len && ((col + 1) as int) * (spp as int) <= len)
            by (nonlinear_arith)
            requires
                col < c,
                c * spp <= len,
                spp >= 1,
        ;
        let i0 = col * spp;
        let next = (col + 1) * spp;
        let i1 = if col + 1 == c {
            len
        } else if next < len {
            next
        } else {
            len
        };
        out.push((i0, i1));
        col = col + 1;
    }
    (start, out)
}

/// Shared-memory publisher claim (the hub itself is product code).
pub struct ShmClaimShared {
    /// Registry slot claimed by audio/editor (`-1` = none).
    pub slot: Arc<AtomicI32>,
    /// Generation from the claim — travels with the slot.
    pub generation: Arc<AtomicU32>,
}

impl Clone for ShmClaimShared {
    fn clone(&self) -> Self {
        ShmClaimShared { slot: Arc::clone(&self.slot), generation: Arc::clone(&self.generation) }
    }
}

impl Default for ShmClaimShared {
    /// No slot claimed (`-1`), generation `0`.
    fn default() -> Self {
        ShmClaimShared { slot: Arc::new(AtomicI32::new(-1)), generation: Arc::new(AtomicU32::new(0)) }
    }
}

} // verus!
