//! Shared content-scale + size handoff for HiDPI / multi-monitor editors.
//!
//! The host's scale factor and baseview's `Resized` write a shared cell; the
//! window handler reconciles the physical size on the next frame, so a scale
//! change without a logical-size change cannot strand the renderer. Scale
//! factors are `f64` values carried as IEEE-754 bits.

use vstd::prelude::*;
use std::sync::Arc;
use std::sync::atomic::AtomicU64;

verus! {

/// Bit pattern of `1.0_f64`.
pub const UNIT_SCALE_BITS: u64 = 0x3FF0_0000_0000_0000;

/// The `f64` with these bits is finite and greater than zero (positive
/// normal or subnormal).
pub open spec fn positive_finite(bits: u64) -> bool {
    0 < bits < 0x7FF0_0000_0000_0000
}

/// Whether a scale factor is usable (finite and positive).
pub fn is_usable_scale(bits: u64) -> (b: bool)
    ensures
        b == positive_finite(bits),
{
    0 < bits && bits < 0x7FF0_0000_0000_0000
}

/// The initial scale actually stored: unusable values become `1.0`.
pub fn initial_scale_bits(bits: u64) -> (r: u64)
    ensures
        r == (if positive_finite(bits) { bits } else { UNIT_SCALE_BITS }),
        positive_finite(r),
{
    if is_usable_scale(bits) {
        bits
    } else {
        UNIT_SCALE_BITS
    }
}

/// Live content-scale factor shared between the editor adapter and the
/// window handler (clones share the cell).
#[derive(Clone)]
pub struct EditorScale {
    inner: Arc<AtomicU64>,
    /// The bits the cell was created with.
    created: Ghost<u64>,
}

impl EditorScale {
    /// The bits `new` put into the cell (before any `set_bits`).
    pub closed spec fn created_bits(&self) -> u64 {
        self.created@
    }

    /// Construct with an initial scale; non-finite or non-positive values
    /// store `1.0` instead. A usable initial scale is stored unchanged.
    pub fn new(initial_bits: u64) -> (s: Self)
        ensures
            s.created_bits() == (if positive_finite(initial_bits) {
                initial_bits
            } else {
                UNIT_SCALE_BITS
            }),
            positive_finite(initial_bits) ==> s.created_bits() == initial_bits,
            !positive_finite(initial_bits) ==> s.created_bits() == UNIT_SCALE_BITS,
            positive_finite(s.created_bits()),
    {
        let v = initial_scale_bits(initial_bits);
        EditorScale { inner: Arc::new(AtomicU64::new(v)), created: Ghost(v) }
    }

    /// The current scale's bits (whatever the last accepted `set` stored,
    /// possibly from another thread).
    pub fn get_bits(&self) -> u64 {
        self.inner.load(std::sync::atomic::Ordering::Relaxed)
    }

    /// Update the scale; non-finite or non-positive values are ignored.
    /// Returns whether the value was stored.
    pub fn set_bits(&self, bits: u64) -> (stored: bool)
        ensures
            stored == positive_finite(bits),
    {
        if is_usable_scale(bits) {
            self.inner.store(bits, std::sync::atomic::Ordering::Relaxed);
            true
        } else {
            false
        }
    }
}

/// `w` in the high 32 bits, `h` in the low 32 bits.
pub open spec fn packed(w: u32, h: u32) -> u64 {
    (w as int * 0x1_0000_0000 + h as int) as u64
}

/// Pack `(width, height)` into a `u64` for atomic handoff. `0` = none.
pub fn pack_size(size: (u32, u32)) -> (p: u64)
    ensures
        p == packed(size.0, size.1),
{
    let w = size.0 as u64;
    let h = size.1 as u64;
    assert((w << 32u64) | h == w * 0x1_0000_0000 + h) by (bit_vector)
        requires
            w <= 0xFFFF_FFFF,
            h <= 0xFFFF_FFFF,
    ;
    (w << 32u64) | h
}

/// Inverse of [`pack_size`].
pub fn unpack_size(p: u64) -> (size: (u32, u32))
    ensures
        size.0 == p / 0x1_0000_0000,
        size.1 == p % 0x1_0000_0000,
{
    assert(p >> 32u64 == p / 0x1_0000_0000) by (bit_vector);
    assert(p & 0xFFFF_FFFFu64 == p % 0x1_0000_0000) by (bit_vector);
    ((p >> 32u64) as u32, (p & 0xFFFF_FFFFu64) as u32)
}

/// Unpacking a packed size gives the size back.
pub proof fn lemma_unpack_pack(w: u32, h: u32)
    ensures
        packed(w, h) / 0x1_0000_0000 == w,
        packed(w, h) % 0x1_0000_0000 == h,
{
    assert((w as int * 0x1_0000_0000 + h as int) / 0x1_0000_0000 == w as int) by (nonlinear_arith)
        requires
            0 <= h < 0x1_0000_0000,
            0 <= w,
    ;
    assert((w as int * 0x1_0000_0000 + h as int) % 0x1_0000_0000 == h as int) by (nonlinear_arith)
        requires
            0 <= h < 0x1_0000_0000,
            0 <= w,
    ;
}

/// Packing an unpacked value gives the value back.
pub proof fn lemma_pack_unpack(p: u64)
    ensures
        packed((p / 0x1_0000_0000) as u32, (p % 0x1_0000_0000) as u32) == p,
{
    assert(p == (p / 0x1_0000_0000) * 0x1_0000_0000 + p % 0x1_0000_0000) by (nonlinear_arith);
}

pub open spec fn clamp_spec(x: u32, lo: u32, hi: u32) -> u32 {
    if x < lo {
        lo
    } else if x > hi {
        hi
    } else {
        x
    }
}

pub open spec fn at_least_one(x: u32) -> u32 {
    if x < 1 { 1 } else { x }
}

/// Clamp a host logical size into `[min, max]` (a zero minimum counts as 1).
pub fn fit_size(w: u32, h: u32, min: (u32, u32), max: (u32, u32)) -> (r: (u32, u32))
    requires
        at_least_one(min.0) <= max.0,
        at_least_one(min.1) <= max.1,
    ensures
        r.0 == clamp_spec(w, at_least_one(min.0), max.0),
        r.1 == clamp_spec(h, at_least_one(min.1), max.1),
{
    let (min_w, min_h) = min;
    let (max_w, max_h) = max;
    let lo_w = if min_w < 1 { 1 } else { min_w };
    let lo_h = if min_h < 1 { 1 } else { min_h };
    let rw = if w < lo_w {
        lo_w
    } else if w > max_w {
        max_w
    } else {
        w
    };
    let rh = if h < lo_h {
        lo_h
    } else if h > max_h {
        max_h
    } else {
        h
    };
    (rw, rh)
}

/// A fitted size lies within the bounds, and fitting it again changes
/// nothing.
pub proof fn lemma_fit_size_settles(w: u32, h: u32, min: (u32, u32), max: (u32, u32))
    requires
        at_least_one(min.0) <= max.0,
        at_least_one(min.1) <= max.1,
    ensures
        at_least_one(min.0) <= clamp_spec(w, at_least_one(min.0), max.0) <= max.0,
        at_least_one(min.1) <= clamp_spec(h, at_least_one(min.1), max.1) <= max.1,
        clamp_spec(clamp_spec(w, at_least_one(min.0), max.0), at_least_one(min.0), max.0)
            == clamp_spec(w, at_least_one(min.0), max.0),
        clamp_spec(clamp_spec(h, at_least_one(min.1), max.1), at_least_one(min.1), max.1)
            == clamp_spec(h, at_least_one(min.1), max.1),
{
}

/// What a host's size request does to a fixed-zoom editor.
#[derive(Clone, Copy, Debug, PartialEq, Eq)]
pub struct SizeRequestOutcome {
    /// The request is granted as asked.
    pub accepted: bool,
    /// The editor's logical size afterwards.
    pub design_size: (u32, u32),
    /// A size to hand the window (drained per frame), if any.
    pub pending: Option<(u32, u32)>,
}

/// A size request: a zero side is refused; a resizable editor takes the
/// request fitted into its bounds; a fixed one only accepts its own size
/// and otherwise re-asserts it.
pub open spec fn size_request_of(
    design: (u32, u32),
    can_resize: bool,
    min: (u32, u32),
    max: (u32, u32),
    width: u32,
    height: u32,
) -> SizeRequestOutcome {
    if width == 0 || height == 0 {
        SizeRequestOutcome { accepted: false, design_size: design, pending: None }
    } else if can_resize {
        let fitted = (
            clamp_spec(width, at_least_one(min.0), max.0),
            clamp_spec(height, at_least_one(min.1), max.1),
        );
        SizeRequestOutcome { accepted: true, design_size: fitted, pending: Some(fitted) }
    } else if (width, height) != design {
        SizeRequestOutcome { accepted: false, design_size: design, pending: Some(design) }
    } else {
        SizeRequestOutcome { accepted: true, design_size: design, pending: None }
    }
}

/// Apply a host size request to an editor of logical size `design`.
pub fn editor_set_size(
    design: (u32, u32),
    can_resize: bool,
    min: (u32, u32),
    max: (u32, u32),
    width: u32,
    height: u32,
) -> (r: SizeRequestOutcome)
    requires
        can_resize ==> at_least_one(min.0) <= max.0 && at_least_one(min.1) <= max.1,
    ensures
        r == size_request_of(design, can_resize, min, max, width, height),
{
    if width == 0 || height == 0 {
        return SizeRequestOutcome { accepted: false, design_size: design, pending: None };
    }
    if can_resize {
        let fitted = fit_size(width, height, min, max);
        return SizeRequestOutcome { accepted: true, design_size: fitted, pending: Some(fitted) };
    }
    if width != design.0 || height != design.1 {
        return SizeRequestOutcome { accepted: false, design_size: design, pending: Some(design) };
    }
    SizeRequestOutcome { accepted: true, design_size: design, pending: None }
}

/// Size / scale policy handed to the window handler at open. Clones share
/// `scale` and `pending_size`.
pub struct SizePolicy {
    /// Design / current logical size reported by the editor.
    pub design_size: (u32, u32),
    pub min_size: (u32, u32),
    pub max_size: (u32, u32),
    pub can_resize: bool,
    /// Shared with the editor's scale setter and the window handler.
    pub scale: EditorScale,
    /// When true, only the host may write `scale` (embedded Linux plugins).
    pub host_driven_scale: bool,
    /// Packed `(w, h)` written by the editor's `set_size`; drained per frame.
    pub pending_size: Arc<AtomicU64>,
}

impl Clone for SizePolicy {
    fn clone(&self) -> (p: Self)
        ensures
            p.design_size == self.design_size,
            p.min_size == self.min_size,
            p.max_size == self.max_size,
            p.can_resize == self.can_resize,
            p.host_driven_scale == self.host_driven_scale,
    {
        SizePolicy {
            design_size: self.design_size,
            min_size: self.min_size,
            max_size: self.max_size,
            can_resize: self.can_resize,
            scale: self.scale.clone(),
            host_driven_scale: self.host_driven_scale,
            pending_size: Arc::clone(&self.pending_size),
        }
    }
}

impl SizePolicy {
    /// A non-resizable editor of this size.
    pub fn fixed(size: (u32, u32)) -> (p: Self)
        ensures
            p.design_size == size,
            p.min_size == size,
            p.max_size == size,
            !p.can_resize,
            !p.host_driven_scale,
    {
        SizePolicy {
            design_size: size,
            min_size: size,
            max_size: size,
            can_resize: false,
            scale: EditorScale::new(UNIT_SCALE_BITS),
            host_driven_scale: false,
            pending_size: Arc::new(AtomicU64::new(0)),
        }
    }

    /// A resizable editor of this size within `[min, max]`.
    pub fn resizable(size: (u32, u32), min: (u32, u32), max: (u32, u32)) -> (p: Self)
        ensures
            p.design_size == size,
            p.min_size == min,
            p.max_size == max,
            p.can_resize,
            !p.host_driven_scale,
    {
        SizePolicy {
            design_size: size,
            min_size: min,
            max_size: max,
            can_resize: true,
            scale: EditorScale::new(UNIT_SCALE_BITS),
            host_driven_scale: false,
            pending_size: Arc::new(AtomicU64::new(0)),
        }
    }
}

impl Default for SizePolicy {
    fn default() -> (p: Self)
        ensures
            p.design_size == (800u32, 600u32),
            p.min_size == (800u32, 600u32),
            p.max_size == (800u32, 600u32),
            !p.can_resize,
    {
        SizePolicy::fixed((800, 600))
    }
}

/// Soft-fail error when the GPU context cannot start (no host panic).
#[derive(Debug)]
pub struct GlInitError {
    pub message: String,
}

impl GlInitError {
    pub fn new(message: String) -> (e: Self)
        ensures
            e.message@ == message@,
    {
        GlInitError { message }
    }
}

} // verus!
