//! Voice management for polyphonic synthesis: allocation, stealing and
//! per-voice state tracking.
//!
//! The voice pool is a `smallvec::SmallVec` with 16 inline slots, so
//! typical pools stay on the stack and larger ones (up to 128) spill to the
//! heap. Per-voice `f32` values (velocity, amplitude, …) are carried as
//! their IEEE-754 bit patterns (`f32::to_bits`).

use vstd::prelude::*;
use smallvec::SmallVec;

verus! {

/// Inline voice capacity; the pool spills to the heap above this.
pub const VOICE_INLINE: usize = 16;

/// Bit pattern of `0.5_f32`.
pub const HALF_F32_BITS: u32 = 0x3F00_0000;

/// Polyphony mode.
#[derive(Debug, Clone, Copy, PartialEq, Eq, Structural)]
pub enum PolyMode {
    /// Polyphonic — each note gets its own voice.
    Poly,
    /// Monophonic — only one note at a time, retrigger on new note.
    Mono,
    /// Legato — monophonic but glides to new note without retriggering.
    Legato,
}

/// Voice stealing strategy when all voices are in use.
#[derive(Debug, Clone, Copy, PartialEq, Eq, Structural)]
pub enum StealMode {
    /// Steal the oldest active voice.
    Oldest,
    /// Steal the quietest active voice.
    Quietest,
    /// Steal the voice with the lowest note.
    Lowest,
    /// Do not steal — ignore new notes when full.
    NoSteal,
}

/// State of a single voice.
#[derive(Debug, Clone, Copy, PartialEq, Eq, Structural)]
pub struct Voice {
    /// The voice is sounding.
    pub active: bool,
    /// The MIDI note number this voice is playing (0-127).
    pub note: u8,
    /// Velocity (0.0 to 1.0), `f32` bits.
    pub velocity: u32,
    /// Ticks since the note started (for oldest-steal).
    pub age: u64,
    /// Current amplitude (for quietest-steal), `f32` bits.
    pub amplitude: u32,
    /// Per-note pitch bend in semitones, `f32` bits.
    pub pitch_bend: u32,
    /// Per-note pressure (0.0 to 1.0), `f32` bits.
    pub pressure: u32,
    /// Per-note brightness (0.0 to 1.0), `f32` bits.
    pub brightness: u32,
    /// CLAP `note_id`, or `-1` when the voice came from 7-bit MIDI only.
    pub note_id: i32,
}

/// The `note_id` a voice has when none was given.
pub fn unspecified_note_id() -> (id: i32)
    ensures
        id == -1,
{
    -1
}

/// A voice that is not sounding: everything zero, brightness 0.5, no id.
pub open spec fn idle_voice() -> Voice {
    Voice {
        active: false,
        note: 0,
        velocity: 0,
        age: 0,
        amplitude: 0,
        pitch_bend: 0,
        pressure: 0,
        brightness: HALF_F32_BITS,
        note_id: -1i32,
    }
}

impl Voice {
    pub open spec fn active_spec(self) -> bool {
        self.active
    }

    pub open spec fn age_spec(self) -> u64 {
        self.age
    }

    /// Every field, in declaration order.
    pub open spec fn parts(self) -> (bool, u8, u32, u64, u32, u32, u32, u32, i32) {
        (
            self.active,
            self.note,
            self.velocity,
            self.age,
            self.amplitude,
            self.pitch_bend,
            self.pressure,
            self.brightness,
            self.note_id,
        )
    }

    pub fn is_active(&self) -> (b: bool)
        ensures
            b == self.active_spec(),
    {
        self.active
    }

    pub fn age(&self) -> (a: u64)
        ensures
            a == self.age_spec(),
    {
        self.age
    }

    /// A voice with every field given (restoring saved state).
    pub fn from_parts(
        active: bool,
        note: u8,
        velocity: u32,
        age: u64,
        amplitude: u32,
        pitch_bend: u32,
        pressure: u32,
        brightness: u32,
        note_id: i32,
    ) -> (v: Self)
        ensures
            v.parts() == (active, note, velocity, age, amplitude, pitch_bend, pressure, brightness, note_id),
    {
        Voice { active, note, velocity, age, amplitude, pitch_bend, pressure, brightness, note_id }
    }

    /// A fresh, inactive voice.
    pub fn new_idle() -> (v: Self)
        ensures
            v == idle_voice(),
    {
        Voice {
            active: false,
            note: 0,
            velocity: 0,
            age: 0,
            amplitude: 0,
            pitch_bend: 0,
            pressure: 0,
            brightness: HALF_F32_BITS,
            note_id: unspecified_note_id(),
        }
    }
}

/// A voice is determined by its fields: rebuilding one from its parts
/// gives it back.
pub proof fn lemma_parts_determine_voice(a: Voice, b: Voice)
    ensures
        a.parts() == b.parts() ==> a == b,
{
}

impl Default for Voice {
    fn default() -> (v: Self)
        ensures
            v == idle_voice(),
    {
        Voice::new_idle()
    }
}

// ---------------------------------------------------------------------------
// f32 ordering on bit patterns
// ---------------------------------------------------------------------------

/// The `f32` with these bits is a NaN.
pub open spec fn f32_is_nan(x: u32) -> bool {
    (x & 0x7F80_0000u32) == 0x7F80_0000u32 && (x & 0x007F_FFFFu32) != 0
}

/// A key that orders non-NaN `f32` bit patterns like their values
/// (`-0.0` and `+0.0` share key `0`).
pub open spec fn f32_key(x: u32) -> int {
    if x & 0x8000_0000u32 != 0 {
        -((x & 0x7FFF_FFFFu32) as int)
    } else {
        x as int
    }
}

/// `a > b` as `f32` values (`false` when either is NaN).
pub open spec fn f32_gt(a: u32, b: u32) -> bool {
    !f32_is_nan(a) && !f32_is_nan(b) && f32_key(a) > f32_key(b)
}

/// `a > b` on `f32` bit patterns, with IEEE-754 semantics.
pub fn f32_bits_gt(a: u32, b: u32) -> (r: bool)
    ensures
        r == f32_gt(a, b),
{
    let a_nan = (a & 0x7F80_0000u32) == 0x7F80_0000u32 && (a & 0x007F_FFFFu32) != 0;
    let b_nan = (b & 0x7F80_0000u32) == 0x7F80_0000u32 && (b & 0x007F_FFFFu32) != 0;
    if a_nan || b_nan {
        return false;
    }
    let am = (a & 0x7FFF_FFFFu32) as i64;
    let bm = (b & 0x7FFF_FFFFu32) as i64;
    let ak: i64 = if a & 0x8000_0000u32 != 0 { -am } else { a as i64 };
    let bk: i64 = if b & 0x8000_0000u32 != 0 { -bm } else { b as i64 };
    ak > bk
}

// ---------------------------------------------------------------------------
// The voice pool (smallvec)
// ---------------------------------------------------------------------------

/// The voice pool: a `SmallVec` with [`VOICE_INLINE`] inline slots, held
/// opaquely (Verus cannot take `smallvec::Array` as a bound).
#[verifier::external_body]
pub struct VoicePool {
    inner: SmallVec<[Voice; 16]>,
}

/// The voices a pool holds, in slot order.
pub uninterp spec fn pool_voices(p: VoicePool) -> Seq<Voice>;

/// `SmallVec::from_elem`: `n` copies of `elem` (`Voice` is `Copy`, so each
/// copy equals `elem`).
#[verifier::external_body]
fn pool_from_elem(elem: Voice, n: usize) -> (p: VoicePool)
    ensures
        pool_voices(p) == Seq::new(n as nat, |i: int| elem),
{
    VoicePool { inner: SmallVec::from_elem(elem, n) }
}

/// `SmallVec::len`: the number of voices held.
#[verifier::external_body]
fn pool_len(p: &VoicePool) -> (n: usize)
    ensures
        n == pool_voices(*p).len(),
{
    p.inner.len()
}

/// `SmallVec::as_slice`: the voices held, in order.
#[verifier::external_body]
fn pool_as_slice(p: &VoicePool) -> (s: &[Voice])
    ensures
        s@ == pool_voices(*p),
{
    p.inner.as_slice()
}

/// `SmallVec::as_mut_slice` then a slot write: replaces voice `i`.
#[verifier::external_body]
fn pool_set(p: &mut VoicePool, i: usize, v: Voice)
    requires
        i < pool_voices(*old(p)).len(),
    ensures
        pool_voices(*final(p)) == pool_voices(*old(p)).update(i as int, v),
{
    p.inner.as_mut_slice()[i] = v;
}

// ---------------------------------------------------------------------------
// Allocation model
// ---------------------------------------------------------------------------

/// `i` is the first slot where the voice is active (when `want_active`) or
/// inactive, and (when `by_id`) plays `note_id`, else (when `by_note`)
/// plays `note`; `vs.len()` when none.
pub open spec fn slot_wanted(v: Voice, want_active: bool, by_id: Option<i32>, by_note: Option<u8>) -> bool {
    &&& v.active_spec() == want_active
    &&& (by_id matches Some(id) ==> v.note_id == id)
    &&& (by_note matches Some(n) ==> v.note == n)
}

pub open spec fn is_first_slot(vs: Seq<Voice>, want_active: bool, by_id: Option<i32>, by_note: Option<u8>, i: int) -> bool {
    &&& 0 <= i <= vs.len()
    &&& forall|j: int| 0 <= j < i ==> !slot_wanted(#[trigger] vs[j], want_active, by_id, by_note)
    &&& i < vs.len() ==> slot_wanted(vs[i], want_active, by_id, by_note)
}

pub open spec fn first_slot(vs: Seq<Voice>, want_active: bool, by_id: Option<i32>, by_note: Option<u8>) -> int {
    choose|i: int| is_first_slot(vs, want_active, by_id, by_note, i)
}

pub proof fn lemma_first_slot(vs: Seq<Voice>, want_active: bool, by_id: Option<i32>, by_note: Option<u8>, i: int)
    requires
        is_first_slot(vs, want_active, by_id, by_note, i),
    ensures
        first_slot(vs, want_active, by_id, by_note) == i,
{
    let c = first_slot(vs, want_active, by_id, by_note);
    assert(is_first_slot(vs, want_active, by_id, by_note, c));
    if c < i {
        assert(!slot_wanted(vs[c], want_active, by_id, by_note));
    } else if i < c {
        assert(!slot_wanted(vs[i], want_active, by_id, by_note));
    }
}

pub proof fn lemma_first_slot_exists(vs: Seq<Voice>, want_active: bool, by_id: Option<i32>, by_note: Option<u8>)
    ensures
        is_first_slot(vs, want_active, by_id, by_note, first_slot(vs, want_active, by_id, by_note)),
    decreases vs.len(),
{
    if vs.len() == 0 {
        assert(is_first_slot(vs, want_active, by_id, by_note, 0));
    } else {
        let t = vs.drop_last();
        lemma_first_slot_exists(t, want_active, by_id, by_note);
        let k = first_slot(t, want_active, by_id, by_note);
        assert forall|j: int| 0 <= j < t.len() implies vs[j] == t[j] by {}
        if k < t.len() {
            assert(is_first_slot(vs, want_active, by_id, by_note, k));
        } else if slot_wanted(vs.last(), want_active, by_id, by_note) {
            assert(is_first_slot(vs, want_active, by_id, by_note, t.len() as int));
        } else {
            assert(is_first_slot(vs, want_active, by_id, by_note, vs.len() as int));
        }
    }
}

/// Voice `cand` replaces the current steal choice `cur`: the later of two
/// equally old voices (`max_by_key`), the first of two equally quiet or low
/// ones (`min_by` / `min_by_key`).
pub open spec fn steal_prefers(mode: StealMode, cand: Voice, cur: Voice) -> bool {
    match mode {
        StealMode::Oldest => cand.age_spec() >= cur.age_spec(),
        StealMode::Quietest => f32_gt(cur.amplitude, cand.amplitude),
        StealMode::Lowest => cand.note < cur.note,
        StealMode::NoSteal => false,
    }
}

/// The steal target among the active voices of `vs`, scanning in slot order.
pub open spec fn steal_scan(vs: Seq<Voice>, mode: StealMode) -> Option<int>
    decreases vs.len(),
{
    if vs.len() == 0 {
        None
    } else {
        let r = steal_scan(vs.drop_last(), mode);
        let i = vs.len() - 1;
        if !vs[i].active_spec() {
            r
        } else {
            match r {
                None => Some(i),
                Some(a) => if steal_prefers(mode, vs[i], vs[a]) {
                    Some(i)
                } else {
                    r
                },
            }
        }
    }
}

/// Which voice a steal takes (`None` with [`StealMode::NoSteal`] or when no
/// voice is active).
pub open spec fn steal_target(vs: Seq<Voice>, mode: StealMode) -> Option<int> {
    if mode == StealMode::NoSteal {
        None
    } else {
        steal_scan(vs, mode)
    }
}

/// The slot a note-on takes: the active voice already playing `note_id`;
/// otherwise voice 0 in mono / legato; otherwise the first free voice, or
/// the steal target.
pub open spec fn note_on_slot(vs: Seq<Voice>, poly: PolyMode, steal: StealMode, note_id: i32) -> Option<int> {
    let same = first_slot(vs, true, Some(note_id), None);
    let free = first_slot(vs, false, None, None);
    if note_id >= 0 && same < vs.len() {
        Some(same)
    } else if poly != PolyMode::Poly {
        Some(0)
    } else if free < vs.len() {
        Some(free)
    } else {
        steal_target(vs, steal)
    }
}

/// A voice restarted for a new note; amplitude and expressions carry over.
pub open spec fn restarted(v: Voice, note_id: i32, note: u8, velocity: u32) -> Voice {
    Voice { active: true, note, note_id, velocity, age: 0, ..v }
}

/// The slot a note-off releases: the active voice with `note_id` when it is
/// non-negative, else the first active voice playing `note`.
pub open spec fn note_off_slot(vs: Seq<Voice>, note_id: i32, note: u8) -> int {
    if note_id >= 0 {
        first_slot(vs, true, Some(note_id), None)
    } else {
        first_slot(vs, true, None, Some(note))
    }
}

pub open spec fn released_voice(v: Voice) -> Voice {
    Voice { active: false, ..v }
}

pub open spec fn aged_voice(v: Voice) -> Voice {
    if v.active {
        Voice { age: if v.age == u64::MAX { u64::MAX } else { (v.age + 1) as u64 }, ..v }
    } else {
        v
    }
}

pub open spec fn count_active(vs: Seq<Voice>) -> nat
    decreases vs.len(),
{
    if vs.len() == 0 {
        0
    } else {
        count_active(vs.drop_last()) + if vs.last().active_spec() {
            1nat
        } else {
            0nat
        }
    }
}

/// No two active voices share a (non-negative) CLAP `note_id`.
pub open spec fn active_ids_unique(vs: Seq<Voice>) -> bool {
    forall|i: int, j: int|
        0 <= i < vs.len() && 0 <= j < vs.len() && i != j && (#[trigger] vs[i]).active_spec()
            && (#[trigger] vs[j]).active_spec() && vs[i].note_id >= 0 ==> vs[i].note_id != vs[j].note_id
}

/// A steal target, when there is one, is an active voice in the pool.
pub proof fn lemma_steal_scan(vs: Seq<Voice>, mode: StealMode)
    ensures
        steal_scan(vs, mode) matches Some(k) ==> 0 <= k < vs.len() && vs[k].active_spec(),
    decreases vs.len(),
{
    if vs.len() > 0 {
        let t = vs.drop_last();
        lemma_steal_scan(t, mode);
        if let Some(k) = steal_scan(t, mode) {
            assert(vs[k] == t[k]);
        }
    }
}

/// A note-on by `note_id` keeps active note ids unique: a sounding id is
/// retriggered in place.
pub proof fn lemma_note_on_keeps_ids_unique(
    vs: Seq<Voice>,
    modes: (PolyMode, StealMode),
    note_id: i32,
    note: u8,
    velocity: u32,
)
    requires
        vs.len() >= 1,
        active_ids_unique(vs),
    ensures
        active_ids_unique(VoiceManager::note_on_result(vs, modes, note_id, note, velocity).1),
{
    lemma_first_slot_exists(vs, true, Some(note_id), None);
    lemma_first_slot_exists(vs, false, None, None);
    lemma_steal_scan(vs, modes.1);
    let same = first_slot(vs, true, Some(note_id), None);
    match note_on_slot(vs, modes.0, modes.1, note_id) {
        Some(s) => {
            let r = VoiceManager::note_on_result(vs, modes, note_id, note, velocity).1;
            assert(0 <= s < vs.len());
            assert forall|i: int, j: int|
                0 <= i < r.len() && 0 <= j < r.len() && i != j && (#[trigger] r[i]).active
                    && (#[trigger] r[j]).active && r[i].note_id >= 0 implies r[i].note_id
                != r[j].note_id by {
                if i != s && j != s {
                    assert(r[i] == vs[i] && r[j] == vs[j]);
                } else if note_id >= 0 && same < vs.len() {
                    assert(slot_wanted(vs[same], true, Some(note_id), None));
                    if i == s {
                        assert(r[j] == vs[j]);
                    } else {
                        assert(r[i] == vs[i]);
                    }
                } else if i == s {
                    assert(r[j] == vs[j]);
                    assert(!slot_wanted(vs[j], true, Some(note_id), None));
                } else {
                    assert(r[i] == vs[i]);
                    assert(!slot_wanted(vs[i], true, Some(note_id), None));
                }
            }
        },
        None => {},
    }
}

/// Releasing the id a note-on just started frees exactly the voice that
/// note-on returned.
pub proof fn lemma_note_on_then_off(
    vs: Seq<Voice>,
    modes: (PolyMode, StealMode),
    note_id: i32,
    note: u8,
    velocity: u32,
)
    requires
        1 <= vs.len() <= 128,
        active_ids_unique(vs),
        note_id >= 0,
        VoiceManager::note_on_result(vs, modes, note_id, note, velocity).0 is Some,
    ensures
        ({
            let (r, after) = VoiceManager::note_on_result(vs, modes, note_id, note, velocity);
            note_off_slot(after, note_id, note) == r->0 as int
        }),
{
    lemma_note_on_keeps_ids_unique(vs, modes, note_id, note, velocity);
    lemma_first_slot_exists(vs, true, Some(note_id), None);
    lemma_first_slot_exists(vs, false, None, None);
    lemma_steal_scan(vs, modes.1);
    let (r, after) = VoiceManager::note_on_result(vs, modes, note_id, note, velocity);
    let s = note_on_slot(vs, modes.0, modes.1, note_id)->0;
    assert(0 <= s < vs.len());
    assert(after == vs.update(s, restarted(vs[s], note_id, note, velocity)));
    assert(r == Some(s as usize));
    assert(after[s].active && after[s].note_id == note_id);
    assert forall|j: int| 0 <= j < s implies !slot_wanted(#[trigger] after[j], true, Some(note_id), None) by {
        if after[j].active && after[j].note_id == note_id {
            assert(after[s].active);
        }
    }
    assert(is_first_slot(after, true, Some(note_id), None, s));
    lemma_first_slot(after, true, Some(note_id), None, s);
}

/// Manages voice allocation and stealing for polyphonic instruments.
pub struct VoiceManager {
    voices: VoicePool,
    max_voices: usize,
    /// Polyphony mode.
    pub poly_mode: PolyMode,
    /// Voice stealing mode.
    pub steal_mode: StealMode,
}

impl VoiceManager {
    /// The voice pool, in slot order.
    pub closed spec fn pool(&self) -> Seq<Voice> {
        pool_voices(self.voices)
    }

    pub closed spec fn max_spec(&self) -> usize {
        self.max_voices
    }

    pub closed spec fn modes(&self) -> (PolyMode, StealMode) {
        (self.poly_mode, self.steal_mode)
    }

    /// Between 1 and 128 voices, as many as `max_voices`.
    pub open spec fn wf(&self) -> bool {
        &&& 1 <= self.pool().len() <= 128
        &&& self.pool().len() == self.max_spec()
    }

    /// A manager with `max_voices` idle voices, clamped to `1..=128`.
    pub fn new(max_voices: usize, poly_mode: PolyMode, steal_mode: StealMode) -> (m: Self)
        ensures
            m.wf(),
            m.pool() == Seq::new(
                (if max_voices < 1 {
                    1
                } else if max_voices > 128 {
                    128
                } else {
                    max_voices
                }) as nat,
                |i: int| idle_voice(),
            ),
            m.modes() == (poly_mode, steal_mode),
    {
        let n: usize = if max_voices < 1 {
            1
        } else if max_voices > 128 {
            128
        } else {
            max_voices
        };
        let voices = pool_from_elem(Voice::new_idle(), n);
        VoiceManager { voices, max_voices: n, poly_mode, steal_mode }
    }

    /// A manager holding exactly these voices (restoring saved state);
    /// `None` unless there are between 1 and 128 of them and `max_voices`
    /// counts them.
    pub fn restore(
        voices: &[Voice],
        max_voices: usize,
        poly_mode: PolyMode,
        steal_mode: StealMode,
    ) -> (r: Option<Self>)
        ensures
            r is Some <==> 1 <= voices@.len() <= 128 && voices@.len() == max_voices,
            r matches Some(m) ==> m.wf() && m.pool() == voices@ && m.modes() == (
                poly_mode,
                steal_mode,
            ),
    {
        let n = voices.len();
        if n < 1 || n > 128 || n != max_voices {
            return None;
        }
        let mut pool = pool_from_elem(Voice::new_idle(), n);
        let mut i: usize = 0;
        while i < n
            invariant
                0 <= i <= n,
                n == voices@.len(),
                pool_voices(pool).len() == n,
                forall|j: int| 0 <= j < i ==> #[trigger] pool_voices(pool)[j] == voices@[j],
            decreases n - i,
        {
            pool_set(&mut pool, i, voices[i]);
            i = i + 1;
        }
        proof {
            assert(pool_voices(pool) =~= voices@);
        }
        Some(VoiceManager { voices: pool, max_voices: n, poly_mode, steal_mode })
    }

    /// Allocate a voice for a 7-bit MIDI note (no `note_id`).
    pub fn note_on(&mut self, note: u8, velocity: u32) -> (r: Option<usize>)
        requires
            old(self).wf(),
        ensures
            final(self).wf(),
            final(self).modes() == old(self).modes(),
            r == Self::note_on_result(old(self).pool(), old(self).modes(), -1i32, note, velocity).0,
            final(self).pool() == Self::note_on_result(
                old(self).pool(),
                old(self).modes(),
                -1i32,
                note,
                velocity,
            ).1,
    {
        self.note_on_id(-1, note, velocity)
    }

    /// The slot a note-on returns and the pool afterwards.
    pub open spec fn note_on_result(
        vs: Seq<Voice>,
        modes: (PolyMode, StealMode),
        note_id: i32,
        note: u8,
        velocity: u32,
    ) -> (Option<usize>, Seq<Voice>) {
        match note_on_slot(vs, modes.0, modes.1, note_id) {
            Some(i) => (Some(i as usize), vs.update(i, restarted(vs[i], note_id, note, velocity))),
            None => (None, vs),
        }
    }

    /// Allocate by CLAP `note_id` (retrigger the same id; otherwise the same
    /// rules as [`Self::note_on`]).
    pub fn note_on_id(&mut self, note_id: i32, note: u8, velocity: u32) -> (r: Option<usize>)
        requires
            old(self).wf(),
        ensures
            final(self).wf(),
            final(self).modes() == old(self).modes(),
            r == Self::note_on_result(old(self).pool(), old(self).modes(), note_id, note, velocity).0,
            final(self).pool() == Self::note_on_result(
                old(self).pool(),
                old(self).modes(),
                note_id,
                note,
                velocity,
            ).1,
    {
        let n = pool_len(&self.voices);
        let same = self.find_slot(true, Some(note_id), None);
        if note_id >= 0 && same < n {
            self.start_voice(same, note_id, note, velocity);
            return Some(same);
        }
        let mode = self.poly_mode;
        match mode {
            PolyMode::Mono | PolyMode::Legato => {
                self.start_voice(0, note_id, note, velocity);
                Some(0)
            },
            PolyMode::Poly => {
                let free = self.find_slot(false, None, None);
                if free < n {
                    self.start_voice(free, note_id, note, velocity);
                    return Some(free);
                }
                match self.find_steal_target() {
                    Some(idx) => {
                        self.start_voice(idx, note_id, note, velocity);
                        Some(idx)
                    },
                    None => None,
                }
            },
        }
    }

    fn start_voice(&mut self, idx: usize, note_id: i32, note: u8, velocity: u32)
        requires
            old(self).wf(),
            idx < old(self).pool().len(),
        ensures
            final(self).wf(),
            final(self).modes() == old(self).modes(),
            final(self).pool() == old(self).pool().update(
                idx as int,
                restarted(old(self).pool()[idx as int], note_id, note, velocity),
            ),
    {
        let v = pool_as_slice(&self.voices)[idx];
        let nv = Voice { active: true, note, note_id, velocity, age: 0, ..v };
        pool_set(&mut self.voices, idx, nv);
    }

    /// The first slot matching the query, or the pool size if none.
    fn find_slot(&self, want_active: bool, by_id: Option<i32>, by_note: Option<u8>) -> (i: usize)
        ensures
            is_first_slot(self.pool(), want_active, by_id, by_note, i as int),
            i == first_slot(self.pool(), want_active, by_id, by_note),
    {
        let vs = pool_as_slice(&self.voices);
        let n = vs.len();
        let mut i: usize = 0;
        while i < n
            invariant
                0 <= i <= n,
                n == vs@.len(),
                vs@ == self.pool(),
                forall|j: int|
                    0 <= j < i ==> !slot_wanted(#[trigger] vs@[j], want_active, by_id, by_note),
            decreases n - i,
        {
            let v = vs[i];
            let id_ok = match by_id {
                Some(id) => v.note_id == id,
                None => true,
            };
            let note_ok = match by_note {
                Some(nt) => v.note == nt,
                None => true,
            };
            if v.active == want_active && id_ok && note_ok {
                proof {
                    lemma_first_slot(vs@, want_active, by_id, by_note, i as int);
                }
                return i;
            }
            i = i + 1;
        }
        proof {
            lemma_first_slot(vs@, want_active, by_id, by_note, i as int);
        }
        i
    }

    /// Release a voice by note number; returns the released slot.
    pub fn note_off(&mut self, note: u8) -> (r: Option<usize>)
        requires
            old(self).wf(),
        ensures
            final(self).wf(),
            final(self).modes() == old(self).modes(),
            ({
                let i = note_off_slot(old(self).pool(), -1i32, note);
                if i < old(self).pool().len() {
                    r == Some(i as usize) && final(self).pool() == old(self).pool().update(
                        i,
                        released_voice(old(self).pool()[i]),
                    )
                } else {
                    r is None && final(self).pool() == old(self).pool()
                }
            }),
    {
        self.note_off_id(-1, note)
    }

    /// Release by `note_id` when `note_id >= 0`; otherwise by note number.
    pub fn note_off_id(&mut self, note_id: i32, note: u8) -> (r: Option<usize>)
        requires
            old(self).wf(),
        ensures
            final(self).wf(),
            final(self).modes() == old(self).modes(),
            ({
                let i = note_off_slot(old(self).pool(), note_id, note);
                if i < old(self).pool().len() {
                    r == Some(i as usize) && final(self).pool() == old(self).pool().update(
                        i,
                        released_voice(old(self).pool()[i]),
                    )
                } else {
                    r is None && final(self).pool() == old(self).pool()
                }
            }),
    {
        let idx = if note_id >= 0 {
            self.find_slot(true, Some(note_id), None)
        } else {
            self.find_slot(true, None, Some(note))
        };
        if idx >= pool_len(&self.voices) {
            return None;
        }
        let v = pool_as_slice(&self.voices)[idx];
        pool_set(&mut self.voices, idx, Voice { active: false, ..v });
        Some(idx)
    }

    /// Find a voice to steal under the current steal mode.
    fn find_steal_target(&self) -> (r: Option<usize>)
        requires
            self.wf(),
        ensures
            r == (match steal_target(self.pool(), self.steal_mode) {
                Some(i) => Some(i as usize),
                None => None::<usize>,
            }),
            r matches Some(i) ==> i < self.pool().len(),
            steal_target(self.pool(), self.steal_mode) matches Some(k) ==> 0 <= k < self.pool().len(),
    {
        if self.steal_mode == StealMode::NoSteal {
            return None;
        }
        let vs = pool_as_slice(&self.voices);
        let n = vs.len();
        let mut best: Option<usize> = None;
        let mut i: usize = 0;
        while i < n
            invariant
                0 <= i <= n,
                n == vs@.len(),
                vs@ == self.pool(),
                self.steal_mode != StealMode::NoSteal,
                best == (match steal_scan(vs@.take(i as int), self.steal_mode) {
                    Some(k) => Some(k as usize),
                    None => None::<usize>,
                }),
                steal_scan(vs@.take(i as int), self.steal_mode) matches Some(k) ==> 0 <= k < i,
            decreases n - i,
        {
            let v = vs[i];
            proof {
                let t = vs@.take(i + 1);
                assert(t.drop_last() == vs@.take(i as int));
                assert(t[i as int] == v);
                if let Some(k) = steal_scan(vs@.take(i as int), self.steal_mode) {
                    assert(t[k] == vs@[k]);
                }
            }
            if v.active {
                match best {
                    None => {
                        best = Some(i);
                    },
                    Some(a) => {
                        let cur = vs[a];
                        let prefer = match self.steal_mode {
                            StealMode::Oldest => v.age >= cur.age,
                            StealMode::Quietest => f32_bits_gt(cur.amplitude, v.amplitude),
                            StealMode::Lowest => v.note < cur.note,
                            StealMode::NoSteal => false,
                        };
                        if prefer {
                            best = Some(i);
                        }
                    },
                }
            }
            i = i + 1;
        }
        proof {
            assert(vs@.take(n as int) == vs@);
        }
        best
    }

    /// Advance the age of every active voice (saturating).
    pub fn tick(&mut self)
        requires
            old(self).wf(),
        ensures
            final(self).wf(),
            final(self).modes() == old(self).modes(),
            final(self).pool() == Seq::new(
                old(self).pool().len(),
                |i: int| aged_voice(old(self).pool()[i]),
            ),
    {
        let ghost old_vs = self.pool();
        let n = pool_len(&self.voices);
        let mut i: usize = 0;
        while i < n
            invariant
                0 <= i <= n,
                n == old_vs.len(),
                self.wf(),
                self.modes() == old(self).modes(),
                old_vs == old(self).pool(),
                self.pool().len() == n,
                forall|j: int| 0 <= j < i ==> #[trigger] self.pool()[j] == aged_voice(old_vs[j]),
                forall|j: int| i <= j < n ==> #[trigger] self.pool()[j] == old_vs[j],
            decreases n - i,
        {
            let v = pool_as_slice(&self.voices)[i];
            if v.active {
                let age = v.age.saturating_add(1);
                pool_set(&mut self.voices, i, Voice { age, ..v });
            }
            i = i + 1;
        }
        proof {
            assert(self.pool() =~= Seq::new(old_vs.len(), |i: int| aged_voice(old_vs[i])));
        }
    }

    /// Number of currently active voices.
    pub fn active_count(&self) -> (n: usize)
        ensures
            n == count_active(self.pool()),
    {
        let vs = pool_as_slice(&self.voices);
        let mut c: usize = 0;
        let mut i: usize = 0;
        while i < vs.len()
            invariant
                0 <= i <= vs@.len(),
                vs@ == self.pool(),
                c == count_active(vs@.take(i as int)),
                c <= i,
            decreases vs@.len() - i,
        {
            proof {
                assert(vs@.take(i + 1).drop_last() == vs@.take(i as int));
            }
            if vs[i].active {
                c = c + 1;
            }
            i = i + 1;
        }
        proof {
            assert(vs@.take(i as int) == vs@);
        }
        c
    }

    /// The voice pool.
    pub fn voices(&self) -> (s: &[Voice])
        ensures
            s@ == self.pool(),
    {
        pool_as_slice(&self.voices)
    }

    /// Replace voice `index` (the plugin's DSP updates amplitude and the
    /// per-note expression fields this way); `false` when out of range.
    pub fn set_voice(&mut self, index: usize, voice: Voice) -> (ok: bool)
        requires
            old(self).wf(),
        ensures
            final(self).wf(),
            final(self).modes() == old(self).modes(),
            ok == (index < old(self).pool().len()),
            ok ==> final(self).pool() == old(self).pool().update(index as int, voice),
            !ok ==> final(self).pool() == old(self).pool(),
    {
        if index < pool_len(&self.voices) {
            pool_set(&mut self.voices, index, voice);
            true
        } else {
            false
        }
    }

    /// Maximum polyphony.
    pub fn max_voices(&self) -> (n: usize)
        ensures
            n == self.max_spec(),
    {
        self.max_voices
    }

    /// Release all voices.
    pub fn all_notes_off(&mut self)
        requires
            old(self).wf(),
        ensures
            final(self).wf(),
            final(self).modes() == old(self).modes(),
            final(self).pool() == Seq::new(
                old(self).pool().len(),
                |i: int| released_voice(old(self).pool()[i]),
            ),
    {
        let ghost old_vs = self.pool();
        let n = pool_len(&self.voices);
        let mut i: usize = 0;
        while i < n
            invariant
                0 <= i <= n,
                n == old_vs.len(),
                self.wf(),
                self.modes() == old(self).modes(),
                old_vs == old(self).pool(),
                self.pool().len() == n,
                forall|j: int| 0 <= j < i ==> #[trigger] self.pool()[j] == released_voice(old_vs[j]),
                forall|j: int| i <= j < n ==> #[trigger] self.pool()[j] == old_vs[j],
            decreases n - i,
        {
            let v = pool_as_slice(&self.voices)[i];
            pool_set(&mut self.voices, i, Voice { active: false, ..v });
            i = i + 1;
        }
        proof {
            assert(self.pool() =~= Seq::new(old_vs.len(), |i: int| released_voice(old_vs[i])));
        }
    }
}

} // verus!
