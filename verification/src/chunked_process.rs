//! Sample-accurate automation / modulation chunking.
//!
//! Host events carry a sample offset within the block. For parameters
//! flagged `CHUNKED`, the format wrapper splits the audio block at those
//! offsets so each `process` call sees a constant set of param targets for
//! its sub-range. Non-`CHUNKED` params apply at block start (last event
//! wins) with no split.

use vstd::prelude::*;
use crate::params::{ParamInfo, CHUNKED};
use crate::tuning::TuningEvent;

verus! {

/// Timed host → plugin parameter event (value or mono modulation).
/// `plain` / `amount` are the host's `f64` values as IEEE-754 bits.
#[derive(Clone, Copy, Debug, PartialEq, Eq, Structural)]
pub enum TimedParamEvent {
    /// Absolute base value (CLAP `PARAM_VALUE` / host automation).
    Value { sample_offset: u32, id: u32, plain: u64 },
    /// Non-destructive modulation offset (CLAP `PARAM_MOD`).
    Mod { sample_offset: u32, id: u32, amount: u64 },
}

pub open spec fn offset_of(e: TimedParamEvent) -> u32 {
    match e {
        TimedParamEvent::Value { sample_offset, .. } => sample_offset,
        TimedParamEvent::Mod { sample_offset, .. } => sample_offset,
    }
}

pub open spec fn param_of(e: TimedParamEvent) -> u32 {
    match e {
        TimedParamEvent::Value { id, .. } => id,
        TimedParamEvent::Mod { id, .. } => id,
    }
}

impl TimedParamEvent {
    pub fn sample_offset(self) -> (o: u32)
        ensures
            o == offset_of(self),
    {
        match self {
            TimedParamEvent::Value { sample_offset, .. } => sample_offset,
            TimedParamEvent::Mod { sample_offset, .. } => sample_offset,
        }
    }

    pub fn param_id(self) -> (id: u32)
        ensures
            id == param_of(self),
    {
        match self {
            TimedParamEvent::Value { id, .. } => id,
            TimedParamEvent::Mod { id, .. } => id,
        }
    }
}

/// `i` is the first info with this id (`infos.len()` if none).
pub open spec fn is_first_info(infos: Seq<ParamInfo>, id: u32, i: int) -> bool {
    &&& 0 <= i <= infos.len()
    &&& forall|j: int| 0 <= j < i ==> (#[trigger] infos[j]).id != id
    &&& i < infos.len() ==> infos[i].id == id
}

/// Whether this event forces a sub-block split: the first info with its id
/// is flagged `CHUNKED`. Unknown ids do not split.
pub open spec fn splits(e: TimedParamEvent, infos: Seq<ParamInfo>) -> bool {
    exists|i: int|
        is_first_info(infos, param_of(e), i) && i < infos.len() && #[trigger] infos[i].flags.bits
            & CHUNKED == CHUNKED
}

/// Whether this event should force a sub-block split.
pub fn is_split_event(event: &TimedParamEvent, infos: &[ParamInfo]) -> (b: bool)
    ensures
        b == splits(*event, infos@),
{
    let id = event.param_id();
    let n = infos.len();
    let mut i: usize = 0;
    while i < n
        invariant
            0 <= i <= n,
            n == infos@.len(),
            id == param_of(*event),
            forall|j: int| 0 <= j < i ==> (#[trigger] infos@[j]).id != id,
        decreases n - i,
    {
        if infos[i].id == id {
            let b = infos[i].flags.contains(CHUNKED);
            proof {
                assert(is_first_info(infos@, id, i as int));
                if !b {
                    assert forall|k: int|
                        is_first_info(infos@, id, k) && k < infos@.len() implies !(
                        #[trigger] infos@[k].flags.bits & CHUNKED == CHUNKED) by {
                        if k < i {
                            assert(infos@[k].id != id);
                        } else if k > i {
                            assert(infos@[i as int].id != id);
                        }
                    }
                }
            }
            return b;
        }
        i = i + 1;
    }
    proof {
        assert forall|k: int|
            is_first_info(infos@, id, k) && k < infos@.len() implies !(
            #[trigger] infos@[k].flags.bits & CHUNKED == CHUNKED) by {
            assert(infos@[k].id != id);
        }
    }
    false
}

/// Offsets where the block splits: `0`, `frames`, and every splitting
/// event's offset strictly inside the block.
pub open spec fn split_set(frames: u32, events: Seq<TimedParamEvent>, infos: Seq<ParamInfo>) -> Set<u32> {
    Set::new(
        |t: u32|
            t == 0 || t == frames || exists|i: int|
                0 <= i < events.len() && splits(#[trigger] events[i], infos) && offset_of(events[i])
                    == t && 0 < t < frames,
    )
}

/// Strictly increasing.
pub open spec fn strictly_sorted(s: Seq<u32>) -> bool {
    forall|i: int, j: int| 0 <= i < j < s.len() ==> s[i] < s[j]
}

/// Insert `t` into a strictly increasing vector unless already present.
fn insert_point(v: &mut Vec<u32>, t: u32)
    requires
        strictly_sorted(old(v)@),
    ensures
        strictly_sorted(final(v)@),
        final(v)@.to_set() == old(v)@.to_set().insert(t),
        final(v)@.len() <= old(v)@.len() + 1,
{
    let n = v.len();
    let mut i: usize = 0;
    while i < n && v[i] < t
        invariant
            0 <= i <= n,
            n == v@.len(),
            v@ == old(v)@,
            forall|j: int| 0 <= j < i ==> v@[j] < t,
        decreases n - i,
    {
        i = i + 1;
    }
    if i < n && v[i] == t {
        proof {
            assert(v@.to_set() =~= old(v)@.to_set().insert(t)) by {
                assert(v@.contains(t) ==> v@.to_set().contains(t));
                assert(v@[i as int] == t);
            }
        }
        return;
    }
    let ghost before = v@;
    v.insert(i, t);
    proof {
        assert forall|a: int, b: int| 0 <= a < b < v@.len() implies v@[a] < v@[b] by {
            if b < i {
            } else if b == i {
                assert(before[a] < t);
            } else if a < i {
                assert(v@[b] == before[b - 1]);
                if b - 1 > i {
                    assert(before[i as int] < before[b - 1]);
                }
            } else if a == i {
                assert(v@[b] == before[b - 1]);
                assert(before[i as int] != t);
                assert(before[i as int] >= t);
                if b - 1 > i {
                    assert(before[i as int] < before[b - 1]);
                }
            } else {
                assert(v@[a] == before[a - 1]);
                assert(v@[b] == before[b - 1]);
            }
        }
        assert forall|x: u32| v@.to_set().contains(x) <==> before.to_set().insert(t).contains(x) by {
            if v@.to_set().contains(x) {
                let k = choose|k: int| 0 <= k < v@.len() && v@[k] == x;
                if k < i {
                    assert(before[k] == x);
                } else if k > i {
                    assert(before[k - 1] == x);
                }
            }
            if before.to_set().contains(x) && x != t {
                let k = choose|k: int| 0 <= k < before.len() && before[k] == x;
                if k < i {
                    assert(v@[k] == x);
                } else {
                    assert(v@[k + 1] == x);
                }
            }
            if x == t {
                assert(v@[i as int] == t);
            }
        }
        assert(v@.to_set() =~= before.to_set().insert(t));
    }
}

/// Sorted unique split points in `0..=frames` (always includes `0` and
/// `frames`): the offsets of splitting events strictly inside the block.
pub fn split_points(frames: u32, events: &[TimedParamEvent], infos: &[ParamInfo]) -> (pts: Vec<u32>)
    ensures
        strictly_sorted(pts@),
        pts@.to_set() == split_set(frames, events@, infos@),
{
    let mut pts: Vec<u32> = Vec::new();
    pts.push(0);
    insert_point(&mut pts, frames);
    proof {
        assert(pts@.to_set() =~= Set::empty().insert(0u32).insert(frames)) by {
            assert(seq![0u32].to_set() =~= Set::empty().insert(0u32)) by {
                assert(seq![0u32][0] == 0u32);
            }
        }
    }
    let n = events.len();
    let mut i: usize = 0;
    while i < n
        invariant
            0 <= i <= n,
            n == events@.len(),
            strictly_sorted(pts@),
            pts@.to_set() == Set::new(
                |t: u32|
                    t == 0 || t == frames || exists|k: int|
                        0 <= k < i && splits(#[trigger] events@[k], infos@) && offset_of(
                            events@[k],
                        ) == t && 0 < t < frames,
            ),
        decreases n - i,
    {
        let ev = events[i];
        let ghost prev = pts@.to_set();
        if is_split_event(&ev, infos) {
            let t = ev.sample_offset();
            if t > 0 && t < frames {
                insert_point(&mut pts, t);
            }
        }
        proof {
            let next = Set::new(
                |t: u32|
                    t == 0 || t == frames || exists|k: int|
                        0 <= k < i + 1 && splits(#[trigger] events@[k], infos@) && offset_of(
                            events@[k],
                        ) == t && 0 < t < frames,
            );
            assert forall|x: u32| pts@.to_set().contains(x) <==> next.contains(x) by {
                if next.contains(x) && x != 0 && x != frames {
                    let k = choose|k: int|
                        0 <= k < i + 1 && splits(#[trigger] events@[k], infos@) && offset_of(
                            events@[k],
                        ) == x && 0 < x < frames;
                    if k < i {
                        assert(prev.contains(x));
                    }
                }
                if prev.contains(x) && x != 0 && x != frames {
                    let k = choose|k: int|
                        0 <= k < i && splits(#[trigger] events@[k], infos@) && offset_of(events@[k])
                            == x && 0 < x < frames;
                    assert(next.contains(x));
                }
            }
            assert(pts@.to_set() =~= next);
        }
        i = i + 1;
    }
    proof {
        assert(pts@.to_set() =~= split_set(frames, events@, infos@));
    }
    pts
}

/// The block's split points also include every tuning selection strictly
/// inside the block, so each chunk sees one tuning.
pub open spec fn block_split_set(
    frames: u32,
    events: Seq<TimedParamEvent>,
    infos: Seq<ParamInfo>,
    tuning: Seq<TuningEvent>,
) -> Set<u32> {
    split_set(frames, events, infos).union(
        Set::new(
            |t: u32|
                exists|k: int|
                    0 <= k < tuning.len() && (#[trigger] tuning[k]).sample_offset == t && 0 < t
                        < frames,
        ),
    )
}

/// Sorted unique split points of a block: those of [`split_points`] and
/// the offsets of tuning selections strictly inside the block.
pub fn block_split_points(
    frames: u32,
    events: &[TimedParamEvent],
    infos: &[ParamInfo],
    tuning: &[TuningEvent],
) -> (pts: Vec<u32>)
    ensures
        strictly_sorted(pts@),
        pts@.to_set() == block_split_set(frames, events@, infos@, tuning@),
{
    let mut pts = split_points(frames, events, infos);
    let ghost base = split_set(frames, events@, infos@);
    let n = tuning.len();
    let mut i: usize = 0;
    while i < n
        invariant
            0 <= i <= n,
            n == tuning@.len(),
            strictly_sorted(pts@),
            pts@.to_set() == base.union(
                Set::new(
                    |t: u32|
                        exists|k: int|
                            0 <= k < i && (#[trigger] tuning@[k]).sample_offset == t && 0 < t
                                < frames,
                ),
            ),
        decreases n - i,
    {
        let t = tuning[i].sample_offset;
        let ghost prev = pts@.to_set();
        if t > 0 && t < frames {
            insert_point(&mut pts, t);
        }
        proof {
            let old_extra = Set::new(
                |x: u32|
                    exists|k: int|
                        0 <= k < i && (#[trigger] tuning@[k]).sample_offset == x && 0 < x < frames,
            );
            let next_extra = Set::new(
                |x: u32|
                    exists|k: int|
                        0 <= k < i + 1 && (#[trigger] tuning@[k]).sample_offset == x && 0 < x
                            < frames,
            );
            assert forall|x: u32| pts@.to_set().contains(x) <==> base.union(next_extra).contains(
                x,
            ) by {
                if next_extra.contains(x) {
                    let k = choose|k: int|
                        0 <= k < i + 1 && (#[trigger] tuning@[k]).sample_offset == x && 0 < x
                            < frames;
                    if k < i {
                        assert(old_extra.contains(x));
                    }
                }
                if old_extra.contains(x) {
                    let k = choose|k: int|
                        0 <= k < i && (#[trigger] tuning@[k]).sample_offset == x && 0 < x < frames;
                    assert(next_extra.contains(x));
                }
                if x == t && 0 < t < frames {
                    assert(tuning@[i as int].sample_offset == x);
                    assert(next_extra.contains(x));
                }
            }
            assert(pts@.to_set() =~= base.union(next_extra));
        }
        i = i + 1;
    }
    proof {
        assert(pts@.to_set() =~= block_split_set(frames, events@, infos@, tuning@));
    }
    pts
}

/// The chunks between consecutive split points tile the whole block: the
/// points run strictly upward from `0` to `frames`.
pub proof fn lemma_split_points_tile_block(
    pts: Seq<u32>,
    frames: u32,
    events: Seq<TimedParamEvent>,
    infos: Seq<ParamInfo>,
    tuning: Seq<TuningEvent>,
)
    requires
        strictly_sorted(pts),
        pts.to_set() == block_split_set(frames, events, infos, tuning),
    ensures
        pts.len() >= 1,
        pts[0] == 0,
        pts[pts.len() - 1] == frames,
        forall|i: int| 0 <= i < pts.len() ==> pts[i] <= frames,
{
    let set = block_split_set(frames, events, infos, tuning);
    assert(set.contains(0u32));
    assert(pts.to_set().contains(0u32));
    let z = choose|k: int| 0 <= k < pts.len() && pts[k] == 0u32;
    assert(pts.contains(0u32));
    assert(set.contains(frames));
    assert(pts.contains(frames));
    let f = choose|k: int| 0 <= k < pts.len() && pts[k] == frames;
    assert forall|i: int| 0 <= i < pts.len() implies pts[i] <= frames by {
        assert(pts.contains(pts[i]));
        assert(pts.to_set().contains(pts[i]));
        assert(set.contains(pts[i]));
    }
    if z > 0 {
        assert(pts[0] < pts[z]);
    }
    if f < pts.len() - 1 {
        assert(pts[f] < pts[pts.len() - 1]);
    }
}

/// Events that apply at block start (non-`CHUNKED` or unknown id), in order.
pub open spec fn non_chunked(events: Seq<TimedParamEvent>, infos: Seq<ParamInfo>) -> Seq<TimedParamEvent>
    decreases events.len(),
{
    if events.len() == 0 {
        Seq::empty()
    } else {
        let r = non_chunked(events.drop_last(), infos);
        if !splits(events.last(), infos) {
            r.push(events.last())
        } else {
            r
        }
    }
}

/// Splitting events whose offset is exactly `time` (a chunk boundary), in order.
pub open spec fn chunked_at(events: Seq<TimedParamEvent>, time: u32, infos: Seq<ParamInfo>) -> Seq<TimedParamEvent>
    decreases events.len(),
{
    if events.len() == 0 {
        Seq::empty()
    } else {
        let r = chunked_at(events.drop_last(), time, infos);
        if splits(events.last(), infos) && offset_of(events.last()) == time {
            r.push(events.last())
        } else {
            r
        }
    }
}

/// The events to apply once at block start, in order: later events for the
/// same id overwrite earlier ones when applied in this order.
pub fn non_chunked_events(events: &[TimedParamEvent], infos: &[ParamInfo]) -> (v: Vec<TimedParamEvent>)
    ensures
        v@ == non_chunked(events@, infos@),
{
    let mut out: Vec<TimedParamEvent> = Vec::new();
    let n = events.len();
    let mut i: usize = 0;
    while i < n
        invariant
            0 <= i <= n,
            n == events@.len(),
            out@ == non_chunked(events@.take(i as int), infos@),
        decreases n - i,
    {
        proof {
            assert(events@.take(i + 1).drop_last() == events@.take(i as int));
        }
        let ev = events[i];
        if !is_split_event(&ev, infos) {
            out.push(ev);
        }
        i = i + 1;
    }
    proof {
        assert(events@.take(n as int) == events@);
    }
    out
}

/// The splitting events to apply at chunk boundary `time`, in order.
pub fn chunked_events_at(events: &[TimedParamEvent], time: u32, infos: &[ParamInfo]) -> (v: Vec<
    TimedParamEvent,
>)
    ensures
        v@ == chunked_at(events@, time, infos@),
{
    let mut out: Vec<TimedParamEvent> = Vec::new();
    let n = events.len();
    let mut i: usize = 0;
    while i < n
        invariant
            0 <= i <= n,
            n == events@.len(),
            out@ == chunked_at(events@.take(i as int), time, infos@),
        decreases n - i,
    {
        proof {
            assert(events@.take(i + 1).drop_last() == events@.take(i as int));
        }
        let ev = events[i];
        if is_split_event(&ev, infos) && ev.sample_offset() == time {
            out.push(ev);
        }
        i = i + 1;
    }
    proof {
        assert(events@.take(n as int) == events@);
    }
    out
}

} // verus!
