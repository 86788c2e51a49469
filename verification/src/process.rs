//! Per-block process status.

use vstd::prelude::*;

verus! {

/// What the plugin wants after `process`.
#[derive(Clone, Copy, Debug, PartialEq, Eq, Structural)]
pub enum ProcessStatus {
    /// Keep calling process (normal).
    Continue,
    /// No more output expected until something changes (tail finished).
    TailFinished,
    /// Error — host may suspend.
    Error,
}

impl Default for ProcessStatus {
    fn default() -> (s: Self)
        ensures
            s == ProcessStatus::Continue,
    {
        ProcessStatus::Continue
    }
}

/// The block status after one more chunk: an error ends the block, a
/// finished tail sticks, otherwise the block continues.
pub open spec fn merged_status(acc: ProcessStatus, chunk: ProcessStatus) -> ProcessStatus {
    match chunk {
        ProcessStatus::Error => ProcessStatus::Error,
        ProcessStatus::TailFinished => ProcessStatus::TailFinished,
        ProcessStatus::Continue => if acc == ProcessStatus::TailFinished {
            ProcessStatus::TailFinished
        } else {
            ProcessStatus::Continue
        },
    }
}

/// Fold the status of one processed chunk into the block status. Returns
/// the new block status and whether the remaining chunks are skipped.
pub fn merge_chunk_status(acc: ProcessStatus, chunk: ProcessStatus) -> (r: (ProcessStatus, bool))
    ensures
        r.0 == merged_status(acc, chunk),
        r.1 == (chunk == ProcessStatus::Error),
{
    match chunk {
        ProcessStatus::Error => (ProcessStatus::Error, true),
        ProcessStatus::TailFinished => (ProcessStatus::TailFinished, false),
        ProcessStatus::Continue => {
            if acc != ProcessStatus::TailFinished {
                (ProcessStatus::Continue, false)
            } else {
                (acc, false)
            }
        },
    }
}

/// The status a block reports for the statuses of its chunks, in order:
/// the first error stops the block.
pub open spec fn block_status(chunks: Seq<ProcessStatus>) -> ProcessStatus
    decreases chunks.len(),
{
    if chunks.len() == 0 {
        ProcessStatus::Continue
    } else {
        merged_status(block_status(chunks.drop_last()), chunks.last())
    }
}

/// Once a chunk finished its tail and no chunk failed, the block reports
/// a finished tail.
pub proof fn lemma_tail_finished_sticks(chunks: Seq<ProcessStatus>, k: int)
    requires
        0 <= k < chunks.len(),
        chunks[k] == ProcessStatus::TailFinished,
        forall|j: int| 0 <= j < chunks.len() ==> chunks[j] != ProcessStatus::Error,
    ensures
        block_status(chunks) == ProcessStatus::TailFinished,
    decreases chunks.len(),
{
    if k < chunks.len() - 1 {
        let t = chunks.drop_last();
        assert(t[k] == chunks[k]);
        lemma_tail_finished_sticks(t, k);
    }
}

/// What the block loop does next, between split points `next` and
/// `next + 1`.
#[derive(Clone, Copy, Debug, PartialEq, Eq, Structural)]
pub enum ChunkAction {
    /// Run the chunk `start..end`; `single` when it is the whole block, so
    /// the block's event lists are handed over without copying.
    Run { start: u32, end: u32, single: bool },
    /// An empty chunk: go on with the next one.
    Skip,
    /// The silence buffer for absent inputs is too short: the block fails.
    Fail,
    /// No chunk is left: the block reports `status`.
    Finish(ProcessStatus),
}

/// The next step of the chunk loop over `splits`, with `silence_len`
/// frames of silence for absent inputs and the block status `status`
/// merged so far.
pub open spec fn chunk_action_of(splits: Seq<u32>, next: int, silence_len: int, status: ProcessStatus) -> ChunkAction {
    if next + 1 >= splits.len() {
        ChunkAction::Finish(status)
    } else if splits[next + 1] <= splits[next] {
        ChunkAction::Skip
    } else if silence_len < splits[next + 1] {
        ChunkAction::Fail
    } else {
        ChunkAction::Run { start: splits[next], end: splits[next + 1], single: splits.len() == 2 }
    }
}

/// Decide the next step of the chunk loop (see [`chunk_action_of`]). After
/// a `Run`, the caller folds the chunk's status in with
/// [`merge_chunk_status`] and stops on an error.
pub fn chunk_action(splits: &[u32], next: usize, silence_len: usize, status: ProcessStatus) -> (a: ChunkAction)
    ensures
        a == chunk_action_of(splits@, next as int, silence_len as int, status),
{
    if next >= splits.len() || next + 1 >= splits.len() {
        return ChunkAction::Finish(status);
    }
    let t0 = splits[next];
    let t1 = splits[next + 1];
    if t1 <= t0 {
        ChunkAction::Skip
    } else if silence_len < t1 as usize {
        ChunkAction::Fail
    } else {
        ChunkAction::Run { start: t0, end: t1, single: splits.len() == 2 }
    }
}

/// Most audio input channels (main and sidechain together) a block carries.
pub const MAX_AUDIO_CH: usize = 8;

/// What `process` answers before touching any buffer: `Some(status)` to
/// return at once (inactive plugin, empty block, block larger than the
/// activation allowed), `None` to run the block.
pub open spec fn precheck_of(active: bool, frames: u32, max_frames: u32) -> Option<ProcessStatus> {
    if !active {
        Some(ProcessStatus::Error)
    } else if frames == 0 {
        Some(ProcessStatus::Continue)
    } else if max_frames == 0 || frames > max_frames {
        Some(ProcessStatus::Error)
    } else {
        None
    }
}

pub fn block_precheck(active: bool, frames: u32, max_frames: u32) -> (r: Option<ProcessStatus>)
    ensures
        r == precheck_of(active, frames, max_frames),
{
    if !active {
        return Some(ProcessStatus::Error);
    }
    if frames == 0 {
        return Some(ProcessStatus::Continue);
    }
    if max_frames == 0 || frames > max_frames {
        return Some(ProcessStatus::Error);
    }
    None
}

/// Output channels a block writes: the layout's main output, cut down to
/// what the host's first output port provides (`None`: no usable output
/// port, as note-effect racks send; events are still processed).
pub fn effective_out_channels(layout_out: u32, host_port_channels: Option<u32>) -> (n: u32)
    ensures
        n == match host_port_channels {
            Some(c) => if c < layout_out { c } else { layout_out },
            None => 0,
        },
{
    match host_port_channels {
        Some(c) => if c < layout_out { c } else { layout_out },
        None => 0,
    }
}

/// The `(port, channel)` pairs of the host's input ports, in order; a port
/// without a buffer (`None`) contributes nothing.
pub open spec fn flat_channels(ports: Seq<Option<u32>>) -> Seq<(usize, usize)>
    decreases ports.len(),
{
    if ports.len() == 0 {
        Seq::empty()
    } else {
        let p = ports.len() - 1;
        flat_channels(ports.drop_last()) + match ports[p] {
            Some(c) => Seq::new(c as nat, |ch: int| (p as usize, ch as usize)),
            None => Seq::empty(),
        }
    }
}

proof fn lemma_flat_prefix(ports: Seq<Option<u32>>, p: int)
    requires
        0 <= p <= ports.len(),
    ensures
        flat_channels(ports.take(p)).len() <= flat_channels(ports).len(),
        forall|k: int|
            0 <= k < flat_channels(ports.take(p)).len() ==> #[trigger] flat_channels(ports.take(p))[k]
                == flat_channels(ports)[k],
    decreases ports.len() - p,
{
    if p == ports.len() {
        assert(ports.take(p) == ports);
    } else {
        lemma_flat_prefix(ports, p + 1);
        assert(ports.take(p + 1).drop_last() == ports.take(p));
        let a = flat_channels(ports.take(p));
        let b = flat_channels(ports.take(p + 1));
        assert forall|k: int| 0 <= k < a.len() implies #[trigger] a[k] == flat_channels(ports)[k] by {
            assert(a[k] == b[k]);
        }
    }
}

/// Where each of the block's `total_in` input channels is read from:
/// the channels of the host's input ports in order, then silence (`None`)
/// for channels the host did not provide. Extra host channels are ignored.
pub fn input_channel_map(total_in: usize, ports: &[Option<u32>]) -> (m: Vec<Option<(usize, usize)>>)
    ensures
        m@.len() == total_in,
        forall|k: int|
            0 <= k < total_in ==> #[trigger] m@[k] == if k < flat_channels(ports@).len() {
                Some(flat_channels(ports@)[k])
            } else {
                None
            },
{
    let mut m: Vec<Option<(usize, usize)>> = Vec::new();
    let n = ports.len();
    let mut p: usize = 0;
    while p < n && m.len() < total_in
        invariant
            0 <= p <= n,
            n == ports@.len(),
            m@.len() <= total_in,
            m@.len() <= flat_channels(ports@.take(p as int)).len(),
            m@.len() < total_in ==> m@.len() == flat_channels(ports@.take(p as int)).len(),
            forall|k: int|
                0 <= k < m@.len() ==> #[trigger] m@[k] == Some(flat_channels(ports@.take(p as int))[k]),
        decreases n - p,
    {
        let ghost before = flat_channels(ports@.take(p as int));
        proof {
            assert(ports@.take(p + 1).drop_last() == ports@.take(p as int));
        }
        let ghost after = flat_channels(ports@.take(p + 1));
        match ports[p] {
            Some(c) => {
                let mut ch: u32 = 0;
                while ch < c && m.len() < total_in
                    invariant
                        0 <= ch <= c,
                        ports@[p as int] == Some(c),
                        p < n,
                        n == ports@.len(),
                        after == before + Seq::new(c as nat, |q: int| (p as usize, q as usize)),
                        m@.len() <= total_in,
                        m@.len() <= before.len() + ch,
                        m@.len() < total_in ==> m@.len() == before.len() + ch,
                        forall|k: int| 0 <= k < m@.len() ==> #[trigger] m@[k] == Some(after[k]),
                    decreases c - ch,
                {
                    proof {
                        assert(after[before.len() + ch] == (p as usize, ch as usize));
                    }
                    m.push(Some((p, ch as usize)));
                    ch = ch + 1;
                }
            },
            None => {
                proof {
                    assert(after =~= before);
                }
            },
        }
        p = p + 1;
    }
    proof {
        lemma_flat_prefix(ports@, p as int);
        if m@.len() < total_in {
            assert(ports@.take(p as int) == ports@);
        }
    }
    let filled = m.len();
    while m.len() < total_in
        invariant
            filled <= m@.len() <= total_in,
            filled == flat_channels(ports@).len() || filled == total_in,
            filled <= flat_channels(ports@).len(),
            forall|k: int| 0 <= k < filled ==> #[trigger] m@[k] == Some(flat_channels(ports@)[k]),
            forall|k: int| filled <= k < m@.len() ==> #[trigger] m@[k] is None,
        decreases total_in - m@.len(),
    {
        m.push(None);
    }
    m
}

} // verus!
