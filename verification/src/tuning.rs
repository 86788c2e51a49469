//! Host tuning selection (CLAP `clap.tuning` / MTS-ESP).
//!
//! The host sends tuning-selection events; `port_index == -1` and
//! `channel == -1` are wildcards. A lookup resolves the most specific
//! selection: port + channel, else port-wide, else global.

use vstd::prelude::*;

verus! {

/// A tuning selection event delivered by the host.
#[derive(Clone, Copy, Debug, PartialEq, Eq, Structural)]
pub struct TuningEvent {
    pub sample_offset: u32,
    pub port_index: i16,
    pub channel: i16,
    pub tuning_id: u32,
}

/// Note ports with their own row in the table.
pub const TUNING_PORTS: usize = 4;
/// MIDI channels per port.
pub const TUNING_CHANNELS: usize = 16;
/// CLAP's "no id" (`CLAP_INVALID_ID`).
pub const INVALID_TUNING_ID: u32 = 0xFFFF_FFFF;

/// Row of a port: `0` for the global row (out-of-range ports fall back to it).
pub open spec fn port_row(port: i32) -> int {
    if 0 <= port < TUNING_PORTS { port + 1 } else { 0 }
}

/// Column of a channel: `0` for the port-wide column.
pub open spec fn channel_col(channel: i32) -> int {
    if 0 <= channel < TUNING_CHANNELS { channel + 1 } else { 0 }
}

/// Flat index of a `(row, column)` cell.
pub open spec fn cell(row: int, col: int) -> int {
    row * (TUNING_CHANNELS + 1) + col
}

/// Number of cells: `(ports + 1) × (channels + 1)`.
pub open spec fn cell_count() -> int {
    ((TUNING_PORTS + 1) * (TUNING_CHANNELS + 1)) as int
}

/// The id a lookup resolves from table contents `ids`.
pub open spec fn resolve(ids: Seq<u32>, port: i32, channel: i32) -> u32 {
    let specific = ids[cell(port_row(port), channel_col(channel))];
    let port_wide = ids[cell(port_row(port), 0)];
    if specific != INVALID_TUNING_ID {
        specific
    } else if port_wide != INVALID_TUNING_ID {
        port_wide
    } else {
        ids[cell(0, 0)]
    }
}

/// Active tuning ids per `(port, channel)` scope.
pub struct TuningIdTable {
    ids: Vec<u32>,
}

impl View for TuningIdTable {
    type V = Seq<u32>;

    closed spec fn view(&self) -> Seq<u32> {
        self.ids@
    }
}

fn indices(port: i32, channel: i32) -> (r: (usize, usize))
    ensures
        r.0 == port_row(port),
        r.1 == channel_col(channel),
{
    let p: usize = if port >= 0 && port < 4 {
        (port + 1) as usize
    } else {
        0
    };
    let c: usize = if channel >= 0 && channel < 16 {
        (channel + 1) as usize
    } else {
        0
    };
    (p, c)
}

impl TuningIdTable {
    pub open spec fn wf(&self) -> bool {
        self@.len() == cell_count()
    }

    /// No tuning selected anywhere.
    pub fn new() -> (t: Self)
        ensures
            t.wf(),
            forall|i: int| 0 <= i < cell_count() ==> t@[i] == INVALID_TUNING_ID,
    {
        let mut ids: Vec<u32> = Vec::new();
        let mut i: usize = 0;
        while i < 85
            invariant
                0 <= i <= 85,
                ids@.len() == i,
                forall|j: int| 0 <= j < i ==> ids@[j] == INVALID_TUNING_ID,
            decreases 85 - i,
        {
            ids.push(INVALID_TUNING_ID);
            i = i + 1;
        }
        TuningIdTable { ids }
    }

    /// Apply a host tuning-selection event: store its id in its scope.
    pub fn apply(&mut self, event: &TuningEvent)
        requires
            old(self).wf(),
        ensures
            final(self).wf(),
            final(self)@ == old(self)@.update(
                cell(port_row(event.port_index as i32), channel_col(event.channel as i32)),
                event.tuning_id,
            ),
    {
        let (p, c) = indices(event.port_index as i32, event.channel as i32);
        self.ids.set(p * 17 + c, event.tuning_id);
    }

    /// The active id for `(port, channel)`: the most specific selection,
    /// else the port-wide one, else the global one.
    pub fn current_id(&self, port: i32, channel: i32) -> (id: u32)
        requires
            self.wf(),
        ensures
            id == resolve(self@, port, channel),
    {
        let (p, c) = indices(port, channel);
        let specific = self.ids[p * 17 + c];
        if specific != INVALID_TUNING_ID {
            return specific;
        }
        let port_global = self.ids[p * 17];
        if port_global != INVALID_TUNING_ID {
            return port_global;
        }
        self.ids[0]
    }
}

/// A lookup in the scope an event selected gives back that event's id.
pub proof fn lemma_apply_then_resolve(ids: Seq<u32>, e: TuningEvent)
    requires
        ids.len() == cell_count(),
        e.tuning_id != INVALID_TUNING_ID,
    ensures
        resolve(
            ids.update(cell(port_row(e.port_index as i32), channel_col(e.channel as i32)), e.tuning_id),
            e.port_index as i32,
            e.channel as i32,
        ) == e.tuning_id,
{
}

/// Selecting a tuning in one scope leaves lookups of unrelated scopes alone:
/// a port-and-channel selection does not change other channels or ports.
pub proof fn lemma_apply_is_local(ids: Seq<u32>, e: TuningEvent, port: i32, channel: i32)
    requires
        ids.len() == cell_count(),
        0 <= e.port_index < TUNING_PORTS,
        0 <= e.channel < TUNING_CHANNELS,
        port_row(port) != port_row(e.port_index as i32) || channel_col(channel) != channel_col(
            e.channel as i32,
        ),
    ensures
        resolve(
            ids.update(cell(port_row(e.port_index as i32), channel_col(e.channel as i32)), e.tuning_id),
            port,
            channel,
        ) == resolve(ids, port, channel),
{
}

} // verus!
