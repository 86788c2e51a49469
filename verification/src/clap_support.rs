//! CLAP protocol helpers used by the format wrapper: note-event capping,
//! remote-control pages, parameter flag mapping and the latency cache.

use vstd::prelude::*;
use vstd::string::{StrSliceExecFns, StringSliceAdditionalSpecFns};
use vstd::bytes::{spec_u32_to_le_bytes, spec_u64_to_le_bytes, u32_to_le_bytes, u64_to_le_bytes};
use crate::params::{ParamFlags, ParamInfo, AUTOMATABLE, HIDDEN, READONLY, IS_BYPASS, MODULATABLE, MODULATABLE_PER_NOTE};
use crate::bus::{BusLayout, ChannelConfig, opt_channels, channels_of, config_name_of};
use crate::info::{MidiDialect, PluginCategory};
use crate::config::ProcessMode;
use crate::hot::TargetOs;
use crate::text::str_equal;
use vstd::utf8::encode_utf8;

verus! {

/// Bitwig can emit a note-expression per sample per voice. Non-essential
/// note events beyond this many in one block are dropped.
pub const MAX_NOTE_EVENTS: usize = 4096;

/// Keep an event when it is essential (on / off / choke) or the block is
/// under the cap, so notes cannot stick.
pub fn accept_note_event(len: usize, essential: bool) -> (b: bool)
    ensures
        b == (essential || len < MAX_NOTE_EVENTS),
{
    essential || len < MAX_NOTE_EVENTS
}

// ---------------------------------------------------------------------------
// Remote-control pages
// ---------------------------------------------------------------------------

/// Parameter slots per remote-control page (`CLAP_REMOTE_CONTROLS_COUNT`).
pub const REMOTE_CONTROLS_COUNT: usize = 8;

/// `k` is the first `'/'` in `s` (`s.len()` if none).
pub open spec fn is_first_slash(s: Seq<char>, k: int) -> bool {
    &&& 0 <= k <= s.len()
    &&& forall|j: int| 0 <= j < k ==> #[trigger] s[j] != '/'
    &&& k < s.len() ==> s[k] == '/'
}

pub open spec fn first_slash(s: Seq<char>) -> int {
    choose|k: int| is_first_slash(s, k)
}

proof fn lemma_first_slash(s: Seq<char>, k: int)
    requires
        is_first_slash(s, k),
    ensures
        first_slash(s) == k,
{
    let c = first_slash(s);
    assert(is_first_slash(s, c));
    if c < k {
        assert(s[c] != '/');
    } else if k < c {
        assert(s[k] != '/');
    }
}

/// `(section, page)` of a group: split on the first `/`; a group without
/// `/` names both.
pub open spec fn group_parts(g: Seq<char>) -> (Seq<char>, Seq<char>) {
    let k = first_slash(g);
    if k < g.len() {
        (g.subrange(0, k), g.subrange(k + 1, g.len() as int))
    } else {
        (g, g)
    }
}

/// Split `group` on the first `/` into `(section_name, page_name)`.
pub fn split_group(group: &str) -> (r: (&str, &str))
    ensures
        (r.0@, r.1@) == group_parts(group@),
{
    let n = group.unicode_len();
    let mut i: usize = 0;
    while i < n
        invariant
            0 <= i <= n,
            n == group@.len(),
            forall|j: int| 0 <= j < i ==> #[trigger] group@[j] != '/',
        decreases n - i,
    {
        if group.get_char(i) == '/' {
            proof {
                lemma_first_slash(group@, i as int);
            }
            return (group.substring_char(0, i), group.substring_char(i + 1, n));
        }
        i = i + 1;
    }
    proof {
        lemma_first_slash(group@, n as int);
    }
    (group, group)
}

proof fn lemma_first_slash_exists(s: Seq<char>)
    ensures
        is_first_slash(s, first_slash(s)),
    decreases s.len(),
{
    if s.len() == 0 {
        assert(is_first_slash(s, 0));
    } else {
        let t = s.drop_last();
        lemma_first_slash_exists(t);
        let k = first_slash(t);
        assert forall|j: int| 0 <= j < k implies #[trigger] s[j] != '/' by {
            assert(s[j] == t[j]);
        }
        if k < t.len() {
            assert(s[k] == t[k]);
            assert(is_first_slash(s, k));
        } else if s.last() == '/' {
            assert(is_first_slash(s, t.len() as int));
        } else {
            assert(is_first_slash(s, s.len() as int));
        }
    }
}

/// A group with a `/` is its section, that `/` and its page; the section
/// holds no `/`. A group without one names both parts.
pub proof fn lemma_group_parts_rejoin(g: Seq<char>)
    ensures
        g.contains('/') ==> group_parts(g).0 + seq!['/'] + group_parts(g).1 == g,
        g.contains('/') ==> !group_parts(g).0.contains('/'),
        !g.contains('/') ==> group_parts(g) == (g, g),
{
    lemma_first_slash_exists(g);
    let k = first_slash(g);
    if g.contains('/') {
        let j = choose|j: int| 0 <= j < g.len() && g[j] == '/';
        if k == g.len() {
            assert(g[j] != '/');
        }
        assert(group_parts(g).0 + seq!['/'] + group_parts(g).1 =~= g);
        assert forall|i: int| 0 <= i < group_parts(g).0.len() implies group_parts(g).0[i] != '/' by {
            assert(g[i] != '/');
        }
    } else {
        if k < g.len() {
            assert(g.contains(g[k]));
        }
    }
}

/// A page of `group` that still has a free slot.
pub open spec fn page_open(p: (Seq<char>, Seq<u32>), group: Seq<char>) -> bool {
    p.0 == group && p.1.len() < REMOTE_CONTROLS_COUNT
}

/// `k` is the last open page of `group` (`-1` if none).
pub open spec fn is_last_open(pages: Seq<(Seq<char>, Seq<u32>)>, group: Seq<char>, k: int) -> bool {
    &&& -1 <= k < pages.len()
    &&& k >= 0 ==> page_open(pages[k], group)
    &&& forall|j: int| k < j < pages.len() ==> !page_open(#[trigger] pages[j], group)
}

pub open spec fn last_open(pages: Seq<(Seq<char>, Seq<u32>)>, group: Seq<char>) -> int {
    choose|k: int| is_last_open(pages, group, k)
}

proof fn lemma_last_open(pages: Seq<(Seq<char>, Seq<u32>)>, group: Seq<char>, k: int)
    requires
        is_last_open(pages, group, k),
    ensures
        last_open(pages, group) == k,
{
    let c = last_open(pages, group);
    assert(is_last_open(pages, group, c));
    if c < k {
        assert(!page_open(pages[k], group));
    } else if k < c {
        assert(!page_open(pages[c], group));
    }
}

/// Hidden and read-only params never take a scarce hardware slot.
pub open spec fn takes_slot(info: ParamInfo) -> bool {
    info.group@.len() != 0 && info.flags.bits & (HIDDEN | READONLY) == 0
}

/// Pages after one more param: appended to the last open page of its
/// group, else a new page.
pub open spec fn pages_step(pages: Seq<(Seq<char>, Seq<u32>)>, info: ParamInfo) -> Seq<
    (Seq<char>, Seq<u32>),
> {
    if !takes_slot(info) {
        pages
    } else {
        let k = last_open(pages, info.group@);
        if k >= 0 {
            pages.update(k, (pages[k].0, pages[k].1.push(info.id)))
        } else {
            pages.push((info.group@, seq![info.id]))
        }
    }
}

/// Remote-control pages for a param list, in declaration order.
pub open spec fn pages_of(infos: Seq<ParamInfo>) -> Seq<(Seq<char>, Seq<u32>)>
    decreases infos.len(),
{
    if infos.len() == 0 {
        Seq::empty()
    } else {
        pages_step(pages_of(infos.drop_last()), infos.last())
    }
}

pub open spec fn page_view(p: (String, Vec<u32>)) -> (Seq<char>, Seq<u32>) {
    (p.0@, p.1@)
}

/// The last page of `group` with a free slot.
fn find_last_open(pages: &Vec<(String, Vec<u32>)>, group: &String) -> (r: Option<usize>)
    ensures
        r matches Some(k) ==> is_last_open(
            pages@.map_values(|p: (String, Vec<u32>)| page_view(p)),
            group@,
            k as int,
        ),
        r is None ==> is_last_open(
            pages@.map_values(|p: (String, Vec<u32>)| page_view(p)),
            group@,
            -1,
        ),
{
    let ghost view = pages@.map_values(|p: (String, Vec<u32>)| page_view(p));
    let mut k: usize = pages.len();
    while k > 0
        invariant
            0 <= k <= pages@.len(),
            view == pages@.map_values(|p: (String, Vec<u32>)| page_view(p)),
            forall|j: int| k <= j < pages@.len() ==> !page_open(#[trigger] view[j], group@),
        decreases k,
    {
        let j = k - 1;
        proof {
            assert(view[j as int] == page_view(pages@[j as int]));
        }
        if pages[j].0 == *group && pages[j].1.len() < REMOTE_CONTROLS_COUNT {
            return Some(j);
        }
        k = j;
    }
    None
}

proof fn lemma_last_open_exists(pages: Seq<(Seq<char>, Seq<u32>)>, group: Seq<char>)
    ensures
        is_last_open(pages, group, last_open(pages, group)),
    decreases pages.len(),
{
    if pages.len() == 0 {
        assert(is_last_open(pages, group, -1));
    } else if page_open(pages.last(), group) {
        assert(is_last_open(pages, group, pages.len() - 1));
    } else {
        let t = pages.drop_last();
        lemma_last_open_exists(t, group);
        let k = last_open(t, group);
        assert forall|j: int| k < j < pages.len() implies !page_open(#[trigger] pages[j], group) by {
            if j < t.len() {
                assert(pages[j] == t[j]);
            }
        }
        if k >= 0 {
            assert(pages[k] == t[k]);
        }
        assert(is_last_open(pages, group, k));
    }
}

/// Every remote-control page belongs to a named group and holds between
/// one and eight parameter ids.
pub proof fn lemma_pages_hold_one_to_eight(infos: Seq<ParamInfo>)
    ensures
        forall|k: int|
            0 <= k < pages_of(infos).len() ==> 1 <= (#[trigger] pages_of(infos)[k]).1.len()
                <= REMOTE_CONTROLS_COUNT && pages_of(infos)[k].0.len() > 0,
    decreases infos.len(),
{
    if infos.len() > 0 {
        let prev = pages_of(infos.drop_last());
        lemma_pages_hold_one_to_eight(infos.drop_last());
        let info = infos.last();
        if takes_slot(info) {
            lemma_last_open_exists(prev, info.group@);
            let k = last_open(prev, info.group@);
            let next = pages_of(infos);
            assert forall|j: int| 0 <= j < next.len() implies 1 <= (#[trigger] next[j]).1.len()
                <= REMOTE_CONTROLS_COUNT && next[j].0.len() > 0 by {
                if j < prev.len() && j != k {
                    assert(next[j] == prev[j]);
                }
            }
        }
    }
}

/// Chunk params into remote-control pages (≤ 8 ids each), one run per
/// distinct non-empty group, in declaration order.
pub fn remote_control_pages(infos: &[ParamInfo]) -> (pages: Vec<(String, Vec<u32>)>)
    ensures
        pages@.map_values(|p: (String, Vec<u32>)| page_view(p)) == pages_of(infos@),
{
    let mut pages: Vec<(String, Vec<u32>)> = Vec::new();
    let n = infos.len();
    let mut i: usize = 0;
    while i < n
        invariant
            0 <= i <= n,
            n == infos@.len(),
            pages@.map_values(|p: (String, Vec<u32>)| page_view(p)) == pages_of(
                infos@.take(i as int),
            ),
        decreases n - i,
    {
        let info = &infos[i];
        let ghost before = pages@.map_values(|p: (String, Vec<u32>)| page_view(p));
        proof {
            assert(infos@.take(i + 1).drop_last() == infos@.take(i as int));
            assert(infos@.take(i + 1).last() == *info);
        }
        if info.group.as_str().is_empty() || info.flags.intersects(HIDDEN | READONLY) {
            i = i + 1;
            continue;
        }
        let found = find_last_open(&pages, &info.group);
        if let Some(k) = found {
            proof {
                lemma_last_open(before, info.group@, k as int);
            }
            let (g, mut ids) = pages.remove(k);
            ids.push(info.id);
            pages.insert(k, (g, ids));
            proof {
                let after = pages@.map_values(|p: (String, Vec<u32>)| page_view(p));
                assert(after =~= before.update(k as int, (before[k as int].0, before[k as int].1.push(info.id))));
            }
        } else {
            proof {
                lemma_last_open(before, info.group@, -1);
            }
            let mut ids: Vec<u32> = Vec::new();
            ids.push(info.id);
            pages.push((info.group.clone(), ids));
            proof {
                let after = pages@.map_values(|p: (String, Vec<u32>)| page_view(p));
                assert(after =~= before.push((info.group@, seq![info.id])));
            }
        }
        i = i + 1;
    }
    proof {
        assert(infos@.take(n as int) == infos@);
    }
    pages
}

// ---------------------------------------------------------------------------
// Stable page ids (FNV-1a)
// ---------------------------------------------------------------------------

pub const FNV_OFFSET: u32 = 0x811c_9dc5;
pub const FNV_PRIME: u32 = 0x0100_0193;

/// One FNV-1a step: xor the byte in, multiply by the prime (mod 2^32).
pub open spec fn fnv_step(h: u32, b: u8) -> u32 {
    (((h ^ (b as u32)) as int * FNV_PRIME as int) % 0x1_0000_0000) as u32
}

pub open spec fn fnv_bytes(h: u32, bytes: Seq<u8>) -> u32
    decreases bytes.len(),
{
    if bytes.len() == 0 {
        h
    } else {
        fnv_step(fnv_bytes(h, bytes.drop_last()), bytes.last())
    }
}

/// The little-endian bytes of a `usize`, as many as the target's word has.
pub open spec fn usize_le_bytes(x: usize) -> Seq<u8> {
    if usize::BITS == 64 {
        spec_u64_to_le_bytes(x as u64)
    } else {
        spec_u32_to_le_bytes(x as u32)
    }
}

/// The page id: FNV-1a over the group's UTF-8 bytes, then over the chunk
/// index's own little-endian bytes.
pub open spec fn page_id(group: Seq<u8>, chunk_index: usize) -> u32 {
    fnv_bytes(fnv_bytes(FNV_OFFSET, group), usize_le_bytes(chunk_index))
}

fn fnv_mix(h: u32, bytes: &[u8]) -> (r: u32)
    ensures
        r == fnv_bytes(h, bytes@),
{
    let mut hash = h;
    let n = bytes.len();
    let mut i: usize = 0;
    while i < n
        invariant
            0 <= i <= n,
            n == bytes@.len(),
            hash == fnv_bytes(h, bytes@.take(i as int)),
        decreases n - i,
    {
        proof {
            assert(bytes@.take(i + 1).drop_last() == bytes@.take(i as int));
        }
        let x = hash ^ (bytes[i] as u32);
        let wide = (x as u64) * (FNV_PRIME as u64);
        assert(wide == x as int * FNV_PRIME as int) by (nonlinear_arith)
            requires
                wide == x as u64 * FNV_PRIME as u64,
                x <= u32::MAX,
        ;
        hash = (wide % 0x1_0000_0000u64) as u32;
        i = i + 1;
    }
    proof {
        assert(bytes@.take(n as int) == bytes@);
    }
    hash
}

/// Stable page id from group name + chunk index (the host may persist the
/// user's last page, so it must not depend on process-local hashers). The
/// index is hashed as its own `usize` bytes.
pub fn remote_controls_page_id(group: &str, chunk_index: usize) -> (id: u32)
    ensures
        id == page_id(group.spec_bytes(), chunk_index),
{
    let h = fnv_mix(FNV_OFFSET, group.as_bytes());
    let idx = if usize::BITS == 64 {
        u64_to_le_bytes(chunk_index as u64)
    } else {
        u32_to_le_bytes(chunk_index as u32)
    };
    fnv_mix(h, idx.as_slice())
}

// ---------------------------------------------------------------------------
// One remote-control page as the host reads it
// ---------------------------------------------------------------------------

/// CLAP's "no id" (`CLAP_INVALID_ID`), filling unused page slots.
pub const CLAP_INVALID_ID: u32 = 0xFFFF_FFFF;

/// One remote-control page: names, stable id and its eight slots.
pub struct RemotePage {
    pub section_name: String,
    pub page_name: String,
    pub page_id: u32,
    /// Eight parameter ids; unused slots hold [`CLAP_INVALID_ID`].
    pub param_ids: Vec<u32>,
}

/// Pages before `k` that belong to `group`.
pub open spec fn pages_of_group_before(pages: Seq<(Seq<char>, Seq<u32>)>, group: Seq<char>, k: int) -> nat
    decreases k,
{
    if k <= 0 {
        0
    } else {
        pages_of_group_before(pages, group, k - 1) + if pages[k - 1].0 == group {
            1nat
        } else {
            0nat
        }
    }
}

/// A page's ids in its eight slots, unused slots invalid.
pub open spec fn slots_of(ids: Seq<u32>) -> Seq<u32> {
    Seq::new(REMOTE_CONTROLS_COUNT as nat, |i: int| if i < ids.len() { ids[i] } else { CLAP_INVALID_ID })
}

/// Page `index` as the host reads it: section and page name from its
/// group, the id from the group and how many earlier pages share it.
pub fn remote_controls_page(infos: &[ParamInfo], index: usize) -> (r: Option<RemotePage>)
    ensures
        (index as int) < pages_of(infos@).len() <==> r is Some,
        r matches Some(p) ==> {
            let pg = pages_of(infos@)[index as int];
            &&& (p.section_name@, p.page_name@) == group_parts(pg.0)
            &&& p.page_id == page_id(
                encode_utf8(pg.0),
                pages_of_group_before(pages_of(infos@), pg.0, index as int) as usize,
            )
            &&& p.param_ids@ == slots_of(pg.1)
        },
{
    let pages = remote_control_pages(infos);
    let ghost view = pages@.map_values(|p: (String, Vec<u32>)| page_view(p));
    if index >= pages.len() {
        return None;
    }
    proof {
        lemma_pages_hold_one_to_eight(infos@);
        assert(view[index as int] == page_view(pages@[index as int]));
    }
    let group = pages[index].0.as_str();
    let ids = &pages[index].1;
    let mut chunk: usize = 0;
    let mut j: usize = 0;
    while j < index
        invariant
            0 <= j <= index,
            index < pages@.len(),
            view == pages@.map_values(|p: (String, Vec<u32>)| page_view(p)),
            group@ == view[index as int].0,
            chunk == pages_of_group_before(view, group@, j as int),
            chunk <= j,
        decreases index - j,
    {
        proof {
            assert(view[j as int] == page_view(pages@[j as int]));
        }
        if crate::text::str_equal(pages[j].0.as_str(), group) {
            chunk = chunk + 1;
        }
        j = j + 1;
    }
    let (section, page) = split_group(group);
    let page_id = remote_controls_page_id(group, chunk);
    let mut slots: Vec<u32> = Vec::new();
    let mut k: usize = 0;
    while k < REMOTE_CONTROLS_COUNT
        invariant
            0 <= k <= REMOTE_CONTROLS_COUNT,
            slots@.len() == k,
            forall|q: int| 0 <= q < k ==> slots@[q] == slots_of(ids@)[q],
        decreases REMOTE_CONTROLS_COUNT - k,
    {
        if k < ids.len() {
            slots.push(ids[k]);
        } else {
            slots.push(CLAP_INVALID_ID);
        }
        k = k + 1;
    }
    proof {
        assert(slots@ =~= slots_of(ids@));
    }
    Some(
        RemotePage {
            section_name: section.to_owned(),
            page_name: page.to_owned(),
            page_id,
            param_ids: slots,
        },
    )
}

// ---------------------------------------------------------------------------
// Parameter flags → CLAP flags
// ---------------------------------------------------------------------------

pub const CLAP_PARAM_IS_STEPPED: u32 = 1 << 0;
pub const CLAP_PARAM_IS_HIDDEN: u32 = 1 << 2;
pub const CLAP_PARAM_IS_READONLY: u32 = 1 << 3;
pub const CLAP_PARAM_IS_BYPASS: u32 = 1 << 4;
pub const CLAP_PARAM_IS_AUTOMATABLE: u32 = 1 << 5;
pub const CLAP_PARAM_IS_AUTOMATABLE_PER_NOTE_ID: u32 = 1 << 6;
pub const CLAP_PARAM_IS_AUTOMATABLE_PER_KEY: u32 = 1 << 7;
pub const CLAP_PARAM_IS_AUTOMATABLE_PER_CHANNEL: u32 = 1 << 8;
pub const CLAP_PARAM_IS_MODULATABLE: u32 = 1 << 10;
pub const CLAP_PARAM_IS_MODULATABLE_PER_NOTE_ID: u32 = 1 << 11;
pub const CLAP_PARAM_IS_MODULATABLE_PER_KEY: u32 = 1 << 12;
pub const CLAP_PARAM_IS_MODULATABLE_PER_CHANNEL: u32 = 1 << 13;

pub open spec fn has(bits: u32, mask: u32) -> bool {
    bits & mask == mask
}

/// The CLAP flags advertised for a param.
pub open spec fn clap_flags_of(flags: u32, stepped: bool) -> u32 {
    let automatable = has(flags, AUTOMATABLE);
    let per_note = has(flags, MODULATABLE_PER_NOTE);
    (if automatable { CLAP_PARAM_IS_AUTOMATABLE } else { 0 }) | (if automatable && per_note {
        CLAP_PARAM_IS_AUTOMATABLE_PER_NOTE_ID | CLAP_PARAM_IS_AUTOMATABLE_PER_KEY
            | CLAP_PARAM_IS_AUTOMATABLE_PER_CHANNEL
    } else {
        0
    }) | (if has(flags, HIDDEN) { CLAP_PARAM_IS_HIDDEN } else { 0 }) | (if has(flags, READONLY) {
        CLAP_PARAM_IS_READONLY
    } else {
        0
    }) | (if has(flags, IS_BYPASS) { CLAP_PARAM_IS_BYPASS } else { 0 }) | (if per_note {
        CLAP_PARAM_IS_MODULATABLE | CLAP_PARAM_IS_MODULATABLE_PER_NOTE_ID
            | CLAP_PARAM_IS_MODULATABLE_PER_KEY | CLAP_PARAM_IS_MODULATABLE_PER_CHANNEL
    } else if has(flags, MODULATABLE) {
        CLAP_PARAM_IS_MODULATABLE
    } else {
        0
    }) | (if stepped { CLAP_PARAM_IS_STEPPED } else { 0 })
}

/// Map framework param flags (and a stepped range) to CLAP param flags.
/// Per-note automation is advertised together with per-key and per-channel
/// automation, which Bitwig's Voice Stack requires.
pub fn map_param_flags(flags: ParamFlags, stepped: bool) -> (f: u32)
    ensures
        f == clap_flags_of(flags.bits, stepped),
{
    let automatable = flags.contains(AUTOMATABLE);
    let per_note = flags.contains(MODULATABLE_PER_NOTE);
    let a: u32 = if automatable { CLAP_PARAM_IS_AUTOMATABLE } else { 0 };
    let b: u32 = if automatable && per_note {
        CLAP_PARAM_IS_AUTOMATABLE_PER_NOTE_ID | CLAP_PARAM_IS_AUTOMATABLE_PER_KEY
            | CLAP_PARAM_IS_AUTOMATABLE_PER_CHANNEL
    } else {
        0
    };
    let c: u32 = if flags.contains(HIDDEN) { CLAP_PARAM_IS_HIDDEN } else { 0 };
    let d: u32 = if flags.contains(READONLY) { CLAP_PARAM_IS_READONLY } else { 0 };
    let e: u32 = if flags.contains(IS_BYPASS) { CLAP_PARAM_IS_BYPASS } else { 0 };
    let m: u32 = if per_note {
        CLAP_PARAM_IS_MODULATABLE | CLAP_PARAM_IS_MODULATABLE_PER_NOTE_ID
            | CLAP_PARAM_IS_MODULATABLE_PER_KEY | CLAP_PARAM_IS_MODULATABLE_PER_CHANNEL
    } else if flags.contains(MODULATABLE) {
        CLAP_PARAM_IS_MODULATABLE
    } else {
        0
    };
    let s: u32 = if stepped { CLAP_PARAM_IS_STEPPED } else { 0 };
    a | b | c | d | e | m | s
}

/// What the host is told of a parameter: it is modulatable exactly when
/// the parameter is modulatable (mono or per note), automatable exactly
/// when it is automatable, hidden, read-only, bypass and stepped exactly
/// when it is, and per-note modulatable exactly when it is.
pub proof fn lemma_clap_flags_report(flags: u32, stepped: bool)
    ensures
        (clap_flags_of(flags, stepped) & CLAP_PARAM_IS_MODULATABLE != 0) == (has(flags, MODULATABLE)
            || has(flags, MODULATABLE_PER_NOTE)),
        (clap_flags_of(flags, stepped) & CLAP_PARAM_IS_MODULATABLE_PER_NOTE_ID != 0) == has(
            flags,
            MODULATABLE_PER_NOTE,
        ),
        (clap_flags_of(flags, stepped) & CLAP_PARAM_IS_AUTOMATABLE != 0) == has(flags, AUTOMATABLE),
        (clap_flags_of(flags, stepped) & CLAP_PARAM_IS_HIDDEN != 0) == has(flags, HIDDEN),
        (clap_flags_of(flags, stepped) & CLAP_PARAM_IS_READONLY != 0) == has(flags, READONLY),
        (clap_flags_of(flags, stepped) & CLAP_PARAM_IS_BYPASS != 0) == has(flags, IS_BYPASS),
        (clap_flags_of(flags, stepped) & CLAP_PARAM_IS_STEPPED != 0) == stepped,
{
    let automatable = has(flags, AUTOMATABLE);
    let per_note = has(flags, MODULATABLE_PER_NOTE);
    let a: u32 = if automatable { 0x20 } else { 0 };
    let b: u32 = if automatable && per_note { 0x1c0 } else { 0 };
    let c: u32 = if has(flags, HIDDEN) { 0x4 } else { 0 };
    let d: u32 = if has(flags, READONLY) { 0x8 } else { 0 };
    let e: u32 = if has(flags, IS_BYPASS) { 0x10 } else { 0 };
    let m: u32 = if per_note { 0x3c00 } else if has(flags, MODULATABLE) { 0x400 } else { 0 };
    let s: u32 = if stepped { 0x1 } else { 0 };
    assert(CLAP_PARAM_IS_STEPPED == 0x1 && CLAP_PARAM_IS_HIDDEN == 0x4 && CLAP_PARAM_IS_READONLY
        == 0x8 && CLAP_PARAM_IS_BYPASS == 0x10 && CLAP_PARAM_IS_AUTOMATABLE == 0x20) by (bit_vector);
    assert(CLAP_PARAM_IS_AUTOMATABLE_PER_NOTE_ID | CLAP_PARAM_IS_AUTOMATABLE_PER_KEY
        | CLAP_PARAM_IS_AUTOMATABLE_PER_CHANNEL == 0x1c0) by (bit_vector);
    assert(CLAP_PARAM_IS_MODULATABLE == 0x400 && CLAP_PARAM_IS_MODULATABLE_PER_NOTE_ID == 0x800)
        by (bit_vector);
    assert(CLAP_PARAM_IS_MODULATABLE | CLAP_PARAM_IS_MODULATABLE_PER_NOTE_ID
        | CLAP_PARAM_IS_MODULATABLE_PER_KEY | CLAP_PARAM_IS_MODULATABLE_PER_CHANNEL == 0x3c00)
        by (bit_vector);
    let x = clap_flags_of(flags, stepped);
    assert(x == a | b | c | d | e | m | s);
    assert(
        (x & 0x400 != 0) == (m != 0)
        && (x & 0x800 != 0) == (m == 0x3c00)
        && (x & 0x20 != 0) == (a != 0)
        && (x & 0x4 != 0) == (c != 0)
        && (x & 0x8 != 0) == (d != 0)
        && (x & 0x10 != 0) == (e != 0)
        && (x & 0x1 != 0) == (s != 0)
    ) by (bit_vector)
        requires
            x == a | b | c | d | e | m | s,
            a == 0x20 || a == 0,
            b == 0x1c0 || b == 0,
            c == 0x4 || c == 0,
            d == 0x8 || d == 0,
            e == 0x10 || e == 0,
            m == 0x3c00 || m == 0x400 || m == 0,
            s == 0x1 || s == 0,
    ;
}

/// CLAP audio-port type name for a bus width.
pub fn port_type_name(channels: ChannelConfig) -> (s: &'static str)
    ensures
        s@ == (match channels {
            ChannelConfig::Mono => "mono"@,
            ChannelConfig::Stereo => "stereo"@,
        }),
{
    match channels {
        ChannelConfig::Mono => "mono",
        ChannelConfig::Stereo => "stereo",
    }
}

// ---------------------------------------------------------------------------
// Latency / tail cache
// ---------------------------------------------------------------------------

/// Last value reported to the host (latency or tail); a change means the
/// host must be told.
pub struct LatencyCache {
    value: u32,
}

impl View for LatencyCache {
    type V = u32;

    closed spec fn view(&self) -> u32 {
        self.value
    }
}

/// The cached value and the change flag after storing `new` over `cached`.
pub open spec fn swap_outcome(cached: u32, new: u32) -> (u32, bool) {
    (new, cached != new)
}

/// Reporting the same value twice tells the host once: the second store
/// reports no change.
pub proof fn lemma_swap_reports_change_once(cached: u32, new: u32)
    ensures
        swap_outcome(swap_outcome(cached, new).0, new).1 == false,
        swap_outcome(cached, new).1 == (cached != new),
{
}

impl LatencyCache {
    pub fn new(value: u32) -> (c: Self)
        ensures
            c@ == value,
    {
        LatencyCache { value }
    }

    /// Store `new`; `true` when it differs from the cached value.
    pub fn swap(&mut self, new: u32) -> (changed: bool)
        ensures
            (final(self)@, changed) == swap_outcome(old(self)@, new),
    {
        let old_value = self.value;
        self.value = new;
        old_value != new
    }

    pub fn load(&self) -> (v: u32)
        ensures
            v == self@,
    {
        self.value
    }
}

// ---------------------------------------------------------------------------
// Note-port dialect (host side)
// ---------------------------------------------------------------------------

pub const CLAP_NOTE_DIALECT_CLAP: u32 = 1 << 0;
pub const CLAP_NOTE_DIALECT_MIDI: u32 = 1 << 1;

/// Note dialect a host feeds a plugin's first input note port.
#[derive(Clone, Copy, Debug, PartialEq, Eq, Structural)]
pub enum Dialect {
    /// No note input.
    NoNotes,
    Midi,
    Clap,
}

pub open spec fn dialect_in(d: u32) -> Option<Dialect> {
    if d & CLAP_NOTE_DIALECT_MIDI != 0 {
        Some(Dialect::Midi)
    } else if d & CLAP_NOTE_DIALECT_CLAP != 0 {
        Some(Dialect::Clap)
    } else {
        None
    }
}

/// Prefer what the port asks for; fall back to anything it supports; MIDI
/// wins over CLAP within one mask.
pub fn pick_note_dialect(preferred: u32, supported: u32) -> (d: Dialect)
    ensures
        d == (match dialect_in(preferred) {
            Some(x) => x,
            None => match dialect_in(supported) {
                Some(y) => y,
                None => Dialect::NoNotes,
            },
        }),
{
    if preferred & CLAP_NOTE_DIALECT_MIDI != 0 {
        return Dialect::Midi;
    }
    if preferred & CLAP_NOTE_DIALECT_CLAP != 0 {
        return Dialect::Clap;
    }
    if supported & CLAP_NOTE_DIALECT_MIDI != 0 {
        return Dialect::Midi;
    }
    if supported & CLAP_NOTE_DIALECT_CLAP != 0 {
        return Dialect::Clap;
    }
    Dialect::NoNotes
}

// ---------------------------------------------------------------------------
// Audio ports of the selected layout
// ---------------------------------------------------------------------------

/// One audio port as advertised to the host.
#[derive(Clone, Copy, Debug, PartialEq, Eq)]
pub struct AudioPortInfo {
    pub id: u32,
    pub name: &'static str,
    pub is_main: bool,
    pub channels: ChannelConfig,
}

/// The port count advertised per direction: one port per bus, whatever its
/// width. Inputs are the main input and the sidechain, outputs the main
/// output and the aux output, each when present.
pub open spec fn ports_count_of(layout: BusLayout, is_input: bool) -> u32 {
    if is_input {
        ((if layout.main_in is Some { 1u32 } else { 0u32 }) + (if layout.sidechain_in is Some {
            1u32
        } else {
            0u32
        })) as u32
    } else if layout.aux_out is Some {
        2
    } else {
        1
    }
}

pub fn audio_ports_count(layout: BusLayout, is_input: bool) -> (n: u32)
    ensures
        n == ports_count_of(layout, is_input),
        is_input ==> n == (if layout.main_in is Some { 1u32 } else { 0u32 }) + (if layout.sidechain_in is Some {
            1u32
        } else {
            0u32
        }),
        !is_input ==> n == (if layout.aux_out is Some { 2u32 } else { 1u32 }),
{
    if is_input {
        layout.input_port_count()
    } else {
        layout.output_port_count()
    }
}

/// The port at `index`, as `(id, name, is_main, width)`: inputs are the main
/// input (id 0) when there is one, then the sidechain (id 1); outputs are the
/// main output (id 0), then the aux output (id 1) when there is one.
pub open spec fn port_info_of(layout: BusLayout, index: u32, is_input: bool) -> Option<(u32, Seq<char>, bool, ChannelConfig)> {
    if is_input {
        let main_count: u32 = if layout.main_in is Some { 1 } else { 0 };
        if index == 0 && main_count == 1 {
            Some((0u32, "Input"@, true, layout.main_in->0))
        } else if index == main_count {
            match layout.sidechain_in {
                Some(ch) => Some((1u32, "Sidechain"@, false, ch)),
                None => None,
            }
        } else {
            None
        }
    } else if index == 0 {
        Some((0u32, "Output"@, true, layout.main_out))
    } else if index == 1 {
        match layout.aux_out {
            Some(ch) => Some((1u32, "Aux Output"@, false, ch)),
            None => None,
        }
    } else {
        None
    }
}

pub fn audio_port_info(layout: BusLayout, index: u32, is_input: bool) -> (r: Option<AudioPortInfo>)
    ensures
        r matches Some(p) ==> port_info_of(layout, index, is_input) == Some(
            (p.id, p.name@, p.is_main, p.channels),
        ),
        r is None ==> port_info_of(layout, index, is_input) is None,
        r is Some <==> index < ports_count_of(layout, is_input),
{
    if is_input {
        let main_count: u32 = if layout.main_in.is_some() { 1 } else { 0 };
        if index == 0 && main_count == 1 {
            match layout.main_in {
                Some(ch) => Some(AudioPortInfo { id: 0, name: "Input", is_main: true, channels: ch }),
                None => None,
            }
        } else if index == main_count {
            match layout.sidechain_in {
                Some(ch) => Some(
                    AudioPortInfo { id: 1, name: "Sidechain", is_main: false, channels: ch },
                ),
                None => None,
            }
        } else {
            None
        }
    } else if index == 0 {
        Some(AudioPortInfo { id: 0, name: "Output", is_main: true, channels: layout.main_out })
    } else if index == 1 {
        match layout.aux_out {
            Some(ch) => Some(
                AudioPortInfo { id: 1, name: "Aux Output", is_main: false, channels: ch },
            ),
            None => None,
        }
    } else {
        None
    }
}

/// Each input port reports its own bus: the main port (the one flagged
/// main, id 0) has exactly the main input's width, and the other input
/// port (id 1) exists exactly when there is a sidechain and has exactly
/// the sidechain's width, whatever the main input is.
pub proof fn lemma_input_ports_report_their_bus(layout: BusLayout, index: u32)
    ensures
        port_info_of(layout, index, true) matches Some(p) ==> (if p.2 {
            p.0 == 0 && layout.main_in == Some(p.3)
        } else {
            p.0 == 1 && layout.sidechain_in == Some(p.3)
        }),
        layout.sidechain_in is Some ==> port_info_of(
            layout,
            if layout.main_in is Some { 1u32 } else { 0u32 },
            true,
        ) == Some((1u32, "Sidechain"@, false, layout.sidechain_in->0)),
        layout.main_in is Some ==> port_info_of(layout, 0, true) == Some(
            (0u32, "Input"@, true, layout.main_in->0),
        ),
{
}

/// The outputs likewise: output 0 is the main output with its width, output
/// 1 exists exactly when there is an aux output and has the aux width.
pub proof fn lemma_output_ports_report_their_bus(layout: BusLayout, index: u32)
    ensures
        port_info_of(layout, 0, false) == Some((0u32, "Output"@, true, layout.main_out)),
        port_info_of(layout, index, false) matches Some(p) ==> (if p.2 {
            index == 0 && p.3 == layout.main_out
        } else {
            index == 1 && layout.aux_out == Some(p.3)
        }),
        port_info_of(layout, 1, false) is Some <==> layout.aux_out is Some,
{
}

/// One entry of the host's audio-ports-config menu.
pub struct PortsConfigInfo {
    pub id: u32,
    pub name: String,
    pub input_port_count: u32,
    pub output_port_count: u32,
    /// Main input width, when the layout has one.
    pub main_input: Option<ChannelConfig>,
    pub main_input_channel_count: u32,
    pub main_output: ChannelConfig,
    pub main_output_channel_count: u32,
}

/// The menu entry for layout `index`, `None` past the end.
pub fn audio_ports_config(layouts: &[BusLayout], index: u32) -> (r: Option<PortsConfigInfo>)
    ensures
        (index as int) < layouts@.len() <==> r is Some,
        r matches Some(c) ==> {
            let l = layouts@[index as int];
            &&& c.id == index
            &&& c.name@ == config_name_of(l)
            &&& c.input_port_count == ports_count_of(l, true)
            &&& c.output_port_count == ports_count_of(l, false)
            &&& c.main_input == l.main_in
            &&& c.main_input_channel_count == opt_channels(l.main_in)
            &&& c.main_output == l.main_out
            &&& c.main_output_channel_count == channels_of(l.main_out)
        },
{
    if (index as usize) >= layouts.len() {
        return None;
    }
    let l = layouts[index as usize];
    Some(
        PortsConfigInfo {
            id: index,
            name: l.config_name(),
            input_port_count: audio_ports_count(l, true),
            output_port_count: audio_ports_count(l, false),
            main_input: l.main_in,
            main_input_channel_count: l.main_input_channels(),
            main_output: l.main_out,
            main_output_channel_count: l.main_output_channels(),
        },
    )
}

/// Select layout `config_id` (only while deactivated and in range).
pub fn select_ports_config(active: bool, config_id: u32, layout_count: usize) -> (r: Option<usize>)
    ensures
        r == (if !active && (config_id as int) < layout_count {
            Some(config_id as usize)
        } else {
            None
        }),
{
    if active {
        return None;
    }
    if (config_id as usize) >= layout_count {
        return None;
    }
    Some(config_id as usize)
}

// ---------------------------------------------------------------------------
// Note ports
// ---------------------------------------------------------------------------

pub const CLAP_NOTE_DIALECT_MIDI2: u32 = 1 << 3;

/// `(supported, preferred)` note dialects of a port speaking `dialect`.
/// MIDI 2 and CLAP ports also take MIDI 2; every port takes CLAP and MIDI.
pub open spec fn port_dialects_of(dialect: MidiDialect) -> (u32, u32) {
    match dialect {
        MidiDialect::Clap => (
            CLAP_NOTE_DIALECT_CLAP | CLAP_NOTE_DIALECT_MIDI | CLAP_NOTE_DIALECT_MIDI2,
            CLAP_NOTE_DIALECT_CLAP,
        ),
        MidiDialect::Midi2 => (
            CLAP_NOTE_DIALECT_CLAP | CLAP_NOTE_DIALECT_MIDI | CLAP_NOTE_DIALECT_MIDI2,
            CLAP_NOTE_DIALECT_MIDI2,
        ),
        MidiDialect::Midi1 => (CLAP_NOTE_DIALECT_CLAP | CLAP_NOTE_DIALECT_MIDI, CLAP_NOTE_DIALECT_MIDI),
    }
}

pub fn note_port_dialects(dialect: MidiDialect) -> (r: (u32, u32))
    ensures
        r == port_dialects_of(dialect),
{
    match dialect {
        MidiDialect::Clap => (
            CLAP_NOTE_DIALECT_CLAP | CLAP_NOTE_DIALECT_MIDI | CLAP_NOTE_DIALECT_MIDI2,
            CLAP_NOTE_DIALECT_CLAP,
        ),
        MidiDialect::Midi2 => (
            CLAP_NOTE_DIALECT_CLAP | CLAP_NOTE_DIALECT_MIDI | CLAP_NOTE_DIALECT_MIDI2,
            CLAP_NOTE_DIALECT_MIDI2,
        ),
        MidiDialect::Midi1 => (CLAP_NOTE_DIALECT_CLAP | CLAP_NOTE_DIALECT_MIDI, CLAP_NOTE_DIALECT_MIDI),
    }
}

// ---------------------------------------------------------------------------
// Offered extensions
// ---------------------------------------------------------------------------

/// The plugin-side CLAP extensions the wrapper knows.
#[derive(Clone, Copy, Debug, PartialEq, Eq, Structural)]
pub enum ClapExtension {
    AudioPorts,
    AudioPortsConfig,
    Params,
    RemoteControls,
    Latency,
    Tail,
    Render,
    NotePorts,
    VoiceInfo,
    State,
    PresetLoad,
    Gui,
    Tuning,
    NoteName,
    ParamIndication,
}

/// What decides whether an optional extension is offered.
#[derive(Clone, Copy, Debug)]
pub struct PluginTraits {
    /// Number of declared bus layouts.
    pub layout_count: usize,
    pub accepts_midi_in: bool,
    pub emits_midi: bool,
    pub voice_count: u32,
    pub has_editor: bool,
    pub supports_tuning: bool,
    /// Number of custom note names.
    pub note_name_count: usize,
}

/// Whether the plugin offers `ext`: ports-config only with more than one
/// layout, note ports only with MIDI in or out, voice info only with a
/// voice count, the GUI only with an editor, tuning only when supported,
/// note names only when there are some; the rest always.
pub open spec fn offers(ext: ClapExtension, t: PluginTraits) -> bool {
    match ext {
        ClapExtension::AudioPortsConfig => t.layout_count > 1,
        ClapExtension::NotePorts => t.accepts_midi_in || t.emits_midi,
        ClapExtension::VoiceInfo => t.voice_count > 0,
        ClapExtension::Gui => t.has_editor,
        ClapExtension::Tuning => t.supports_tuning,
        ClapExtension::NoteName => t.note_name_count > 0,
        _ => true,
    }
}

pub fn offers_extension(ext: ClapExtension, traits: &PluginTraits) -> (b: bool)
    ensures
        b == offers(ext, *traits),
{
    match ext {
        ClapExtension::AudioPortsConfig => traits.layout_count > 1,
        ClapExtension::NotePorts => traits.accepts_midi_in || traits.emits_midi,
        ClapExtension::VoiceInfo => traits.voice_count > 0,
        ClapExtension::Gui => traits.has_editor,
        ClapExtension::Tuning => traits.supports_tuning,
        ClapExtension::NoteName => traits.note_name_count > 0,
        _ => true,
    }
}

/// Note ports per direction: one input when the plugin takes MIDI, one
/// output when it emits MIDI.
pub fn note_ports_count(traits: &PluginTraits, is_input: bool) -> (n: u32)
    ensures
        n == (if is_input { traits.accepts_midi_in } else { traits.emits_midi }) as u32,
{
    if is_input {
        if traits.accepts_midi_in { 1 } else { 0 }
    } else {
        if traits.emits_midi { 1 } else { 0 }
    }
}

// ---------------------------------------------------------------------------
// Descriptor feature and render mode
// ---------------------------------------------------------------------------

pub open spec fn feature_of(c: PluginCategory) -> Seq<char> {
    match c {
        PluginCategory::Instrument => "instrument"@,
        PluginCategory::Analyzer => "analyzer"@,
        PluginCategory::NoteEffect => "note-effect"@,
        PluginCategory::Effect => "audio-effect"@,
    }
}

/// The CLAP feature a plugin category is listed under.
pub fn plugin_feature(category: PluginCategory) -> (s: &'static str)
    ensures
        s@ == feature_of(category),
{
    match category {
        PluginCategory::Instrument => "instrument",
        PluginCategory::Analyzer => "analyzer",
        PluginCategory::NoteEffect => "note-effect",
        PluginCategory::Effect => "audio-effect",
    }
}

pub const CLAP_RENDER_REALTIME: i32 = 0;
pub const CLAP_RENDER_OFFLINE: i32 = 1;

/// The process mode a host render mode selects: offline renders are
/// offline, every other mode (realtime, unknown) is realtime.
pub fn process_mode_for_render(mode: i32) -> (m: ProcessMode)
    ensures
        m == if mode == CLAP_RENDER_OFFLINE { ProcessMode::Offline } else { ProcessMode::Realtime },
{
    if mode == CLAP_RENDER_OFFLINE {
        ProcessMode::Offline
    } else {
        ProcessMode::Realtime
    }
}

// ---------------------------------------------------------------------------
// GUI window API
// ---------------------------------------------------------------------------

pub open spec fn window_api_of(os: TargetOs) -> Seq<char> {
    match os {
        TargetOs::Windows => "win32"@,
        TargetOs::MacOs => "cocoa"@,
        TargetOs::Linux => "x11"@,
    }
}

/// The embedding window API of the platform.
pub fn window_api(os: TargetOs) -> (s: &'static str)
    ensures
        s@ == window_api_of(os),
{
    match os {
        TargetOs::Windows => "win32",
        TargetOs::MacOs => "cocoa",
        TargetOs::Linux => "x11",
    }
}

/// Whether the GUI can be created for `api`: only embedded (not floating),
/// only with an editor, and only in the platform's own window API.
pub fn gui_api_supported(os: TargetOs, has_editor: bool, api: &str, is_floating: bool) -> (b: bool)
    ensures
        b == (!is_floating && has_editor && api@ == window_api_of(os)),
{
    if is_floating || !has_editor {
        return false;
    }
    str_equal(api, window_api(os))
}

} // verus!
