//! Shared plugin state blob — host-agnostic, so every format wrapper speaks
//! the same byte layout and a session saved via one format restores
//! identically in another.
//!
//! v1 blob: `u32 LE` param count, then per param `u32 LE` id + `u64 LE`
//! value bits (the `f64` plain value's IEEE-754 bits). Unknown ids are the
//! param store's concern; a truncated blob is rejected wholesale.

use vstd::prelude::*;
use vstd::bytes::{
    spec_u32_from_le_bytes, spec_u32_to_le_bytes, spec_u64_from_le_bytes, spec_u64_to_le_bytes,
    u32_from_le_bytes, u32_to_le_bytes, u64_from_le_bytes, u64_to_le_bytes,
    lemma_auto_spec_u32_to_from_le_bytes, lemma_auto_spec_u64_to_from_le_bytes,
};

verus! {

/// Bytes of one `(id, value bits)` entry.
pub open spec fn entry_bytes(e: (u32, u64)) -> Seq<u8> {
    spec_u32_to_le_bytes(e.0) + spec_u64_to_le_bytes(e.1)
}

/// Bytes of all entries, in order.
pub open spec fn entries_bytes(es: Seq<(u32, u64)>) -> Seq<u8>
    decreases es.len(),
{
    if es.len() == 0 {
        Seq::empty()
    } else {
        entries_bytes(es.drop_last()) + entry_bytes(es.last())
    }
}

/// The `(id, value)` pairs a param store reports, paired up to the shorter list.
pub open spec fn pair_up(ids: Seq<u32>, values: Seq<u64>) -> Seq<(u32, u64)> {
    let n = if ids.len() <= values.len() { ids.len() } else { values.len() };
    Seq::new(n, |i: int| (ids[i], values[i]))
}

/// The v1 blob for these ids and values: the id count, then the entries.
pub open spec fn state_blob(ids: Seq<u32>, values: Seq<u64>) -> Seq<u8> {
    spec_u32_to_le_bytes(ids.len() as u32) + entries_bytes(pair_up(ids, values))
}

/// Entry `i` of a blob whose entries start at byte 4.
pub open spec fn entry_at(b: Seq<u8>, i: int) -> (u32, u64) {
    (
        spec_u32_from_le_bytes(b.subrange(4 + 12 * i, 8 + 12 * i)),
        spec_u64_from_le_bytes(b.subrange(8 + 12 * i, 16 + 12 * i)),
    )
}

/// What a blob decodes to: `None` when it is shorter than its count says.
/// Bytes after the last entry are ignored.
pub open spec fn decode_blob(b: Seq<u8>) -> Option<Seq<(u32, u64)>> {
    if b.len() < 4 {
        None
    } else {
        let count = spec_u32_from_le_bytes(b.subrange(0, 4));
        if b.len() < 4 + 12 * count {
            None
        } else {
            Some(Seq::new(count as nat, |i: int| entry_at(b, i)))
        }
    }
}

/// Serialize param values into the flat v1 blob. `ids` and `values` are the
/// store's ids and value bits, index by index (one value per id). With at
/// most `u32::MAX` entries the blob decodes back to exactly these pairs.
pub fn encode_state(ids: &[u32], values: &[u64]) -> (blob: Vec<u8>)
    requires
        ids@.len() == values@.len(),
    ensures
        blob@ == state_blob(ids@, values@),
        ids@.len() <= u32::MAX ==> decode_blob(blob@) == Some(pair_up(ids@, values@)),
{
    let mut blob: Vec<u8> = Vec::new();
    let mut head = u32_to_le_bytes(ids.len() as u32);
    blob.append(&mut head);
    let n = if ids.len() <= values.len() {
        ids.len()
    } else {
        values.len()
    };
    let ghost pairs = pair_up(ids@, values@);
    let mut i: usize = 0;
    while i < n
        invariant
            0 <= i <= n,
            n == pairs.len(),
            pairs == pair_up(ids@, values@),
            n <= ids@.len(),
            n <= values@.len(),
            blob@ == spec_u32_to_le_bytes(ids@.len() as u32) + entries_bytes(pairs.take(i as int)),
        decreases n - i,
    {
        let mut id_bytes = u32_to_le_bytes(ids[i]);
        let mut value_bytes = u64_to_le_bytes(values[i]);
        proof {
            assert(pairs.take(i + 1).drop_last() == pairs.take(i as int));
            assert(pairs.take(i + 1).last() == (ids@[i as int], values@[i as int]));
        }
        blob.append(&mut id_bytes);
        blob.append(&mut value_bytes);
        i = i + 1;
    }
    proof {
        assert(pairs.take(n as int) == pairs);
        if ids@.len() <= u32::MAX {
            lemma_state_round_trip(ids@, values@);
        }
    }
    blob
}

/// Parse a v1 blob into `(id, value bits)` pairs. `None` (nothing to
/// restore) when the blob is truncated or malformed.
pub fn decode_state(blob: &[u8]) -> (r: Option<Vec<(u32, u64)>>)
    ensures
        r matches Some(v) ==> decode_blob(blob@) == Some(v@),
        r is None ==> decode_blob(blob@) is None,
{
    let len = blob.len();
    if len < 4 {
        return None;
    }
    let count = u32_from_le_bytes(&blob[0..4]);
    if (len as u128) < 4 + 12 * (count as u128) {
        return None;
    }
    let mut values: Vec<(u32, u64)> = Vec::new();
    let mut i: u32 = 0;
    while i < count
        invariant
            0 <= i <= count,
            len == blob@.len(),
            count == spec_u32_from_le_bytes(blob@.subrange(0, 4)),
            4 + 12 * count <= len,
            values@ == Seq::new(i as nat, |k: int| entry_at(blob@, k)),
        decreases count - i,
    {
        let at = 4 + 12 * (i as usize);
        let id = u32_from_le_bytes(&blob[at..at + 4]);
        let bits = u64_from_le_bytes(&blob[at + 4..at + 12]);
        values.push((id, bits));
        proof {
            assert(values@ =~= Seq::new((i + 1) as nat, |k: int| entry_at(blob@, k)));
        }
        i = i + 1;
    }
    Some(values)
}

proof fn lemma_entries_bytes(es: Seq<(u32, u64)>)
    ensures
        entries_bytes(es).len() == 12 * es.len(),
        forall|i: int|
            0 <= i < es.len() ==> #[trigger] entries_bytes(es).subrange(12 * i, 12 * i + 12)
                == entry_bytes(es[i]),
    decreases es.len(),
{
    lemma_auto_spec_u32_to_from_le_bytes();
    lemma_auto_spec_u64_to_from_le_bytes();
    if es.len() > 0 {
        let t = es.drop_last();
        lemma_entries_bytes(t);
        let b = entries_bytes(es);
        assert(b == entries_bytes(t) + entry_bytes(es.last()));
        assert forall|i: int| 0 <= i < es.len() implies #[trigger] b.subrange(12 * i, 12 * i + 12)
            == entry_bytes(es[i]) by {
            if i < t.len() {
                assert(b.subrange(12 * i, 12 * i + 12) =~= entries_bytes(t).subrange(
                    12 * i,
                    12 * i + 12,
                ));
                assert(es[i] == t[i]);
            } else {
                assert(b.subrange(12 * i, 12 * i + 12) =~= entry_bytes(es.last()));
            }
        }
    }
}

/// Round trip: the blob written for a store's values decodes to exactly
/// those `(id, value)` pairs, in order.
pub proof fn lemma_state_round_trip(ids: Seq<u32>, values: Seq<u64>)
    requires
        ids.len() == values.len(),
        ids.len() <= u32::MAX,
    ensures
        decode_blob(state_blob(ids, values)) == Some(pair_up(ids, values)),
{
    lemma_auto_spec_u32_to_from_le_bytes();
    lemma_auto_spec_u64_to_from_le_bytes();
    let es = pair_up(ids, values);
    let b = state_blob(ids, values);
    lemma_entries_bytes(es);
    let head = spec_u32_to_le_bytes(ids.len() as u32);
    assert(b.subrange(0, 4) =~= head);
    assert(spec_u32_from_le_bytes(b.subrange(0, 4)) == ids.len());
    let d = Seq::new(ids.len() as nat, |i: int| entry_at(b, i));
    assert forall|i: int| 0 <= i < es.len() implies d[i] == es[i] by {
        let eb = entries_bytes(es).subrange(12 * i, 12 * i + 12);
        assert(eb == entry_bytes(es[i]));
        assert(b.subrange(4 + 12 * i, 8 + 12 * i) =~= eb.subrange(0, 4));
        assert(b.subrange(8 + 12 * i, 16 + 12 * i) =~= eb.subrange(4, 12));
        assert(eb.subrange(0, 4) =~= spec_u32_to_le_bytes(es[i].0));
        assert(eb.subrange(4, 12) =~= spec_u64_to_le_bytes(es[i].1));
    }
    assert(d =~= es);
}

} // verus!
