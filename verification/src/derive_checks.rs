//! Compile-time checks of a `#[derive(Params)]` field list: explicit
//! parameter ids, the meter id range, MIDI bindings and persist keys. The
//! derive reads the attributes with `syn` and hands the plain values here;
//! the answers decide which compile error (if any) is emitted.

use vstd::prelude::*;
use crate::text::str_equal;

verus! {

/// First id of the meter range. Meters are numbered from here in
/// declaration order; parameter ids must stay below it.
pub const METER_ID_BASE: u32 = 0x0100_0000;

// ---------------------------------------------------------------------------
// Parameter ids
// ---------------------------------------------------------------------------

/// Why a field list's parameter ids are rejected.
#[derive(Clone, Copy, Debug, PartialEq, Eq, Structural)]
pub enum IdError {
    /// Field `field` has no `id = N`.
    Missing { field: usize },
    /// Field `field` declares an id in the meter range.
    InMeterRange { field: usize, id: u32 },
    /// Field `field` reuses the id of an earlier field.
    Duplicate { field: usize, id: u32 },
}

/// `k` is the first field without an id (`ids.len()` if none).
pub open spec fn is_first_missing(ids: Seq<Option<u32>>, k: int) -> bool {
    &&& 0 <= k <= ids.len()
    &&& forall|j: int| 0 <= j < k ==> (#[trigger] ids[j]) is Some
    &&& k < ids.len() ==> ids[k] is None
}

pub open spec fn first_missing(ids: Seq<Option<u32>>) -> int {
    choose|k: int| is_first_missing(ids, k)
}

/// Field `i` has an id in the meter range or one an earlier field has.
pub open spec fn id_clash(ids: Seq<Option<u32>>, i: int) -> bool {
    match ids[i] {
        Some(id) => id >= METER_ID_BASE || exists|j: int| 0 <= j < i && ids[j] == Some(id),
        None => false,
    }
}

/// `k` is the first clashing field (`ids.len()` if none).
pub open spec fn is_first_clash(ids: Seq<Option<u32>>, k: int) -> bool {
    &&& 0 <= k <= ids.len()
    &&& forall|j: int| 0 <= j < k ==> !id_clash(ids, j)
    &&& k < ids.len() ==> id_clash(ids, k)
}

pub open spec fn first_clash(ids: Seq<Option<u32>>) -> int {
    choose|k: int| is_first_clash(ids, k)
}

/// The verdict on a field list's ids: every field needs an id (the first
/// field without one is reported); then, in field order, the first id in
/// the meter range or already used by an earlier field is reported.
pub open spec fn id_check(ids: Seq<Option<u32>>) -> Result<(), IdError> {
    let m = first_missing(ids);
    if m < ids.len() {
        Err(IdError::Missing { field: m as usize })
    } else {
        let c = first_clash(ids);
        if c < ids.len() {
            let id = ids[c]->0;
            if id >= METER_ID_BASE {
                Err(IdError::InMeterRange { field: c as usize, id })
            } else {
                Err(IdError::Duplicate { field: c as usize, id })
            }
        } else {
            Ok(())
        }
    }
}

proof fn lemma_first_missing(ids: Seq<Option<u32>>, k: int)
    requires
        is_first_missing(ids, k),
    ensures
        first_missing(ids) == k,
{
    let c = first_missing(ids);
    assert(is_first_missing(ids, c));
    if c < k {
        assert(ids[c] is Some);
    } else if k < c {
        assert(ids[k] is Some);
    }
}

proof fn lemma_first_clash(ids: Seq<Option<u32>>, k: int)
    requires
        is_first_clash(ids, k),
    ensures
        first_clash(ids) == k,
{
    let c = first_clash(ids);
    assert(is_first_clash(ids, c));
    if c < k {
        assert(!id_clash(ids, c));
    } else if k < c {
        assert(!id_clash(ids, k));
    }
}

proof fn lemma_first_missing_exists(ids: Seq<Option<u32>>)
    ensures
        is_first_missing(ids, first_missing(ids)),
    decreases ids.len(),
{
    if ids.len() == 0 {
        lemma_first_missing(ids, 0);
    } else {
        let t = ids.drop_last();
        lemma_first_missing_exists(t);
        let k = first_missing(t);
        assert forall|j: int| 0 <= j < k implies (#[trigger] ids[j]) is Some by {
            assert(ids[j] == t[j]);
        }
        if k < t.len() {
            assert(ids[k] == t[k]);
            lemma_first_missing(ids, k);
        } else if ids.last() is None {
            lemma_first_missing(ids, t.len() as int);
        } else {
            lemma_first_missing(ids, ids.len() as int);
        }
    }
}

proof fn lemma_first_clash_exists(ids: Seq<Option<u32>>)
    ensures
        is_first_clash(ids, first_clash(ids)),
    decreases ids.len(),
{
    if ids.len() == 0 {
        lemma_first_clash(ids, 0);
    } else {
        let t = ids.drop_last();
        lemma_first_clash_exists(t);
        let k = first_clash(t);
        assert forall|j: int| 0 <= j < t.len() implies id_clash(ids, j) == id_clash(t, j) by {
            assert(ids[j] == t[j]);
            if let Some(id) = ids[j] {
                if exists|q: int| 0 <= q < j && ids[q] == Some(id) {
                    let q = choose|q: int| 0 <= q < j && ids[q] == Some(id);
                    assert(t[q] == ids[q]);
                }
                if exists|q: int| 0 <= q < j && t[q] == Some(id) {
                    let q = choose|q: int| 0 <= q < j && t[q] == Some(id);
                    assert(t[q] == ids[q]);
                }
            }
        }
        if k < t.len() {
            lemma_first_clash(ids, k);
        } else if id_clash(ids, t.len() as int) {
            lemma_first_clash(ids, t.len() as int);
        } else {
            lemma_first_clash(ids, ids.len() as int);
        }
    }
}

/// A field list passes the id check exactly when every field has an id,
/// every id lies below the meter range and no two fields share one.
pub proof fn lemma_id_check_accepts_exactly(ids: Seq<Option<u32>>)
    ensures
        id_check(ids) is Ok <==> (forall|i: int|
            0 <= i < ids.len() ==> (#[trigger] ids[i]) is Some && ids[i]->0 < METER_ID_BASE) && (
        forall|i: int, j: int|
            0 <= i < j < ids.len() ==> (#[trigger] ids[i]) != (#[trigger] ids[j])),
{
    lemma_first_missing_exists(ids);
    lemma_first_clash_exists(ids);
    let m = first_missing(ids);
    let c = first_clash(ids);
    let good = (forall|i: int|
        0 <= i < ids.len() ==> (#[trigger] ids[i]) is Some && ids[i]->0 < METER_ID_BASE) && (
    forall|i: int, j: int| 0 <= i < j < ids.len() ==> (#[trigger] ids[i]) != (#[trigger] ids[j]));
    if id_check(ids) is Ok {
        assert(m == ids.len());
        assert(c == ids.len());
        assert forall|i: int| 0 <= i < ids.len() implies (#[trigger] ids[i]) is Some && ids[i]->0
            < METER_ID_BASE by {
            assert(!id_clash(ids, i));
        }
        assert forall|i: int, j: int| 0 <= i < j < ids.len() implies (#[trigger] ids[i]) != (
        #[trigger] ids[j]) by {
            assert(!id_clash(ids, j));
            assert(ids[j] is Some);
        }
    }
    if good {
        if m < ids.len() {
            assert(ids[m] is Some);
        }
        if c < ids.len() {
            assert(id_clash(ids, c));
            let id = ids[c]->0;
            assert(ids[c] is Some);
            if exists|q: int| 0 <= q < c && ids[q] == Some(id) {
                let q = choose|q: int| 0 <= q < c && ids[q] == Some(id);
                assert(ids[q] != ids[c]);
            }
        }
    }
}

/// Meter ids never collide with the ids of an accepted field list.
pub proof fn lemma_meters_never_collide(ids: Seq<Option<u32>>, count: nat)
    requires
        id_check(ids) is Ok,
    ensures
        forall|i: int, m: int|
            #![trigger ids[i], meter_id(m)]
            0 <= i < ids.len() && 0 <= m < count ==> ids[i]->0 != meter_id(m),
{
    lemma_id_check_accepts_exactly(ids);
    assert forall|i: int, m: int|
        #![trigger ids[i], meter_id(m)]
        0 <= i < ids.len() && 0 <= m < count implies ids[i]->0 != meter_id(m) by {
        assert(ids[i]->0 < METER_ID_BASE);
    }
}

/// Check the explicit ids of a field list (`None`: no `id = N` given).
pub fn check_param_ids(ids: &[Option<u32>]) -> (r: Result<(), IdError>)
    ensures
        r == id_check(ids@),
{
    let n = ids.len();
    let mut i: usize = 0;
    while i < n
        invariant
            0 <= i <= n,
            n == ids@.len(),
            forall|j: int| 0 <= j < i ==> (#[trigger] ids@[j]) is Some,
        decreases n - i,
    {
        if ids[i].is_none() {
            proof {
                lemma_first_missing(ids@, i as int);
            }
            return Err(IdError::Missing { field: i });
        }
        i = i + 1;
    }
    proof {
        lemma_first_missing(ids@, n as int);
    }
    let mut k: usize = 0;
    while k < n
        invariant
            0 <= k <= n,
            n == ids@.len(),
            first_missing(ids@) == n,
            forall|j: int| 0 <= j < n ==> (#[trigger] ids@[j]) is Some,
            forall|j: int| 0 <= j < k ==> !id_clash(ids@, j),
        decreases n - k,
    {
        let id = match ids[k] {
            Some(x) => x,
            None => 0,
        };
        if id >= METER_ID_BASE {
            proof {
                lemma_first_clash(ids@, k as int);
            }
            return Err(IdError::InMeterRange { field: k, id });
        }
        let mut j: usize = 0;
        while j < k
            invariant
                0 <= j <= k,
                k < n,
                n == ids@.len(),
                ids@[k as int] == Some(id),
                id < METER_ID_BASE,
                first_missing(ids@) == n,
                forall|q: int| 0 <= q < k ==> !id_clash(ids@, q),
                forall|q: int| 0 <= q < j ==> ids@[q] != Some(id),
            decreases k - j,
        {
            let same = match ids[j] {
                Some(x) => x == id,
                None => false,
            };
            if same {
                proof {
                    assert(id_clash(ids@, k as int));
                    lemma_first_clash(ids@, k as int);
                }
                return Err(IdError::Duplicate { field: k, id });
            }
            j = j + 1;
        }
        proof {
            assert(!id_clash(ids@, k as int));
        }
        k = k + 1;
    }
    proof {
        lemma_first_clash(ids@, n as int);
    }
    Ok(())
}

/// The id of meter `m` (in declaration order).
pub open spec fn meter_id(m: int) -> int {
    METER_ID_BASE + m
}

/// The ids of `count` meters, in declaration order from [`METER_ID_BASE`].
pub fn meter_ids(count: usize) -> (v: Vec<u32>)
    requires
        METER_ID_BASE + count < u32::MAX,
    ensures
        v@.len() == count,
        forall|i: int| 0 <= i < count ==> v@[i] == meter_id(i),
{
    let mut v: Vec<u32> = Vec::new();
    let mut i: usize = 0;
    while i < count
        invariant
            0 <= i <= count,
            METER_ID_BASE + count < u32::MAX,
            v@.len() == i,
            forall|q: int| 0 <= q < i ==> v@[q] == METER_ID_BASE + q,
        decreases count - i,
    {
        v.push(METER_ID_BASE + i as u32);
        i = i + 1;
    }
    v
}

// ---------------------------------------------------------------------------
// MIDI bindings
// ---------------------------------------------------------------------------

/// The MIDI source a parameter is bound to.
#[derive(Clone, Copy, Debug, PartialEq, Eq, Structural)]
pub enum MidiBindKind {
    Cc(u8),
    PitchBend,
    ChannelPressure,
    ProgramChange,
}

/// A binding: the source and its channel (`None`: any channel, `Some(c)`:
/// zero-based channel `c`).
pub type MidiBinding = (MidiBindKind, Option<u8>);

/// Two bindings map the same source on overlapping channels (an
/// any-channel binding overlaps every channel).
pub open spec fn bindings_conflict(a: MidiBinding, b: MidiBinding) -> bool {
    a.0 == b.0 && (a.1 is None || b.1 is None || a.1 == b.1)
}

/// `(i, j)` is the first conflicting pair, ordered by `i` then `j`.
pub open spec fn is_first_conflict(bound: Seq<MidiBinding>, i: int, j: int) -> bool {
    &&& 0 <= i < j < bound.len()
    &&& bindings_conflict(bound[i], bound[j])
    &&& forall|a: int, b: int|
        #![trigger bound[a], bound[b]]
        0 <= a < b < bound.len() && (a < i || (a == i && b < j)) ==> !bindings_conflict(
            bound[a],
            bound[b],
        )
}

fn conflicts(a: MidiBinding, b: MidiBinding) -> (r: bool)
    ensures
        r == bindings_conflict(a, b),
{
    let overlap = match (a.1, b.1) {
        (Some(x), Some(y)) => x == y,
        _ => true,
    };
    a.0 == b.0 && overlap
}

/// The first pair of MIDI bindings that conflict, if any: the derive
/// rejects the struct, since a host's mapping query would otherwise
/// depend on field order.
pub fn first_midi_conflict(bound: &[MidiBinding]) -> (r: Option<(usize, usize)>)
    ensures
        r matches Some((i, j)) ==> is_first_conflict(bound@, i as int, j as int),
        r is None ==> forall|a: int, b: int|
            #![trigger bound@[a], bound@[b]]
            0 <= a < b < bound@.len() ==> !bindings_conflict(bound@[a], bound@[b]),
{
    let n = bound.len();
    let mut i: usize = 0;
    while i < n
        invariant
            0 <= i <= n,
            n == bound@.len(),
            forall|a: int, b: int|
                #![trigger bound@[a], bound@[b]]
                0 <= a < b < n && a < i ==> !bindings_conflict(bound@[a], bound@[b]),
        decreases n - i,
    {
        let mut j: usize = i + 1;
        while j < n
            invariant
                i < n,
                i + 1 <= j <= n,
                n == bound@.len(),
                forall|a: int, b: int|
                    #![trigger bound@[a], bound@[b]]
                    0 <= a < b < n && a < i ==> !bindings_conflict(bound@[a], bound@[b]),
                forall|b: int| i < b < j ==> !bindings_conflict(bound@[i as int], #[trigger] bound@[b]),
            decreases n - j,
        {
            if conflicts(bound[i], bound[j]) {
                proof {
                    assert forall|a: int, b: int|
                        #![trigger bound@[a], bound@[b]]
                        0 <= a < b < n && (a < i || (a == i && b < j)) implies !bindings_conflict(
                        bound@[a],
                        bound@[b],
                    ) by {
                        if a == i {
                            assert(!bindings_conflict(bound@[i as int], bound@[b]));
                        }
                    }
                }
                return Some((i, j));
            }
            j = j + 1;
        }
        proof {
            assert forall|a: int, b: int|
                #![trigger bound@[a], bound@[b]]
                0 <= a < b < n && a < i + 1 implies !bindings_conflict(bound@[a], bound@[b]) by {
                if a == i {
                    assert(!bindings_conflict(bound@[i as int], bound@[b]));
                }
            }
        }
        i = i + 1;
    }
    None
}

/// The literal of a `midi_*` attribute: an integer (as `u16`, `None` when
/// it does not fit), a string, or anything else.
#[derive(Clone, Debug)]
pub enum MidiLit {
    Int(Option<u16>),
    Str(String),
    Other,
}

/// Why a `midi_*` attribute is rejected.
#[derive(Clone, Copy, Debug, PartialEq, Eq, Structural)]
pub enum MidiAttrError {
    /// `midi_cc` outside `0..=127`.
    CcOutOfRange,
    /// Both `midi_cc` and `midi_source` on one parameter.
    BothSet,
    /// `midi_source` other than `pitchbend`, `pressure`, `program`.
    UnknownSource,
    /// `midi_channel` outside `1..=16`.
    ChannelOutOfRange,
    /// `midi_source` with a non-string literal.
    ExpectsString,
    /// Any other key, or `midi_cc` / `midi_channel` with a non-integer.
    ExpectsInteger,
}

/// What one `midi_*` attribute does to a parameter's binding.
#[derive(Clone, Copy, Debug, PartialEq, Eq, Structural)]
pub enum MidiAttrEffect {
    /// Bind the parameter to this source.
    Bind(MidiBindKind),
    /// Restrict the binding to this zero-based channel.
    Channel(u8),
    Fail(MidiAttrError),
}

pub open spec fn source_of(s: Seq<char>) -> Option<MidiBindKind> {
    if s == "pitchbend"@ {
        Some(MidiBindKind::PitchBend)
    } else if s == "pressure"@ {
        Some(MidiBindKind::ChannelPressure)
    } else if s == "program"@ {
        Some(MidiBindKind::ProgramChange)
    } else {
        None
    }
}

/// The effect of `key = lit` on a parameter that already has a source
/// (`map_set`) or not.
pub open spec fn midi_attr_effect(key: Seq<char>, lit: MidiLit, map_set: bool) -> MidiAttrEffect {
    match lit {
        MidiLit::Int(v) if key == "midi_cc"@ => match v {
            Some(cc) => if cc <= 127 {
                if map_set {
                    MidiAttrEffect::Fail(MidiAttrError::BothSet)
                } else {
                    MidiAttrEffect::Bind(MidiBindKind::Cc(cc as u8))
                }
            } else {
                MidiAttrEffect::Fail(MidiAttrError::CcOutOfRange)
            },
            None => MidiAttrEffect::Fail(MidiAttrError::CcOutOfRange),
        },
        MidiLit::Str(s) if key == "midi_source"@ => if map_set {
            MidiAttrEffect::Fail(MidiAttrError::BothSet)
        } else {
            match source_of(s@) {
                Some(k) => MidiAttrEffect::Bind(k),
                None => MidiAttrEffect::Fail(MidiAttrError::UnknownSource),
            }
        },
        MidiLit::Int(v) if key == "midi_channel"@ => match v {
            Some(ch) => if 1 <= ch <= 16 {
                MidiAttrEffect::Channel((ch - 1) as u8)
            } else {
                MidiAttrEffect::Fail(MidiAttrError::ChannelOutOfRange)
            },
            None => MidiAttrEffect::Fail(MidiAttrError::ChannelOutOfRange),
        },
        _ => if key == "midi_source"@ {
            MidiAttrEffect::Fail(MidiAttrError::ExpectsString)
        } else {
            MidiAttrEffect::Fail(MidiAttrError::ExpectsInteger)
        },
    }
}

/// Decide one `midi_cc` / `midi_source` / `midi_channel` attribute.
pub fn midi_attr(key: &str, lit: &MidiLit, map_set: bool) -> (e: MidiAttrEffect)
    ensures
        e == midi_attr_effect(key@, *lit, map_set),
{
    let is_cc = str_equal(key, "midi_cc");
    let is_source = str_equal(key, "midi_source");
    let is_channel = str_equal(key, "midi_channel");
    match lit {
        MidiLit::Int(v) if is_cc => {
            match v {
                Some(cc) if *cc <= 127 => {
                    if map_set {
                        MidiAttrEffect::Fail(MidiAttrError::BothSet)
                    } else {
                        MidiAttrEffect::Bind(MidiBindKind::Cc(*cc as u8))
                    }
                },
                _ => MidiAttrEffect::Fail(MidiAttrError::CcOutOfRange),
            }
        },
        MidiLit::Str(s) if is_source => {
            if map_set {
                MidiAttrEffect::Fail(MidiAttrError::BothSet)
            } else if str_equal(s.as_str(), "pitchbend") {
                MidiAttrEffect::Bind(MidiBindKind::PitchBend)
            } else if str_equal(s.as_str(), "pressure") {
                MidiAttrEffect::Bind(MidiBindKind::ChannelPressure)
            } else if str_equal(s.as_str(), "program") {
                MidiAttrEffect::Bind(MidiBindKind::ProgramChange)
            } else {
                MidiAttrEffect::Fail(MidiAttrError::UnknownSource)
            }
        },
        MidiLit::Int(v) if is_channel => {
            match v {
                Some(ch) if 1 <= *ch && *ch <= 16 => MidiAttrEffect::Channel((*ch - 1) as u8),
                _ => MidiAttrEffect::Fail(MidiAttrError::ChannelOutOfRange),
            }
        },
        _ => {
            if is_source {
                MidiAttrEffect::Fail(MidiAttrError::ExpectsString)
            } else {
                MidiAttrEffect::Fail(MidiAttrError::ExpectsInteger)
            }
        },
    }
}

// ---------------------------------------------------------------------------
// Persist keys
// ---------------------------------------------------------------------------

/// Key `k` was already used by an earlier entry.
pub open spec fn key_repeats(keys: Seq<Seq<char>>, k: int) -> bool {
    exists|j: int| 0 <= j < k && keys[j] == keys[k]
}

pub open spec fn keys_view(keys: Seq<String>) -> Seq<Seq<char>> {
    keys.map_values(|s: String| s@)
}

/// The first `#[persist]` key / `#[nested]` field name that repeats an
/// earlier one, if any (`#[persist]` keys and nested names share one
/// saved-state list, so a repeat would never load).
pub fn first_repeated_key(keys: &[String]) -> (r: Option<usize>)
    ensures
        r matches Some(k) ==> k < keys@.len() && key_repeats(keys_view(keys@), k as int) && forall|
            q: int,
        | 0 <= q < k ==> !key_repeats(keys_view(keys@), q),
        r is None ==> forall|q: int| 0 <= q < keys@.len() ==> !key_repeats(keys_view(keys@), q),
{
    let ghost kv = keys_view(keys@);
    let n = keys.len();
    let mut k: usize = 0;
    while k < n
        invariant
            0 <= k <= n,
            n == keys@.len(),
            kv == keys_view(keys@),
            forall|q: int| 0 <= q < k ==> !key_repeats(kv, q),
        decreases n - k,
    {
        let mut j: usize = 0;
        while j < k
            invariant
                0 <= j <= k,
                k < n,
                n == keys@.len(),
                kv == keys_view(keys@),
                forall|q: int| 0 <= q < k ==> !key_repeats(kv, q),
                forall|q: int| 0 <= q < j ==> kv[q] != kv[k as int],
            decreases k - j,
        {
            proof {
                assert(kv[j as int] == keys@[j as int]@);
                assert(kv[k as int] == keys@[k as int]@);
            }
            if str_equal(keys[j].as_str(), keys[k].as_str()) {
                proof {
                    assert(key_repeats(kv, k as int));
                }
                return Some(k);
            }
            j = j + 1;
        }
        proof {
            assert(!key_repeats(kv, k as int));
        }
        k = k + 1;
    }
    None
}

// ---------------------------------------------------------------------------
// The derive's verdict
// ---------------------------------------------------------------------------

/// The compile error a `#[derive(Params)]` struct gets, if any.
#[derive(Clone, Copy, Debug, PartialEq, Eq, Structural)]
pub enum DeriveError {
    /// No parameter, nested or meter field.
    NoFields,
    /// The parameter ids are rejected.
    Ids(IdError),
    /// Bindings `first` and `second` map one MIDI source on overlapping
    /// channels.
    MidiConflict { first: usize, second: usize },
    /// Persist / nested key `index` repeats an earlier one.
    RepeatedKey { index: usize },
}

/// The checks of the derive, in its order: some field at all, then the
/// parameter ids (field order), then the MIDI bindings of the parameters
/// that have one (field order), then the persist keys followed by the
/// nested field names. The first failing check decides.
pub fn derive_verdict(
    has_fields: bool,
    ids: &[Option<u32>],
    bound: &[MidiBinding],
    keys: &[String],
) -> (r: Result<(), DeriveError>)
    ensures
        !has_fields ==> r == Err::<(), DeriveError>(DeriveError::NoFields),
        has_fields ==> (id_check(ids@) matches Err(e) ==> r == Err::<(), DeriveError>(
            DeriveError::Ids(e),
        )),
        has_fields && id_check(ids@) is Ok ==> {
            let no_conflict = forall|a: int, b: int|
                #![trigger bound@[a], bound@[b]]
                0 <= a < b < bound@.len() ==> !bindings_conflict(bound@[a], bound@[b]);
            let no_repeat = forall|q: int| 0 <= q < keys@.len() ==> !key_repeats(keys_view(keys@), q);
            &&& (!no_conflict <==> (r matches Err(DeriveError::MidiConflict { .. })))
            &&& (r matches Err(DeriveError::MidiConflict { first, second }) ==> is_first_conflict(
                bound@,
                first as int,
                second as int,
            ))
            &&& (r matches Err(DeriveError::RepeatedKey { index }) ==> no_conflict && index
                < keys@.len() && key_repeats(keys_view(keys@), index as int) && forall|q: int|
                0 <= q < index ==> !key_repeats(keys_view(keys@), q))
            &&& (r is Ok <==> (no_conflict && no_repeat))
            &&& !(r matches Err(DeriveError::NoFields))
            &&& !(r matches Err(DeriveError::Ids(_)))
        },
{
    if !has_fields {
        return Err(DeriveError::NoFields);
    }
    match check_param_ids(ids) {
        Err(e) => {
            return Err(DeriveError::Ids(e));
        },
        Ok(()) => {},
    }
    match first_midi_conflict(bound) {
        Some((i, j)) => {
            return Err(DeriveError::MidiConflict { first: i, second: j });
        },
        None => {},
    }
    match first_repeated_key(keys) {
        Some(k) => Err(DeriveError::RepeatedKey { index: k }),
        None => Ok(()),
    }
}

} // verus!
