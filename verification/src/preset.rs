//! Factory presets and preset files: the same v1 parameter blob as the
//! plugin state. Restoring the values into the parameter store, and
//! reading a file from disk, are the caller's part.

use vstd::prelude::*;
use crate::state::{decode_blob, decode_state};
use crate::text::str_equal;

verus! {

/// How a factory preset stores its parameter values.
pub enum FactoryPresetState {
    /// `(param id, plain value bits)` pairs, restored as given.
    Values(&'static [(u32, u64)]),
    /// A raw v1 state blob.
    Blob(&'static [u8]),
}

/// One bundled factory preset for the host browser.
pub struct FactoryPreset {
    /// Machine key the host passes back when loading (`load_key`).
    pub key: &'static str,
    /// Display name in the host's preset browser.
    pub name: &'static str,
    pub state: FactoryPresetState,
}

/// The values a factory preset restores: its pairs, or what its blob
/// decodes to (`None`: the blob is malformed and nothing is restored).
pub open spec fn preset_values_of(state: FactoryPresetState) -> Option<Seq<(u32, u64)>> {
    match state {
        FactoryPresetState::Values(pairs) => Some(pairs@),
        FactoryPresetState::Blob(blob) => decode_blob(blob@),
    }
}

/// The `(id, value bits)` pairs applying `preset` restores.
pub fn factory_preset_values(preset: &FactoryPreset) -> (r: Option<Vec<(u32, u64)>>)
    ensures
        r matches Some(v) ==> preset_values_of(preset.state) == Some(v@),
        r is None ==> preset_values_of(preset.state) is None,
{
    match preset.state {
        FactoryPresetState::Values(pairs) => {
            let mut v: Vec<(u32, u64)> = Vec::new();
            let mut i: usize = 0;
            while i < pairs.len()
                invariant
                    0 <= i <= pairs@.len(),
                    v@ == pairs@.take(i as int),
                decreases pairs@.len() - i,
            {
                v.push(pairs[i]);
                proof {
                    assert(pairs@.take(i + 1) == pairs@.take(i as int).push(pairs@[i as int]));
                }
                i = i + 1;
            }
            proof {
                assert(pairs@.take(pairs@.len() as int) == pairs@);
            }
            Some(v)
        },
        FactoryPresetState::Blob(blob) => decode_state(blob),
    }
}

/// `k` is the first preset with this key (`presets.len()` if none).
pub open spec fn is_first_key(keys: Seq<Seq<char>>, key: Seq<char>, k: int) -> bool {
    &&& 0 <= k <= keys.len()
    &&& forall|j: int| 0 <= j < k ==> #[trigger] keys[j] != key
    &&& k < keys.len() ==> keys[k] == key
}

pub open spec fn preset_keys(presets: Seq<FactoryPreset>) -> Seq<Seq<char>> {
    presets.map_values(|p: FactoryPreset| p.key@)
}

/// The first factory preset whose key is `key`, if any.
pub fn find_factory_preset(presets: &[FactoryPreset], key: &str) -> (r: Option<usize>)
    ensures
        r matches Some(k) ==> k < presets@.len() && is_first_key(preset_keys(presets@), key@, k as int),
        r is None ==> is_first_key(preset_keys(presets@), key@, presets@.len() as int),
{
    let ghost keys = preset_keys(presets@);
    let n = presets.len();
    let mut i: usize = 0;
    while i < n
        invariant
            0 <= i <= n,
            n == presets@.len(),
            keys == preset_keys(presets@),
            forall|j: int| 0 <= j < i ==> #[trigger] keys[j] != key@,
        decreases n - i,
    {
        proof {
            assert(keys[i as int] == presets@[i as int].key@);
        }
        if str_equal(presets[i].key, key) {
            return Some(i);
        }
        i = i + 1;
    }
    None
}

/// The values a preset file restores; a file that is not a valid state
/// blob is refused with a message.
pub fn preset_file_values(bytes: &[u8]) -> (r: Result<Vec<(u32, u64)>, String>)
    ensures
        r matches Ok(v) ==> decode_blob(bytes@) == Some(v@),
        r matches Err(m) ==> decode_blob(bytes@) is None && m@ == "not a valid AURA state blob"@,
{
    match decode_state(bytes) {
        Some(v) => Ok(v),
        None => Err(String::from_str("not a valid AURA state blob")),
    }
}

} // verus!
