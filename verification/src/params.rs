//! The parameter metadata the framework logic reads: id, group, flags and
//! whether the range is stepped. (The full parameter store, with names,
//! ranges and smoothing, belongs to the plugin's param crate.)

use vstd::prelude::*;

verus! {

/// Parameter flag bits.
#[derive(Clone, Copy, Debug, PartialEq, Eq, Structural)]
pub struct ParamFlags {
    pub bits: u32,
}

/// Host may automate the parameter.
pub const AUTOMATABLE: u32 = 1;
/// Not shown to the user.
pub const HIDDEN: u32 = 2;
/// Shown but not editable.
pub const READONLY: u32 = 4;
/// The plugin's bypass switch.
pub const IS_BYPASS: u32 = 8;
/// Mono (per-block) modulation.
pub const MODULATABLE: u32 = 16;
/// Per-note modulation.
pub const MODULATABLE_PER_NOTE: u32 = 32;
/// Automation splits the block sample-accurately.
pub const CHUNKED: u32 = 64;

impl ParamFlags {
    pub fn empty() -> (f: Self)
        ensures
            f.bits == 0,
    {
        ParamFlags { bits: 0 }
    }

    pub fn from_bits(bits: u32) -> (f: Self)
        ensures
            f.bits == bits,
    {
        ParamFlags { bits }
    }

    /// Every bit of `mask` is set.
    pub fn contains(self, mask: u32) -> (b: bool)
        ensures
            b == (self.bits & mask == mask),
    {
        self.bits & mask == mask
    }

    /// Some bit of `mask` is set.
    pub fn intersects(self, mask: u32) -> (b: bool)
        ensures
            b == (self.bits & mask != 0),
    {
        self.bits & mask != 0
    }
}

/// Metadata of one parameter, as far as the framework logic reads it.
#[derive(Clone, Debug)]
pub struct ParamInfo {
    pub id: u32,
    /// Remote-control page group (`""`, `"Section"` or `"Section/Page"`).
    pub group: String,
    pub flags: ParamFlags,
    /// Discrete or enum range (the host shows it stepped).
    pub stepped: bool,
}

} // verus!
