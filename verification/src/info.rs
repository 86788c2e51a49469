//! Static plugin metadata (CLAP / VST3 / LV2 focused).

use vstd::prelude::*;

verus! {

/// Wire dialect a MIDI port speaks.
#[derive(Clone, Copy, Debug, Eq, PartialEq, Structural)]
pub enum MidiDialect {
    Midi1,
    /// Advertise MIDI 2 on the note port.
    Midi2,
    /// Prefer native CLAP notes (note events, expressions, per-note mods).
    Clap,
}

impl Default for MidiDialect {
    fn default() -> (d: Self)
        ensures
            d == MidiDialect::Midi1,
    {
        MidiDialect::Midi1
    }
}

/// Broad plugin category for host browsers.
#[derive(Clone, Copy, Debug, Eq, PartialEq, Structural)]
pub enum PluginCategory {
    Effect,
    Instrument,
    Analyzer,
    NoteEffect,
}

impl Default for PluginCategory {
    fn default() -> (c: Self)
        ensures
            c == PluginCategory::Effect,
    {
        PluginCategory::Effect
    }
}

/// Static metadata about a plugin.
#[derive(Clone, Debug)]
pub struct PluginInfo {
    pub name: &'static str,
    pub vendor: &'static str,
    pub url: &'static str,
    pub version: &'static str,
    pub category: PluginCategory,
    /// Short id (bundle id / clap-friendly slug).
    pub bundle_id: &'static str,
    pub clap_id: &'static str,
    pub vst3_id: &'static str,
    /// LV2 plugin URI. Empty → derived from `bundle_id`.
    pub lv2_uri: &'static str,
    pub accepts_midi_in: bool,
    pub emits_midi: bool,
    pub midi_input_dialect: MidiDialect,
    pub midi_output_dialect: MidiDialect,
    /// Voices the patch may use. `0` = do not advertise voice info.
    pub voice_count: u32,
    /// Allocated voice pool (`voice_count <= voice_capacity`). `0` → same as count.
    pub voice_capacity: u32,
    /// Advertise CLAP dynamic tuning support.
    pub supports_tuning: bool,
}

impl PluginInfo {
    /// Minimal constructor — fill format ids later via struct update.
    pub fn new(name: &'static str, vendor: &'static str, version: &'static str, bundle_id: &'static str) -> (i: Self)
        ensures
            i.name == name,
            i.vendor == vendor,
            i.version == version,
            i.bundle_id == bundle_id,
            i.clap_id == bundle_id,
            i.url@ == ""@,
            i.vst3_id@ == ""@,
            i.lv2_uri@ == ""@,
            i.category == PluginCategory::Effect,
            !i.accepts_midi_in,
            !i.emits_midi,
            i.midi_input_dialect == MidiDialect::Midi1,
            i.midi_output_dialect == MidiDialect::Midi1,
            i.voice_count == 0,
            i.voice_capacity == 0,
            !i.supports_tuning,
    {
        PluginInfo {
            name,
            vendor,
            url: "",
            version,
            category: PluginCategory::Effect,
            bundle_id,
            clap_id: bundle_id,
            vst3_id: "",
            lv2_uri: "",
            accepts_midi_in: false,
            emits_midi: false,
            midi_input_dialect: MidiDialect::Midi1,
            midi_output_dialect: MidiDialect::Midi1,
            voice_count: 0,
            voice_capacity: 0,
            supports_tuning: false,
        }
    }
}

/// Voice info a host is told: `None` when `voice_count` is `0` (nothing
/// advertised), else `(count, capacity)` with capacity at least the count.
pub open spec fn voice_info_of(voice_count: u32, voice_capacity: u32) -> Option<(u32, u32)> {
    if voice_count == 0 {
        None
    } else {
        let cap = if voice_capacity >= voice_count { voice_capacity } else { voice_count };
        Some((if voice_count <= cap { voice_count } else { cap }, cap))
    }
}

/// The `(voice_count, voice_capacity)` advertised for this metadata.
pub fn voice_info(info: &PluginInfo) -> (r: Option<(u32, u32)>)
    ensures
        r == voice_info_of(info.voice_count, info.voice_capacity),
{
    if info.voice_count == 0 {
        return None;
    }
    let cap = if info.voice_capacity >= info.voice_count {
        info.voice_capacity
    } else {
        info.voice_count
    };
    let count = if info.voice_count <= cap {
        info.voice_count
    } else {
        cap
    };
    Some((count, cap))
}

/// One entry in a plugin's custom note-name table. `-1` in `port`,
/// `channel` or `key` matches any value.
pub struct NoteNameEntry {
    pub port: i16,
    pub channel: i16,
    pub key: i16,
    pub name: &'static str,
}

} // verus!
