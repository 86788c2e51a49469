use aura::bus::{BusLayout, ChannelConfig};
use aura::clap_support::{
    accept_note_event, audio_port_info, audio_ports_config, audio_ports_count, map_param_flags,
    pick_note_dialect, port_type_name, remote_control_pages, remote_controls_page_id,
    select_ports_config, split_group, Dialect, LatencyCache, CLAP_NOTE_DIALECT_CLAP,
    CLAP_NOTE_DIALECT_MIDI, CLAP_PARAM_IS_AUTOMATABLE, CLAP_PARAM_IS_BYPASS,
    CLAP_PARAM_IS_HIDDEN, CLAP_PARAM_IS_MODULATABLE, CLAP_PARAM_IS_MODULATABLE_PER_NOTE_ID,
    CLAP_PARAM_IS_READONLY, CLAP_PARAM_IS_STEPPED, MAX_NOTE_EVENTS,
};
use aura::params::{ParamFlags, ParamInfo, AUTOMATABLE, HIDDEN, IS_BYPASS, MODULATABLE,
    MODULATABLE_PER_NOTE, READONLY};

fn info(id: u32, group: &str) -> ParamInfo {
    ParamInfo {
        id,
        group: group.to_string(),
        flags: ParamFlags::empty(),
        stepped: false,
    }
}

fn pages_as_strs(pages: &[(String, Vec<u32>)]) -> Vec<(&str, Vec<u32>)> {
    pages.iter().map(|(g, ids)| (g.as_str(), ids.clone())).collect()
}

#[test]
fn section_page_split_on_first_slash() {
    assert_eq!(split_group("EQ/Lo Shelf"), ("EQ", "Lo Shelf"));
    assert_eq!(split_group("EQ/Lo Shelf/Extra"), ("EQ", "Lo Shelf/Extra"));
    assert_eq!(split_group("Compressor"), ("Compressor", "Compressor"));
}

#[test]
fn split_group_edge_slashes() {
    assert_eq!(split_group("/Page"), ("", "Page"));
    assert_eq!(split_group("Section/"), ("Section", ""));
    assert_eq!(split_group(""), ("", ""));
}

#[test]
fn cache_detects_change_and_stability() {
    let mut cache = LatencyCache::new(0);
    assert!(cache.swap(512));
    assert!(!cache.swap(512));
    assert!(cache.swap(1024));
    assert_eq!(cache.load(), 1024);
}

#[test]
fn expression_flood_is_capped_note_on_is_not() {
    assert!(accept_note_event(MAX_NOTE_EVENTS - 1, false));
    assert!(!accept_note_event(MAX_NOTE_EVENTS, false));
    assert!(accept_note_event(MAX_NOTE_EVENTS, true));
    assert!(accept_note_event(MAX_NOTE_EVENTS + 50, true));
}

#[test]
fn ungrouped_params_produce_no_page() {
    let infos = [info(0, ""), info(1, "")];
    assert!(remote_control_pages(&infos).is_empty());
}

#[test]
fn hidden_and_readonly_grouped_params_take_no_slot() {
    let mut hidden = info(0, "EQ");
    hidden.flags = ParamFlags::from_bits(HIDDEN);
    let visible = info(1, "EQ");
    let mut readonly = info(2, "EQ");
    readonly.flags = ParamFlags::from_bits(READONLY);
    let infos = [hidden, visible, readonly];
    let pages = remote_control_pages(&infos);
    assert_eq!(pages_as_strs(&pages), vec![("EQ", vec![1])]);
}

#[test]
fn group_over_eight_params_splits_into_two_pages() {
    let infos: Vec<ParamInfo> = (0..10).map(|id| info(id, "EQ")).collect();
    let pages = remote_control_pages(&infos);
    assert_eq!(pages.len(), 2);
    assert_eq!(pages[0].1.len(), 8);
    assert_eq!(pages[1].1, vec![8, 9]);
}

#[test]
fn distinct_groups_get_distinct_pages() {
    let mut infos: Vec<ParamInfo> = (0..3).map(|id| info(id, "EQ")).collect();
    infos.extend((3..5).map(|id| info(id, "DYN")));
    let pages = remote_control_pages(&infos);
    assert_eq!(
        pages_as_strs(&pages),
        vec![("EQ", vec![0, 1, 2]), ("DYN", vec![3, 4])]
    );
}

#[test]
fn interleaved_groups_fill_their_own_pages() {
    let infos = [info(0, "A"), info(1, "B"), info(2, "A"), info(3, "B")];
    let pages = remote_control_pages(&infos);
    assert_eq!(
        pages_as_strs(&pages),
        vec![("A", vec![0, 2]), ("B", vec![1, 3])]
    );
}

#[test]
fn page_id_stable_and_distinct() {
    assert_eq!(
        remote_controls_page_id("EQ", 0),
        remote_controls_page_id("EQ", 0)
    );
    assert_ne!(
        remote_controls_page_id("EQ", 0),
        remote_controls_page_id("EQ", 1)
    );
    assert_ne!(
        remote_controls_page_id("EQ", 0),
        remote_controls_page_id("DYN", 0)
    );
}

#[test]
fn page_id_is_fnv1a_of_group_then_index_bytes() {
    let mut h: u32 = 0x811c_9dc5;
    for b in "EQ".bytes().chain(3u64.to_le_bytes()) {
        h ^= u32::from(b);
        h = h.wrapping_mul(0x0100_0193);
    }
    assert_eq!(remote_controls_page_id("EQ", 3), h);
}

#[test]
fn param_flags_map_to_clap_bits() {
    assert_eq!(map_param_flags(ParamFlags::empty(), false), 0);
    assert_eq!(map_param_flags(ParamFlags::empty(), true), CLAP_PARAM_IS_STEPPED);
    assert_eq!(
        map_param_flags(ParamFlags::from_bits(AUTOMATABLE), false),
        CLAP_PARAM_IS_AUTOMATABLE
    );
    assert_eq!(
        map_param_flags(ParamFlags::from_bits(HIDDEN | READONLY), false),
        CLAP_PARAM_IS_HIDDEN | CLAP_PARAM_IS_READONLY
    );
    assert_eq!(
        map_param_flags(ParamFlags::from_bits(IS_BYPASS), true),
        CLAP_PARAM_IS_BYPASS | CLAP_PARAM_IS_STEPPED
    );
    let m = map_param_flags(ParamFlags::from_bits(MODULATABLE | MODULATABLE_PER_NOTE), false);
    assert_eq!(m & CLAP_PARAM_IS_MODULATABLE, CLAP_PARAM_IS_MODULATABLE);
    assert_eq!(
        m & CLAP_PARAM_IS_MODULATABLE_PER_NOTE_ID,
        CLAP_PARAM_IS_MODULATABLE_PER_NOTE_ID
    );
}

#[test]
fn port_type_names() {
    assert_eq!(port_type_name(ChannelConfig::Mono), "mono");
    assert_eq!(port_type_name(ChannelConfig::Stereo), "stereo");
}

#[test]
fn note_dialect_prefers_preferred_then_supported() {
    assert_eq!(pick_note_dialect(CLAP_NOTE_DIALECT_CLAP, CLAP_NOTE_DIALECT_MIDI), Dialect::Clap);
    assert_eq!(
        pick_note_dialect(CLAP_NOTE_DIALECT_MIDI | CLAP_NOTE_DIALECT_CLAP, 0),
        Dialect::Midi
    );
    assert_eq!(pick_note_dialect(0, CLAP_NOTE_DIALECT_CLAP), Dialect::Clap);
    assert_eq!(pick_note_dialect(0, 0), Dialect::NoNotes);
}

#[test]
fn audio_ports_of_stereo_with_sidechain() {
    let l = BusLayout::stereo().with_sidechain(ChannelConfig::Stereo);
    assert_eq!(audio_ports_count(l, true), 2);
    assert_eq!(audio_ports_count(l, false), 1);
    let main = audio_port_info(l, 0, true).unwrap();
    assert_eq!((main.id, main.name, main.is_main, main.channels), (0, "Input", true, ChannelConfig::Stereo));
    let sc = audio_port_info(l, 1, true).unwrap();
    assert_eq!((sc.id, sc.name, sc.is_main, sc.channels), (1, "Sidechain", false, ChannelConfig::Stereo));
    assert!(audio_port_info(l, 2, true).is_none());
    let out = audio_port_info(l, 0, false).unwrap();
    assert_eq!((out.id, out.name, out.is_main), (0, "Output", true));
    assert!(audio_port_info(l, 1, false).is_none());
}

#[test]
fn audio_ports_of_stereo_with_sidechain_and_aux() {
    let l = BusLayout::stereo()
        .with_sidechain(ChannelConfig::Stereo)
        .with_aux(ChannelConfig::Stereo);
    assert_eq!(audio_ports_count(l, true), l.input_port_count());
    assert_eq!(audio_ports_count(l, false), l.output_port_count());
    assert_eq!(audio_ports_count(l, true), 2);
    assert_eq!(audio_ports_count(l, false), 2);
    let aux = audio_port_info(l, 1, false).unwrap();
    assert_eq!((aux.id, aux.name, aux.is_main, aux.channels), (1, "Aux Output", false, ChannelConfig::Stereo));
    assert!(audio_port_info(l, 2, false).is_none());
}

#[test]
fn audio_ports_of_instrument() {
    let l = BusLayout::output_only(ChannelConfig::Stereo);
    assert_eq!(audio_ports_count(l, true), 0);
    assert!(audio_port_info(l, 0, true).is_none());
}

#[test]
fn ports_config_menu_entries() {
    let layouts = BusLayout::stereo_and_mono();
    let c = audio_ports_config(&layouts, 1).unwrap();
    assert_eq!(c.id, 1);
    assert_eq!(c.name, "Mono");
    assert_eq!(c.input_port_count, 1);
    assert_eq!(c.output_port_count, 1);
    assert_eq!(c.main_input, Some(ChannelConfig::Mono));
    assert_eq!(c.main_input_channel_count, 1);
    assert_eq!(c.main_output, ChannelConfig::Mono);
    assert_eq!(c.main_output_channel_count, 1);
    assert!(audio_ports_config(&layouts, 2).is_none());
    let aux = [BusLayout::stereo().with_aux(ChannelConfig::Stereo)];
    let c = audio_ports_config(&aux, 0).unwrap();
    assert_eq!(c.output_port_count, 2);
}

#[test]
fn ports_config_select_only_inactive_in_range() {
    assert_eq!(select_ports_config(false, 1, 2), Some(1));
    assert_eq!(select_ports_config(true, 1, 2), None);
    assert_eq!(select_ports_config(false, 2, 2), None);
}

use aura::clap_support::{
    note_port_dialects, note_ports_count, offers_extension, remote_controls_page, ClapExtension,
    PluginTraits, CLAP_INVALID_ID, CLAP_NOTE_DIALECT_MIDI2,
};
use aura::info::MidiDialect;

#[test]
fn remote_page_slots_names_and_ids() {
    let mut infos: Vec<ParamInfo> = (0..10).map(|id| info(id, "EQ/Bands")).collect();
    infos.push(info(20, "Comp"));
    let p0 = remote_controls_page(&infos, 0).unwrap();
    let p1 = remote_controls_page(&infos, 1).unwrap();
    let p2 = remote_controls_page(&infos, 2).unwrap();
    assert!(remote_controls_page(&infos, 3).is_none());
    assert_eq!((p0.section_name.as_str(), p0.page_name.as_str()), ("EQ", "Bands"));
    assert_eq!(p0.param_ids, vec![0, 1, 2, 3, 4, 5, 6, 7]);
    assert_eq!(
        p1.param_ids,
        vec![8, 9, CLAP_INVALID_ID, CLAP_INVALID_ID, CLAP_INVALID_ID, CLAP_INVALID_ID, CLAP_INVALID_ID, CLAP_INVALID_ID]
    );
    assert_eq!(p0.page_id, remote_controls_page_id("EQ/Bands", 0));
    assert_eq!(p1.page_id, remote_controls_page_id("EQ/Bands", 1));
    assert_eq!(p2.page_id, remote_controls_page_id("Comp", 0));
    assert_eq!((p2.section_name.as_str(), p2.page_name.as_str()), ("Comp", "Comp"));
}

#[test]
fn note_port_dialect_sets() {
    assert_eq!(
        note_port_dialects(MidiDialect::Midi1),
        (CLAP_NOTE_DIALECT_CLAP | CLAP_NOTE_DIALECT_MIDI, CLAP_NOTE_DIALECT_MIDI)
    );
    assert_eq!(
        note_port_dialects(MidiDialect::Clap),
        (CLAP_NOTE_DIALECT_CLAP | CLAP_NOTE_DIALECT_MIDI | CLAP_NOTE_DIALECT_MIDI2, CLAP_NOTE_DIALECT_CLAP)
    );
    assert_eq!(note_port_dialects(MidiDialect::Midi2).1, CLAP_NOTE_DIALECT_MIDI2);
}

#[test]
fn optional_extensions_follow_plugin_traits() {
    let plain = PluginTraits {
        layout_count: 1,
        accepts_midi_in: false,
        emits_midi: false,
        voice_count: 0,
        has_editor: false,
        supports_tuning: false,
        note_name_count: 0,
    };
    for ext in [
        ClapExtension::AudioPortsConfig,
        ClapExtension::NotePorts,
        ClapExtension::VoiceInfo,
        ClapExtension::Gui,
        ClapExtension::Tuning,
        ClapExtension::NoteName,
    ] {
        assert!(!offers_extension(ext, &plain), "{ext:?}");
    }
    for ext in [ClapExtension::AudioPorts, ClapExtension::Params, ClapExtension::State, ClapExtension::PresetLoad, ClapExtension::ParamIndication, ClapExtension::RemoteControls] {
        assert!(offers_extension(ext, &plain), "{ext:?}");
    }
    let rich = PluginTraits {
        layout_count: 2,
        accepts_midi_in: false,
        emits_midi: true,
        voice_count: 8,
        has_editor: true,
        supports_tuning: true,
        note_name_count: 3,
    };
    assert!(offers_extension(ClapExtension::AudioPortsConfig, &rich));
    assert!(offers_extension(ClapExtension::NotePorts, &rich));
    assert!(offers_extension(ClapExtension::Gui, &rich));
    assert_eq!(note_ports_count(&rich, true), 0);
    assert_eq!(note_ports_count(&rich, false), 1);
}

use aura::clap_support::{plugin_feature, process_mode_for_render, CLAP_RENDER_OFFLINE, CLAP_RENDER_REALTIME};
use aura::config::{config_for_layout, ProcessMode};
use aura::info::PluginCategory;

#[test]
fn descriptor_feature_per_category() {
    assert_eq!(plugin_feature(PluginCategory::Effect), "audio-effect");
    assert_eq!(plugin_feature(PluginCategory::Instrument), "instrument");
    assert_eq!(plugin_feature(PluginCategory::Analyzer), "analyzer");
    assert_eq!(plugin_feature(PluginCategory::NoteEffect), "note-effect");
}

#[test]
fn render_mode_selects_process_mode() {
    assert_eq!(process_mode_for_render(CLAP_RENDER_OFFLINE), ProcessMode::Offline);
    assert_eq!(process_mode_for_render(CLAP_RENDER_REALTIME), ProcessMode::Realtime);
    assert_eq!(process_mode_for_render(7), ProcessMode::Realtime);
}

#[test]
fn activation_config_follows_layout() {
    let l = BusLayout::mono().with_sidechain(ChannelConfig::Stereo).with_aux(ChannelConfig::Stereo);
    let c = config_for_layout(44_100.0f64.to_bits(), 256, l);
    assert_eq!(
        (c.main_input_channels, c.main_output_channels, c.sidechain_input_channels, c.aux_output_channels),
        (1, 1, 2, 0)
    );
    assert_eq!(c.max_block_size, 256);
}

use aura::clap_support::{gui_api_supported, window_api};
use aura::hot::TargetOs;

#[test]
fn gui_embeds_only_in_the_platform_api() {
    assert_eq!(window_api(TargetOs::Windows), "win32");
    assert_eq!(window_api(TargetOs::MacOs), "cocoa");
    assert_eq!(window_api(TargetOs::Linux), "x11");
    assert!(gui_api_supported(TargetOs::Linux, true, "x11", false));
    assert!(!gui_api_supported(TargetOs::Linux, true, "x11", true));
    assert!(!gui_api_supported(TargetOs::Linux, false, "x11", false));
    assert!(!gui_api_supported(TargetOs::Linux, true, "wayland", false));
}
