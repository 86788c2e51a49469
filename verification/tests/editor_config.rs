use aura::config::{AudioConfig, ProcessMode};
use aura::info::{voice_info, MidiDialect, PluginCategory, PluginInfo};
use aura::scale::{
    fit_size, initial_scale_bits, is_usable_scale, pack_size, unpack_size, EditorScale,
    GlInitError, SizePolicy, UNIT_SCALE_BITS,
};

#[test]
fn usable_scales_are_finite_and_positive() {
    assert!(is_usable_scale(1.5f64.to_bits()));
    assert!(is_usable_scale(f64::MIN_POSITIVE.to_bits()));
    assert!(!is_usable_scale(0.0f64.to_bits()));
    assert!(!is_usable_scale((-1.0f64).to_bits()));
    assert!(!is_usable_scale(f64::INFINITY.to_bits()));
    assert!(!is_usable_scale(f64::NAN.to_bits()));
    assert_eq!(initial_scale_bits(f64::NAN.to_bits()), UNIT_SCALE_BITS);
    assert_eq!(initial_scale_bits(2.0f64.to_bits()), 2.0f64.to_bits());
    assert_eq!(f64::from_bits(UNIT_SCALE_BITS), 1.0);
}

#[test]
fn editor_scale_ignores_bad_values_and_shares_the_cell() {
    let s = EditorScale::new((-3.0f64).to_bits());
    assert_eq!(s.get_bits(), 1.0f64.to_bits());
    let t = s.clone();
    assert!(t.set_bits(1.25f64.to_bits()));
    assert_eq!(s.get_bits(), 1.25f64.to_bits());
    assert!(!s.set_bits(f64::INFINITY.to_bits()));
    assert_eq!(t.get_bits(), 1.25f64.to_bits());
}

#[test]
fn packed_size_round_trips() {
    for size in [(0u32, 0u32), (730, 395), (u32::MAX, 1), (1, u32::MAX)] {
        assert_eq!(unpack_size(pack_size(size)), size);
    }
    assert_eq!(pack_size((1, 2)), 0x0000_0001_0000_0002);
}

#[test]
fn fit_size_clamps_into_bounds() {
    assert_eq!(fit_size(100, 5000, (400, 300), (1600, 1200)), (400, 1200));
    assert_eq!(fit_size(0, 0, (0, 0), (10, 10)), (1, 1));
    assert_eq!(fit_size(500, 500, (400, 300), (1600, 1200)), (500, 500));
}

#[test]
fn size_policies() {
    let f = SizePolicy::fixed((730, 395));
    assert_eq!((f.design_size, f.min_size, f.max_size), ((730, 395), (730, 395), (730, 395)));
    assert!(!f.can_resize);
    let r = SizePolicy::resizable((800, 600), (400, 300), (1600, 1200));
    assert!(r.can_resize);
    assert_eq!(r.min_size, (400, 300));
    let d = SizePolicy::default();
    assert_eq!(d.design_size, (800, 600));
    let c = r.clone();
    assert!(c.scale.set_bits(2.0f64.to_bits()));
    assert_eq!(r.scale.get_bits(), 2.0f64.to_bits());
}

#[test]
fn gl_init_error_keeps_message() {
    assert_eq!(GlInitError::new("no GL 3.3".to_string()).message, "no GL 3.3");
}

#[test]
fn audio_config_builders() {
    let c = AudioConfig::new(48_000.0f64.to_bits(), 512);
    assert_eq!(f64::from_bits(c.sample_rate), 48_000.0);
    assert_eq!((c.main_input_channels, c.main_output_channels), (2, 2));
    assert_eq!(c.process_mode, ProcessMode::Realtime);
    let c = c
        .with_process_mode(ProcessMode::Offline)
        .with_channels(0, 1)
        .with_sidechain_channels(2)
        .with_aux_channels(2);
    assert!(c.process_mode.is_offline());
    assert_eq!(
        (c.main_input_channels, c.main_output_channels, c.sidechain_input_channels, c.aux_output_channels),
        (0, 1, 2, 2)
    );
    assert_eq!(c.max_block_size, 512);
    assert!(!ProcessMode::Buffered.is_offline());
    assert_eq!(ProcessMode::default(), ProcessMode::Realtime);
}

#[test]
fn plugin_info_defaults() {
    let i = PluginInfo::new("Gain", "Aura", "0.1.0", "com.aura.gain");
    assert_eq!(i.clap_id, "com.aura.gain");
    assert_eq!(i.category, PluginCategory::Effect);
    assert_eq!(i.midi_input_dialect, MidiDialect::Midi1);
    assert_eq!(i.url, "");
    assert!(!i.accepts_midi_in && !i.emits_midi && !i.supports_tuning);
    assert_eq!(MidiDialect::default(), MidiDialect::Midi1);
    assert_eq!(PluginCategory::default(), PluginCategory::Effect);
}

#[test]
fn voice_info_overlapping_when_count_set() {
    let mut i = PluginInfo::new("Synth", "Aura", "0.1.0", "com.aura.synth");
    assert_eq!(voice_info(&i), None);
    i.voice_count = 8;
    assert_eq!(voice_info(&i), Some((8, 8)));
    i.voice_capacity = 16;
    assert_eq!(voice_info(&i), Some((8, 16)));
    i.voice_capacity = 4;
    assert_eq!(voice_info(&i), Some((8, 8)));
}

use aura::scale::{editor_set_size, SizeRequestOutcome};

#[test]
fn resizable_editor_fits_requests() {
    let r = editor_set_size((800, 600), true, (400, 300), (1600, 1200), 2000, 500);
    assert_eq!(r, SizeRequestOutcome { accepted: true, design_size: (1600, 500), pending: Some((1600, 500)) });
    let z = editor_set_size((800, 600), true, (400, 300), (1600, 1200), 0, 500);
    assert_eq!(z, SizeRequestOutcome { accepted: false, design_size: (800, 600), pending: None });
}

#[test]
fn fixed_editor_reasserts_its_size() {
    let r = editor_set_size((730, 395), false, (730, 395), (730, 395), 1000, 700);
    assert_eq!(r, SizeRequestOutcome { accepted: false, design_size: (730, 395), pending: Some((730, 395)) });
    let same = editor_set_size((730, 395), false, (730, 395), (730, 395), 730, 395);
    assert_eq!(same, SizeRequestOutcome { accepted: true, design_size: (730, 395), pending: None });
}
