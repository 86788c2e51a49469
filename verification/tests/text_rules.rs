use aura::build_assets::{
    asset_paths, compile_error_message, font_dir, font_file_names, needs_write, ui_dir,
    widget_file_names, CompileError, LIBRARY_NAME,
};
use aura::derive_support::{
    parse_flags, parse_unit, snake_to_pascal, ParamUnit, PersistScalar,
};
use aura::params::{ParamFlags, AUTOMATABLE, HIDDEN, IS_BYPASS, MODULATABLE, MODULATABLE_PER_NOTE,
    READONLY};
use aura::text::str_equal;
use aura::vault::{parse_frontmatter, preset_plugin_name, PluginConfig};
use std::path::Path;

const PRESET: &str = "---\nplugin: Lucent\nname:  Warm Pad \ntags:\n  - soft\n  - wide\nurl: http://x.y/z\n---\nbody: ignored\n";

#[test]
fn frontmatter_keys_and_values_are_trimmed() {
    let es = parse_frontmatter(PRESET);
    let got: Vec<(&str, &str)> = es.iter().map(|(k, v)| (k.as_str(), v.as_str())).collect();
    assert_eq!(
        got,
        vec![("plugin", "Lucent"), ("name", "Warm Pad"), ("tags", ""), ("url", "http://x.y/z")]
    );
}

#[test]
fn frontmatter_needs_leading_fence() {
    assert!(parse_frontmatter("plugin: X\n---\n").is_empty());
    assert!(parse_frontmatter("").is_empty());
    assert_eq!(preset_plugin_name("plugin: X\n"), None);
}

#[test]
fn later_key_overwrites_earlier() {
    let es = parse_frontmatter("---\nplugin: A\nplugin: B\n");
    assert_eq!(es, vec![("plugin".to_string(), "B".to_string())]);
    assert_eq!(preset_plugin_name("---\nplugin: A\nplugin: B\n"), Some("B".to_string()));
}

#[test]
fn preset_plugin_name_reads_plugin_field() {
    assert_eq!(preset_plugin_name(PRESET), Some("Lucent".to_string()));
    assert_eq!(preset_plugin_name("---\nname: x\n---\n"), None);
    assert_eq!(preset_plugin_name("---\r\nplugin: Crlf\r\n---\r\n"), Some("Crlf".to_string()));
}

#[test]
fn plugin_config_default_is_empty() {
    let c = PluginConfig::default();
    assert!(c.vault_path.is_none() && c.last_preset.is_none());
}

#[test]
fn snake_to_pascal_cases() {
    assert_eq!(snake_to_pascal("gain_db"), "GainDb");
    assert_eq!(snake_to_pascal("r#type"), "Type");
    assert_eq!(snake_to_pascal("__a__b_"), "AB");
    assert_eq!(snake_to_pascal("ßx"), "SSx");
    assert_eq!(snake_to_pascal(""), "");
}

#[test]
fn persist_scalars() {
    assert_eq!(PersistScalar::from_ident("u16"), Some(PersistScalar::U16));
    assert_eq!(PersistScalar::from_ident("String"), Some(PersistScalar::String));
    assert_eq!(PersistScalar::from_ident("usize"), None);
    assert_eq!(PersistScalar::F64.byte_width(), Some(8));
    assert_eq!(PersistScalar::Bool.byte_width(), Some(1));
    assert_eq!(PersistScalar::I16.byte_width(), Some(2));
    assert_eq!(PersistScalar::F32.byte_width(), Some(4));
    assert_eq!(PersistScalar::String.byte_width(), None);
}

#[test]
fn units_parse_strictly() {
    assert_eq!(parse_unit("dB"), Some(ParamUnit::Db));
    assert_eq!(parse_unit("hz"), Some(ParamUnit::Hz));
    assert_eq!(parse_unit("°"), Some(ParamUnit::Degrees));
    assert_eq!(parse_unit(""), Some(ParamUnit::NoUnit));
    assert_eq!(parse_unit("none"), Some(ParamUnit::NoUnit));
    assert_eq!(parse_unit("DB"), None);
    assert_eq!(parse_unit("hz "), None);
}

#[test]
fn flags_parse_names_case_insensitively() {
    assert_eq!(parse_flags(" Hidden | READONLY ").unwrap(), ParamFlags::from_bits(HIDDEN | READONLY));
    assert_eq!(
        parse_flags("modulatable_per_note|").unwrap(),
        ParamFlags::from_bits(MODULATABLE | MODULATABLE_PER_NOTE)
    );
    assert_eq!(parse_flags("bypass").unwrap().bits, IS_BYPASS);
}

#[test]
fn no_flags_means_automatable() {
    assert_eq!(parse_flags("").unwrap().bits, AUTOMATABLE);
    assert_eq!(parse_flags(" | ").unwrap().bits, AUTOMATABLE);
}

#[test]
fn unknown_flag_is_an_error() {
    assert_eq!(parse_flags("automatable | read_only"), Err("read_only".to_string()));
    assert_eq!(parse_flags("Bogus"), Err("bogus".to_string()));
}

#[test]
fn str_equal_is_exact() {
    assert!(str_equal("abc", "abc"));
    assert!(!str_equal("abc", "abd"));
    assert!(!str_equal("abc", "ab"));
}

#[test]
fn param_flag_masks() {
    let f = ParamFlags::from_bits(AUTOMATABLE | HIDDEN);
    assert!(f.contains(AUTOMATABLE));
    assert!(!f.contains(AUTOMATABLE | READONLY));
    assert!(f.intersects(READONLY | HIDDEN));
    assert!(!ParamFlags::empty().intersects(u32::MAX));
}

#[test]
fn bundled_asset_names() {
    let w = widget_file_names();
    assert_eq!(w.len(), 8);
    assert_eq!(w[0], "widgets.slint");
    assert_eq!(w[7], "xy_pad.slint");
    let f = font_file_names();
    assert_eq!(f.len(), 6);
    assert_eq!(f[0], "JetBrainsMono-Regular.ttf");
    assert_eq!(LIBRARY_NAME, "aura");
}

#[test]
fn asset_paths_under_out_dir() {
    let a = asset_paths("/out");
    assert_eq!(a.library_paths.len(), 1);
    assert_eq!(a.library_paths[0].0, "aura");
    assert_eq!(
        Path::new(&a.library_paths[0].1),
        Path::new("/out/aura-build/ui/widgets.slint")
    );
    assert_eq!(a.include_paths, vec![font_dir("/out")]);
    assert_eq!(Path::new(&a.include_paths[0]), Path::new("/out/aura-build/fonts"));
    assert_eq!(Path::new(&ui_dir("/out")), Path::new("/out/aura-build/ui"));
    assert_eq!(a.style, "fluent");
}

#[test]
fn needs_write_only_on_change() {
    assert!(needs_write(None, b"abc"));
    assert!(!needs_write(Some(b"abc"), b"abc"));
    assert!(needs_write(Some(b"abd"), b"abc"));
    assert!(needs_write(Some(b"ab"), b"abc"));
}

#[test]
fn compile_error_messages() {
    assert_eq!(
        compile_error_message(&CompileError::NoOutDir),
        "OUT_DIR not set — call aura_build::compile from a build script"
    );
    assert_eq!(
        compile_error_message(&CompileError::Slint("bad".to_string())),
        "slint compile failed: bad"
    );
    let io = std::io::Error::new(std::io::ErrorKind::Other, "disk full");
    let e = CompileError::from(io);
    assert_eq!(compile_error_message(&e), "writing bundled assets to OUT_DIR: disk full");
}

use aura::vault::config_base_dir;

#[test]
fn config_base_prefers_appdata_then_home() {
    assert_eq!(config_base_dir(Some("C:/Users/a/AppData"), Some("/home/a")), "C:/Users/a/AppData");
    assert_eq!(Path::new(&config_base_dir(None, Some("/home/a"))), Path::new("/home/a/.config"));
    assert_eq!(config_base_dir(None, None), ".");
}

use aura::derive_support::{classify_param_type, persist_type, ParamKind, PersistWrapper};

#[test]
fn param_field_types() {
    assert_eq!(classify_param_type("FloatParam"), Some(ParamKind::Float));
    assert_eq!(classify_param_type("EnumParam"), Some(ParamKind::Enum));
    assert_eq!(classify_param_type("MeterSlot"), None);
}

#[test]
fn persist_field_types() {
    assert_eq!(persist_type("RwLock", Some("f32")), Some((PersistWrapper::RwLock, PersistScalar::F32)));
    assert_eq!(persist_type("Mutex", Some("String")), Some((PersistWrapper::Mutex, PersistScalar::String)));
    assert_eq!(persist_type("Cell", Some("u8")), None);
    assert_eq!(persist_type("Mutex", Some("usize")), None);
    assert_eq!(persist_type("RwLock", None), None);
}
