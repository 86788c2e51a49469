use aura::derive_checks::{MidiAttrError, MidiBindKind};
use aura::param_attrs::{param_attrs, AttrError, AttrErrorKind, AttrLit, StrKey};
use aura::derive_support::{ParamKind, ParamUnit};
use aura::param_attrs::{param_info_plan, PlanError};
use aura::param_range::{RangeKind, RangeSpec};
use aura::params::{AUTOMATABLE, CHUNKED, HIDDEN};

fn entry(key: &str, lit: AttrLit) -> (String, AttrLit) {
    (key.to_string(), lit)
}

#[test]
fn full_attribute_sets_every_field() {
    let entries = vec![
        entry("id", AttrLit::Int(Some(7))),
        entry("name", AttrLit::Str("Cutoff".to_string())),
        entry("short_name", AttrLit::Str("Cut".to_string())),
        entry("group", AttrLit::Str("Filter/Main".to_string())),
        entry("range", AttrLit::Str("log(20, 20000)".to_string())),
        entry("default", AttrLit::FloatBits(Some(1000.0f64.to_bits()))),
        entry("unit", AttrLit::Str("hz".to_string())),
        entry("flags", AttrLit::Str("automatable".to_string())),
        entry("smooth", AttrLit::Str("exp(5)".to_string())),
        entry("format", AttrLit::Str("fmt_hz".to_string())),
        entry("parse", AttrLit::Str("parse_hz".to_string())),
        entry("chunk", AttrLit::Bool(false)),
        entry("midi_cc", AttrLit::Int(Some(74))),
        entry("midi_channel", AttrLit::Int(Some(16))),
    ];
    let a = param_attrs(&entries);
    assert!(a.errors.is_empty());
    assert_eq!(a.id, Some(7));
    assert_eq!(a.name.as_deref(), Some("Cutoff"));
    assert_eq!(a.short_name.as_deref(), Some("Cut"));
    assert_eq!(a.group.as_deref(), Some("Filter/Main"));
    assert_eq!(a.range.as_deref(), Some("log(20, 20000)"));
    assert_eq!(a.default_bits, Some(1000.0f64.to_bits()));
    assert_eq!(a.unit.as_deref(), Some("hz"));
    assert_eq!(a.flags.as_deref(), Some("automatable"));
    assert_eq!(a.smooth.as_deref(), Some("exp(5)"));
    assert_eq!(a.format_fn.as_deref(), Some("fmt_hz"));
    assert_eq!(a.parse_fn.as_deref(), Some("parse_hz"));
    assert_eq!(a.chunk, Some(false));
    assert_eq!(a.midi_map, Some(MidiBindKind::Cc(74)));
    assert_eq!(a.midi_channel, Some(15));
}

#[test]
fn empty_attribute_sets_nothing() {
    let a = param_attrs(&[]);
    assert!(a.errors.is_empty());
    assert_eq!(a.id, None);
    assert_eq!(a.name, None);
    assert_eq!(a.chunk, None);
}

#[test]
fn each_bad_entry_adds_one_error_and_reading_goes_on() {
    let entries = vec![
        entry("id", AttrLit::Str("seven".to_string())),
        entry("name", AttrLit::Int(Some(3))),
        entry("default", AttrLit::FloatBits(None)),
        entry("chunk", AttrLit::Int(Some(0))),
        entry("colour", AttrLit::Str("red".to_string())),
        entry("unit", AttrLit::Str("db".to_string())),
    ];
    let a = param_attrs(&entries);
    assert_eq!(
        a.errors,
        vec![
            AttrError { entry: 0, kind: AttrErrorKind::IdNotInteger },
            AttrError { entry: 1, kind: AttrErrorKind::ExpectsString(StrKey::Name) },
            AttrError { entry: 2, kind: AttrErrorKind::DefaultNotNumber },
            AttrError { entry: 3, kind: AttrErrorKind::ChunkNotBool },
            AttrError { entry: 4, kind: AttrErrorKind::UnknownKey },
        ]
    );
    assert_eq!(a.id, None);
    assert_eq!(a.name, None);
    assert_eq!(a.unit.as_deref(), Some("db"));
}

#[test]
fn id_too_large_for_u32_is_rejected() {
    let a = param_attrs(&[entry("id", AttrLit::Int(Some(1 << 32)))]);
    assert_eq!(a.errors, vec![AttrError { entry: 0, kind: AttrErrorKind::IdOutOfRange }]);
    assert_eq!(a.id, None);
    let b = param_attrs(&[entry("id", AttrLit::Int(Some(u32::MAX as u64)))]);
    assert!(b.errors.is_empty());
    assert_eq!(b.id, Some(u32::MAX));
}

#[test]
fn later_entry_replaces_earlier() {
    let a = param_attrs(&[
        entry("name", AttrLit::Str("A".to_string())),
        entry("name", AttrLit::Str("B".to_string())),
    ]);
    assert_eq!(a.name.as_deref(), Some("B"));
}

#[test]
fn midi_keys_go_through_midi_rules() {
    let a = param_attrs(&[
        entry("midi_cc", AttrLit::Int(Some(1))),
        entry("midi_source", AttrLit::Str("pitchbend".to_string())),
        entry("midi_channel", AttrLit::Int(Some(17))),
        entry("midi_cc", AttrLit::Int(Some(70_000))),
    ]);
    assert_eq!(a.midi_map, Some(MidiBindKind::Cc(1)));
    assert_eq!(
        a.errors,
        vec![
            AttrError { entry: 1, kind: AttrErrorKind::Midi(MidiAttrError::BothSet) },
            AttrError { entry: 2, kind: AttrErrorKind::Midi(MidiAttrError::ChannelOutOfRange) },
            AttrError { entry: 3, kind: AttrErrorKind::Midi(MidiAttrError::CcOutOfRange) },
        ]
    );
    let b = param_attrs(&[entry("midi_source", AttrLit::Bool(true))]);
    assert_eq!(b.errors, vec![AttrError { entry: 0, kind: AttrErrorKind::Midi(MidiAttrError::ExpectsString) }]);
}

#[test]
fn plan_applies_documented_defaults() {
    let a = param_attrs(&[entry("id", AttrLit::Int(Some(1)))]);
    let p = param_info_plan(&a, ParamKind::Float).unwrap();
    assert_eq!(p.name, "Unnamed");
    assert_eq!(p.short_name, "Unnamed");
    assert_eq!(p.group, "");
    assert!(p.range.is_none());
    assert_eq!(p.default_range, RangeKind::Linear);
    assert_eq!(p.default_bits, 0.0f64.to_bits());
    assert_eq!(p.unit, ParamUnit::NoUnit);
    assert_eq!(p.flags, AUTOMATABLE | CHUNKED);
    assert_eq!(param_info_plan(&a, ParamKind::Bool).unwrap().default_range, RangeKind::Discrete);
    assert_eq!(param_info_plan(&a, ParamKind::Enum).unwrap().default_range, RangeKind::Enum);
    assert_eq!(param_info_plan(&a, ParamKind::Int).unwrap().default_range, RangeKind::Linear);
}

#[test]
fn plan_keeps_given_values() {
    let a = param_attrs(&[
        entry("name", AttrLit::Str("Gain".to_string())),
        entry("range", AttrLit::Str("discrete(0, 8)".to_string())),
        entry("unit", AttrLit::Str("dB".to_string())),
        entry("flags", AttrLit::Str("hidden".to_string())),
        entry("chunk", AttrLit::Bool(false)),
        entry("default", AttrLit::FloatBits(Some(2.0f64.to_bits()))),
    ]);
    let p = param_info_plan(&a, ParamKind::Int).unwrap();
    assert_eq!(p.name, "Gain");
    assert_eq!(p.short_name, "Gain");
    assert_eq!(p.unit, ParamUnit::Db);
    assert_eq!(p.flags, HIDDEN);
    assert_eq!(p.default_bits, 2.0f64.to_bits());
    let r = p.range.unwrap();
    assert_eq!(r.reversals, 0);
    assert!(matches!(r.spec, RangeSpec::Discrete { min: 0, max: 8 }));
}

#[test]
fn plan_reports_every_rejected_text() {
    let a = param_attrs(&[
        entry("range", AttrLit::Str("cubic(0, 1)".to_string())),
        entry("unit", AttrLit::Str("DB".to_string())),
        entry("flags", AttrLit::Str("read_only".to_string())),
    ]);
    let errs = param_info_plan(&a, ParamKind::Float).unwrap_err();
    assert_eq!(errs.len(), 3);
    assert!(matches!(errs[0], PlanError::Range(_)));
    assert!(matches!(&errs[1], PlanError::Unit(u) if u == "DB"));
    assert!(matches!(&errs[2], PlanError::Flag(f) if f == "read_only"));
}
