use aura::preset::{
    factory_preset_values, find_factory_preset, preset_file_values, FactoryPreset,
    FactoryPresetState,
};
use aura::state::encode_state;

static HOT: [(u32, u64); 1] = [(1, 0x4018_0000_0000_0000)];

#[test]
fn values_preset_applies() {
    let preset = FactoryPreset { key: "hot", name: "Hot", state: FactoryPresetState::Values(&HOT) };
    let values = factory_preset_values(&preset).expect("values preset");
    assert_eq!(values.len(), 1);
    assert_eq!(values[0].0, 1);
    assert!((f64::from_bits(values[0].1) - 6.0).abs() < 1e-9);
}

#[test]
fn blob_preset_applies() {
    let blob = encode_state(&[1], &[(-3.0f64).to_bits()]);
    let leaked: &'static [u8] = Box::leak(blob.into_boxed_slice());
    let preset = FactoryPreset { key: "blob", name: "Blob", state: FactoryPresetState::Blob(leaked) };
    let values = factory_preset_values(&preset).expect("blob preset");
    assert_eq!(values[0].0, 1);
    assert!((f64::from_bits(values[0].1) + 3.0).abs() < 1e-9);
}

#[test]
fn malformed_blob_preset_is_refused() {
    let preset = FactoryPreset { key: "bad", name: "Bad", state: FactoryPresetState::Blob(&[3, 0, 0, 0, 1]) };
    assert!(factory_preset_values(&preset).is_none());
}

#[test]
fn presets_found_by_first_matching_key() {
    let presets = [
        FactoryPreset { key: "init", name: "Init", state: FactoryPresetState::Values(&[]) },
        FactoryPreset { key: "hot", name: "Hot", state: FactoryPresetState::Values(&HOT) },
        FactoryPreset { key: "hot", name: "Hot 2", state: FactoryPresetState::Values(&[]) },
    ];
    assert_eq!(find_factory_preset(&presets, "hot"), Some(1));
    assert_eq!(find_factory_preset(&presets, "init"), Some(0));
    assert_eq!(find_factory_preset(&presets, "cold"), None);
    assert_eq!(find_factory_preset(&presets, ""), None);
}

#[test]
fn file_load_round_trip() {
    let bytes = encode_state(&[1], &[4.5f64.to_bits()]);
    let values = preset_file_values(&bytes).unwrap();
    assert!((f64::from_bits(values[0].1) - 4.5).abs() < 1e-9);
    assert_eq!(preset_file_values(&[1, 2]), Err("not a valid AURA state blob".to_string()));
}
