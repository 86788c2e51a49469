use aura::bus::{layout_at, BusLayout, ChannelConfig};

#[test]
fn mono_stereo_channel_counts() {
    assert_eq!(BusLayout::mono().main_input_channels(), 1);
    assert_eq!(BusLayout::mono().main_output_channels(), 1);
    assert_eq!(BusLayout::stereo().main_input_channels(), 2);
    assert_eq!(BusLayout::stereo().main_output_channels(), 2);
    assert_eq!(
        BusLayout::output_only(ChannelConfig::Stereo).main_input_channels(),
        0
    );
}

#[test]
fn stereo_and_mono_order() {
    let v = BusLayout::stereo_and_mono();
    assert_eq!(v, vec![BusLayout::stereo(), BusLayout::mono()]);
}

#[test]
fn layout_at_falls_back() {
    assert_eq!(layout_at(&[], 0), BusLayout::stereo());
    let v = BusLayout::stereo_and_mono();
    assert_eq!(layout_at(&v, 1), BusLayout::mono());
    assert_eq!(layout_at(&v, 99), BusLayout::stereo());
}

#[test]
fn sidechain_input_counts() {
    let sc = BusLayout::stereo().with_sidechain(ChannelConfig::Mono);
    assert_eq!(sc.main_input_channels(), 2);
    assert_eq!(sc.sidechain_input_channels(), 1);
    assert_eq!(sc.total_input_channels(), 3);
    assert_eq!(sc.main_output_channels(), 2);
    assert_eq!(sc.input_port_count(), 2);
    assert_eq!(sc.output_port_count(), 1);
    assert!(sc.config_name().contains("Mono sidechain"));
}

#[test]
fn stereo_sidechain_is_two_input_ports() {
    let sc = BusLayout::stereo().with_sidechain(ChannelConfig::Stereo);
    assert_eq!(sc.sidechain_input_channels(), 2);
    assert_eq!(sc.total_input_channels(), 4);
    assert_eq!(sc.input_port_count(), 2);
}

#[test]
fn aux_output_counts() {
    let aux = BusLayout::stereo().with_aux(ChannelConfig::Stereo);
    assert_eq!(aux.main_output_channels(), 2);
    assert_eq!(aux.aux_output_channels(), 2);
    assert_eq!(aux.total_output_channels(), 4);
    assert_eq!(aux.output_port_count(), 2);
    assert!(aux.config_name().contains("Stereo aux"));
}

#[test]
fn aux_and_sidechain() {
    let both = BusLayout::stereo()
        .with_sidechain(ChannelConfig::Mono)
        .with_aux(ChannelConfig::Mono);
    assert_eq!(both.input_port_count(), 2);
    assert_eq!(both.output_port_count(), 2);
    assert_eq!(both.total_input_channels(), 3);
    assert_eq!(both.total_output_channels(), 3);
}

#[test]
fn default_layout_is_stereo() {
    assert_eq!(BusLayout::stereo().main_out, ChannelConfig::Stereo);
    assert_eq!(BusLayout::mono().main_out, ChannelConfig::Mono);
    assert_eq!(BusLayout::stereo_and_mono().len(), 2);
}

#[test]
fn config_names_spell_every_part() {
    assert_eq!(BusLayout::stereo().config_name(), "Stereo");
    assert_eq!(BusLayout::mono().config_name(), "Mono");
    assert_eq!(
        BusLayout::output_only(ChannelConfig::Stereo).config_name(),
        "Stereo out"
    );
    let mixed = BusLayout {
        main_in: Some(ChannelConfig::Mono),
        main_out: ChannelConfig::Stereo,
        sidechain_in: None,
        aux_out: None,
    };
    assert_eq!(mixed.config_name(), "Mono in / Stereo out");
    let both = BusLayout::stereo()
        .with_sidechain(ChannelConfig::Mono)
        .with_aux(ChannelConfig::Stereo);
    assert_eq!(
        both.config_name(),
        "Stereo + Mono sidechain + Stereo aux"
    );
}

#[test]
fn output_only_has_no_input_port() {
    let gen = BusLayout::output_only(ChannelConfig::Mono);
    assert_eq!(gen.input_port_count(), 0);
    assert_eq!(gen.output_port_count(), 1);
    assert_eq!(gen.total_input_channels(), 0);
    assert_eq!(gen.total_output_channels(), 1);
    let gen_sc = gen.with_sidechain(ChannelConfig::Stereo);
    assert_eq!(gen_sc.input_port_count(), 1);
    assert_eq!(gen_sc.total_input_channels(), 2);
}

#[test]
fn layout_at_first_entry_when_index_past_end() {
    let v = vec![BusLayout::mono()];
    assert_eq!(layout_at(&v, 5), BusLayout::mono());
    assert_eq!(layout_at(&v, 0), BusLayout::mono());
}

#[test]
fn channel_config_names_and_counts() {
    assert_eq!(ChannelConfig::Mono.channel_count(), 1);
    assert_eq!(ChannelConfig::Stereo.channel_count(), 2);
    assert_eq!(ChannelConfig::Mono.name(), "Mono");
    assert_eq!(ChannelConfig::Stereo.name(), "Stereo");
}
