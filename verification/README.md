# aura

The host-independent core of the AURA audio plugin framework (CLAP first),
written in Verus: every function in `src/` carries a contract and is proved
against it.

## Layout

- `src/` — the verified library
  - `bus`, `config`, `info`, `params`: bus layouts, activation config, plugin
    metadata, parameter metadata
  - `note_events`, `note_voices`, `voice`, `host_events`: ordered note lists,
    the per-note voice table, the polyphonic voice manager, and routing of
    host events in and plugin events out
  - `chunked_process`, `process`: sample-accurate block splitting, block
    status, channel plans
  - `state`, `preset`: the shared state blob and factory / file presets
  - `tuning`, `clap_support`: tuning selection, remote-control pages, flag
    mapping, ports, offered extensions
  - `derive_support`, `derive_checks`, `param_attrs`, `param_range`: the
    attribute language of `#[derive(Params)]`
  - `key_input`: the editor window's answer to a host key event
  - `scale`, `analysis`, `vault`, `hot`, `build_assets`, `text`: editor
    sizing, analysis bucketing, preset frontmatter, hot-reload paths, UI
    asset configuration, and the standard text operations the library uses
- `tests/` — tests run against the compiled library
- `app/` — code around the library: the panic fence at the host boundary,
  config files, asset writing, serde forms, and floating-point display and
  DSP code

Floating-point values never enter `src/`: where an audio API has an `f32` or
`f64`, the library carries its IEEE-754 bit pattern.
