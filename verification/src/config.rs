//! Activation-time processing configuration.

use vstd::prelude::*;
use crate::bus::{BusLayout, channels_of, opt_channels};

verus! {

/// How the host is driving audio through the plugin this activation.
#[derive(Clone, Copy, Debug, PartialEq, Eq, Structural)]
pub enum ProcessMode {
    /// Fixed-rate realtime playback. Honor the no-alloc / no-lock rule.
    Realtime,
    /// Ahead-of-time / prefetch style. Treat like realtime.
    Buffered,
    /// Freewheeling offline render — no wall-clock deadline.
    Offline,
}

impl Default for ProcessMode {
    fn default() -> (m: Self)
        ensures
            m == ProcessMode::Realtime,
    {
        ProcessMode::Realtime
    }
}

impl ProcessMode {
    pub fn is_offline(self) -> (b: bool)
        ensures
            b == (self == ProcessMode::Offline),
    {
        match self {
            ProcessMode::Offline => true,
            _ => false,
        }
    }
}

/// Config handed to `reset` when the host (re)prepares the plugin.
/// `sample_rate` is the host's `f64` rate as IEEE-754 bits.
#[derive(Clone, Copy, Debug)]
pub struct AudioConfig {
    pub sample_rate: u64,
    pub max_block_size: usize,
    pub process_mode: ProcessMode,
    /// Main input channel count for the selected bus layout (`0` = no input).
    pub main_input_channels: u32,
    /// Main output channel count for the selected bus layout.
    pub main_output_channels: u32,
    /// Sidechain input channel count (`0` = none).
    pub sidechain_input_channels: u32,
    /// Aux output channel count (`0` = none).
    pub aux_output_channels: u32,
}

impl AudioConfig {
    /// Stereo main I/O defaults (matches the stereo bus layout).
    pub fn new(sample_rate: u64, max_block_size: usize) -> (c: Self)
        ensures
            c.sample_rate == sample_rate,
            c.max_block_size == max_block_size,
            c.process_mode == ProcessMode::Realtime,
            c.main_input_channels == 2,
            c.main_output_channels == 2,
            c.sidechain_input_channels == 0,
            c.aux_output_channels == 0,
    {
        AudioConfig {
            sample_rate,
            max_block_size,
            process_mode: ProcessMode::Realtime,
            main_input_channels: 2,
            main_output_channels: 2,
            sidechain_input_channels: 0,
            aux_output_channels: 0,
        }
    }

    pub fn with_process_mode(self, mode: ProcessMode) -> (c: Self)
        ensures
            c == (AudioConfig { process_mode: mode, ..self }),
    {
        AudioConfig { process_mode: mode, ..self }
    }

    pub fn with_channels(self, main_in: u32, main_out: u32) -> (c: Self)
        ensures
            c == (AudioConfig { main_input_channels: main_in, main_output_channels: main_out, ..self }),
    {
        AudioConfig { main_input_channels: main_in, main_output_channels: main_out, ..self }
    }

    pub fn with_sidechain_channels(self, sidechain_in: u32) -> (c: Self)
        ensures
            c == (AudioConfig { sidechain_input_channels: sidechain_in, ..self }),
    {
        AudioConfig { sidechain_input_channels: sidechain_in, ..self }
    }

    pub fn with_aux_channels(self, aux_out: u32) -> (c: Self)
        ensures
            c == (AudioConfig { aux_output_channels: aux_out, ..self }),
    {
        AudioConfig { aux_output_channels: aux_out, ..self }
    }
}

/// The config an activation hands `reset`: the rate and block size the
/// host gave, and the channel counts of the selected layout (main in /
/// out, sidechain in).
pub fn config_for_layout(sample_rate: u64, max_block_size: usize, layout: BusLayout) -> (c: AudioConfig)
    ensures
        c.sample_rate == sample_rate,
        c.max_block_size == max_block_size,
        c.process_mode == ProcessMode::Realtime,
        c.main_input_channels == opt_channels(layout.main_in),
        c.main_output_channels == channels_of(layout.main_out),
        c.sidechain_input_channels == opt_channels(layout.sidechain_in),
        c.aux_output_channels == 0,
{
    AudioConfig::new(sample_rate, max_block_size).with_channels(
        layout.main_input_channels(),
        layout.main_output_channels(),
    ).with_sidechain_channels(layout.sidechain_input_channels())
}

} // verus!
