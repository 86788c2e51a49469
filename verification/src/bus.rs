//! Main-bus channel layouts for format wrappers.
//!
//! Plugins declare supported layouts; the default is stereo in/out. One
//! optional sidechain input and one optional aux output can be declared
//! per layout.

use vstd::prelude::*;
use vstd::string::*;

verus! {

/// Channel width of a main audio bus.
#[derive(Clone, Copy, Debug, PartialEq, Eq, Hash, Structural)]
pub enum ChannelConfig {
    Mono,
    Stereo,
}

/// Number of channels of a bus width.
pub open spec fn channels_of(c: ChannelConfig) -> u32 {
    match c {
        ChannelConfig::Mono => 1,
        ChannelConfig::Stereo => 2,
    }
}

/// Display name of a bus width.
pub open spec fn name_of(c: ChannelConfig) -> Seq<char> {
    match c {
        ChannelConfig::Mono => "Mono"@,
        ChannelConfig::Stereo => "Stereo"@,
    }
}

impl ChannelConfig {
    pub fn channel_count(self) -> (n: u32)
        ensures
            n == channels_of(self),
    {
        match self {
            ChannelConfig::Mono => 1,
            ChannelConfig::Stereo => 2,
        }
    }

    pub fn name(self) -> (s: &'static str)
        ensures
            s@ == name_of(self),
    {
        match self {
            ChannelConfig::Mono => "Mono",
            ChannelConfig::Stereo => "Stereo",
        }
    }
}

/// One complete I/O layout (main in/out + optional sidechain in + optional aux out).
#[derive(Clone, Copy, Debug, PartialEq, Eq, Structural)]
pub struct BusLayout {
    /// Main input width. `None` = no audio input (generator / instrument).
    pub main_in: Option<ChannelConfig>,
    /// Main output width.
    pub main_out: ChannelConfig,
    /// Optional sidechain input bus.
    pub sidechain_in: Option<ChannelConfig>,
    /// Optional aux output bus.
    pub aux_out: Option<ChannelConfig>,
}

/// Channel count of an optional bus (`0` when absent).
pub open spec fn opt_channels(c: Option<ChannelConfig>) -> u32 {
    match c {
        Some(c) => channels_of(c),
        None => 0,
    }
}

pub open spec fn stereo_layout() -> BusLayout {
    BusLayout {
        main_in: Some(ChannelConfig::Stereo),
        main_out: ChannelConfig::Stereo,
        sidechain_in: None,
        aux_out: None,
    }
}

pub open spec fn mono_layout() -> BusLayout {
    BusLayout {
        main_in: Some(ChannelConfig::Mono),
        main_out: ChannelConfig::Mono,
        sidechain_in: None,
        aux_out: None,
    }
}

/// The host-menu name of a layout: main part, then ` + X sidechain`,
/// then ` + X aux`.
pub open spec fn config_name_of(l: BusLayout) -> Seq<char> {
    let base = match l.main_in {
        Some(inn) => if inn == l.main_out {
            name_of(inn)
        } else {
            name_of(inn) + " in / "@ + name_of(l.main_out) + " out"@
        },
        None => name_of(l.main_out) + " out"@,
    };
    let with_sc = match l.sidechain_in {
        Some(sc) => base + " + "@ + name_of(sc) + " sidechain"@,
        None => base,
    };
    match l.aux_out {
        Some(aux) => with_sc + " + "@ + name_of(aux) + " aux"@,
        None => with_sc,
    }
}

impl BusLayout {
    pub fn mono() -> (l: Self)
        ensures
            l == mono_layout(),
    {
        BusLayout {
            main_in: Some(ChannelConfig::Mono),
            main_out: ChannelConfig::Mono,
            sidechain_in: None,
            aux_out: None,
        }
    }

    pub fn stereo() -> (l: Self)
        ensures
            l == stereo_layout(),
    {
        BusLayout {
            main_in: Some(ChannelConfig::Stereo),
            main_out: ChannelConfig::Stereo,
            sidechain_in: None,
            aux_out: None,
        }
    }

    /// Output-only layout (instrument / generator).
    pub fn output_only(out: ChannelConfig) -> (l: Self)
        ensures
            l == (BusLayout { main_in: None, main_out: out, sidechain_in: None, aux_out: None }),
    {
        BusLayout { main_in: None, main_out: out, sidechain_in: None, aux_out: None }
    }

    /// A copy of this layout with the given sidechain input bus.
    pub fn with_sidechain(self, sidechain: ChannelConfig) -> (l: Self)
        ensures
            l == (BusLayout { sidechain_in: Some(sidechain), ..self }),
    {
        BusLayout { sidechain_in: Some(sidechain), ..self }
    }

    /// A copy of this layout with the given aux output bus.
    pub fn with_aux(self, aux: ChannelConfig) -> (l: Self)
        ensures
            l == (BusLayout { aux_out: Some(aux), ..self }),
    {
        BusLayout { aux_out: Some(aux), ..self }
    }

    /// Default effect set: stereo first (host default), then mono.
    pub fn stereo_and_mono() -> (v: Vec<Self>)
        ensures
            v@ == seq![stereo_layout(), mono_layout()],
    {
        let mut v = Vec::new();
        v.push(BusLayout::stereo());
        v.push(BusLayout::mono());
        v
    }

    pub fn main_input_channels(self) -> (n: u32)
        ensures
            n == opt_channels(self.main_in),
    {
        match self.main_in {
            Some(c) => c.channel_count(),
            None => 0,
        }
    }

    pub fn sidechain_input_channels(self) -> (n: u32)
        ensures
            n == opt_channels(self.sidechain_in),
    {
        match self.sidechain_in {
            Some(c) => c.channel_count(),
            None => 0,
        }
    }

    pub fn aux_output_channels(self) -> (n: u32)
        ensures
            n == opt_channels(self.aux_out),
    {
        match self.aux_out {
            Some(c) => c.channel_count(),
            None => 0,
        }
    }

    /// Input *port* count (main + optional sidechain), not channels: a
    /// stereo sidechain is still one port with two channels.
    pub fn input_port_count(self) -> (n: u32)
        ensures
            n == (if self.main_in is Some { 1u32 } else { 0u32 }) + (if self.sidechain_in is Some {
                1u32
            } else {
                0u32
            }),
    {
        let main: u32 = if self.main_in.is_some() { 1 } else { 0 };
        let sc: u32 = if self.sidechain_in.is_some() { 1 } else { 0 };
        main + sc
    }

    /// Output *port* count (main + optional aux), not channels.
    pub fn output_port_count(self) -> (n: u32)
        ensures
            n == (if self.aux_out is Some { 2u32 } else { 1u32 }),
    {
        if self.aux_out.is_some() {
            2
        } else {
            1
        }
    }

    /// Total audio input channels: main inputs followed by sidechain inputs.
    pub fn total_input_channels(self) -> (n: u32)
        ensures
            n == opt_channels(self.main_in) + opt_channels(self.sidechain_in),
    {
        self.main_input_channels() + self.sidechain_input_channels()
    }

    pub fn main_output_channels(self) -> (n: u32)
        ensures
            n == channels_of(self.main_out),
    {
        self.main_out.channel_count()
    }

    /// Total audio output channels: main outputs followed by aux outputs.
    pub fn total_output_channels(self) -> (n: u32)
        ensures
            n == channels_of(self.main_out) + opt_channels(self.aux_out),
    {
        self.main_output_channels() + self.aux_output_channels()
    }

    /// Human-readable config name for host menus.
    pub fn config_name(self) -> (s: String)
        ensures
            s@ == config_name_of(self),
    {
        let mut s = match self.main_in {
            Some(inn) => {
                if inn == self.main_out {
                    String::from_str(inn.name())
                } else {
                    let mut t = String::from_str(inn.name());
                    t.append(" in / ");
                    t.append(self.main_out.name());
                    t.append(" out");
                    t
                }
            },
            None => {
                let mut t = String::from_str(self.main_out.name());
                t.append(" out");
                t
            },
        };
        if let Some(sc) = self.sidechain_in {
            s.append(" + ");
            s.append(sc.name());
            s.append(" sidechain");
        }
        if let Some(aux) = self.aux_out {
            s.append(" + ");
            s.append(aux.name());
            s.append(" aux");
        }
        s
    }
}

/// The layout a host selects by index: the entry itself, else the first
/// entry, else stereo.
pub open spec fn layout_at_spec(layouts: Seq<BusLayout>, index: int) -> BusLayout {
    if 0 <= index < layouts.len() {
        layouts[index]
    } else if layouts.len() > 0 {
        layouts[0]
    } else {
        stereo_layout()
    }
}

/// Resolve a layout by index, defaulting to the first entry or stereo.
pub fn layout_at(layouts: &[BusLayout], index: usize) -> (l: BusLayout)
    ensures
        l == layout_at_spec(layouts@, index as int),
{
    if index < layouts.len() {
        layouts[index]
    } else if layouts.len() > 0 {
        layouts[0]
    } else {
        BusLayout::stereo()
    }
}

} // verus!
