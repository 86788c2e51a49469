//! The `#[param(key = literal, …)]` attribute of `#[derive(Params)]`.
//!
//! The derive reads each entry of the attribute list as a key and a plain
//! literal ([`AttrLit`]); this module folds the entries, in order, into the
//! parameter's [`ParamAttrs`]. A later entry with the same key replaces an
//! earlier one. Each entry whose literal has the wrong kind, and each
//! unknown key, adds one error naming the entry, and reading goes on, so
//! every mistake surfaces as its own compile error.

use vstd::prelude::*;
use crate::derive_checks::{
    midi_attr, midi_attr_effect, MidiAttrEffect, MidiAttrError, MidiBindKind, MidiLit,
};
use crate::derive_support::{flags_of, parse_flags, parse_unit, unit_of, ParamKind, ParamUnit};
use crate::param_range::{
    error_model, parse_range, range_of, spec_model, ParsedRange, RangeError, RangeErrorModel,
    RangeKind, RangeModel,
};
use crate::params::{AUTOMATABLE, CHUNKED};
use crate::text::str_equal;

verus! {

/// The literal of one attribute entry, as the derive read it.
#[derive(Clone, Debug)]
pub enum AttrLit {
    /// An integer literal (`None` when it does not fit a `u64`).
    Int(Option<u64>),
    Str(String),
    Bool(bool),
    /// The value of a numeric or bool `default` expression, as `f64` bits
    /// (`None` when the expression is no such literal).
    FloatBits(Option<u64>),
    /// Any other literal.
    Other,
}

/// The keys that take a string literal.
#[derive(Clone, Copy, Debug, PartialEq, Eq, Structural)]
pub enum StrKey {
    Name,
    ShortName,
    Group,
    Range,
    Unit,
    Flags,
    Smooth,
    Format,
    Parse,
}

/// What is wrong with one entry.
#[derive(Clone, Copy, Debug, PartialEq, Eq, Structural)]
pub enum AttrErrorKind {
    /// `id` with a literal that is not an integer.
    IdNotInteger,
    /// `id` with an integer that does not fit a `u32`.
    IdOutOfRange,
    /// A string-valued key with another literal.
    ExpectsString(StrKey),
    /// `default` that is no numeric or bool literal.
    DefaultNotNumber,
    /// `chunk` with a literal that is not a bool.
    ChunkNotBool,
    /// A rejected `midi_cc` / `midi_source` / `midi_channel`.
    Midi(MidiAttrError),
    /// A key the attribute does not know.
    UnknownKey,
}

/// An error and the index of the entry it is about.
#[derive(Clone, Copy, Debug, PartialEq, Eq, Structural)]
pub struct AttrError {
    pub entry: usize,
    pub kind: AttrErrorKind,
}

/// The settings one parameter's attribute entries give.
#[derive(Debug)]
pub struct ParamAttrs {
    pub id: Option<u32>,
    pub name: Option<String>,
    pub short_name: Option<String>,
    pub group: Option<String>,
    pub range: Option<String>,
    /// The `default` value as `f64` bits.
    pub default_bits: Option<u64>,
    pub unit: Option<String>,
    pub flags: Option<String>,
    /// `chunk = false` marks a parameter too expensive to retarget
    /// mid-block; `None` means the default (`true`).
    pub chunk: Option<bool>,
    pub midi_map: Option<MidiBindKind>,
    /// The wire channel `0..=15` (the attribute says `1..=16`).
    pub midi_channel: Option<u8>,
    pub smooth: Option<String>,
    pub format_fn: Option<String>,
    pub parse_fn: Option<String>,
    pub errors: Vec<AttrError>,
}

/// [`ParamAttrs`] over character sequences.
#[verifier::ext_equal]
pub struct ParamAttrsModel {
    pub id: Option<u32>,
    pub name: Option<Seq<char>>,
    pub short_name: Option<Seq<char>>,
    pub group: Option<Seq<char>>,
    pub range: Option<Seq<char>>,
    pub default_bits: Option<u64>,
    pub unit: Option<Seq<char>>,
    pub flags: Option<Seq<char>>,
    pub chunk: Option<bool>,
    pub midi_map: Option<MidiBindKind>,
    pub midi_channel: Option<u8>,
    pub smooth: Option<Seq<char>>,
    pub format_fn: Option<Seq<char>>,
    pub parse_fn: Option<Seq<char>>,
    pub errors: Seq<AttrError>,
}

pub open spec fn opt_text(o: Option<String>) -> Option<Seq<char>> {
    match o {
        Some(s) => Some(s@),
        None => None,
    }
}

impl View for ParamAttrs {
    type V = ParamAttrsModel;

    open spec fn view(&self) -> ParamAttrsModel {
        ParamAttrsModel {
            id: self.id,
            name: opt_text(self.name),
            short_name: opt_text(self.short_name),
            group: opt_text(self.group),
            range: opt_text(self.range),
            default_bits: self.default_bits,
            unit: opt_text(self.unit),
            flags: opt_text(self.flags),
            chunk: self.chunk,
            midi_map: self.midi_map,
            midi_channel: self.midi_channel,
            smooth: opt_text(self.smooth),
            format_fn: opt_text(self.format_fn),
            parse_fn: opt_text(self.parse_fn),
            errors: self.errors@,
        }
    }
}

/// No entry read yet: nothing set, no error.
pub open spec fn no_attrs() -> ParamAttrsModel {
    ParamAttrsModel {
        id: None,
        name: None,
        short_name: None,
        group: None,
        range: None,
        default_bits: None,
        unit: None,
        flags: None,
        chunk: None,
        midi_map: None,
        midi_channel: None,
        smooth: None,
        format_fn: None,
        parse_fn: None,
        errors: Seq::empty(),
    }
}

/// The string-valued key spelled `key`, if it is one.
pub open spec fn str_key_of(key: Seq<char>) -> Option<StrKey> {
    if key == "name"@ {
        Some(StrKey::Name)
    } else if key == "short_name"@ {
        Some(StrKey::ShortName)
    } else if key == "group"@ {
        Some(StrKey::Group)
    } else if key == "range"@ {
        Some(StrKey::Range)
    } else if key == "unit"@ {
        Some(StrKey::Unit)
    } else if key == "flags"@ {
        Some(StrKey::Flags)
    } else if key == "smooth"@ {
        Some(StrKey::Smooth)
    } else if key == "format"@ {
        Some(StrKey::Format)
    } else if key == "parse"@ {
        Some(StrKey::Parse)
    } else {
        None
    }
}

/// `a` with the string key `k` set to `v`.
pub open spec fn with_text(a: ParamAttrsModel, k: StrKey, v: Seq<char>) -> ParamAttrsModel {
    match k {
        StrKey::Name => ParamAttrsModel { name: Some(v), ..a },
        StrKey::ShortName => ParamAttrsModel { short_name: Some(v), ..a },
        StrKey::Group => ParamAttrsModel { group: Some(v), ..a },
        StrKey::Range => ParamAttrsModel { range: Some(v), ..a },
        StrKey::Unit => ParamAttrsModel { unit: Some(v), ..a },
        StrKey::Flags => ParamAttrsModel { flags: Some(v), ..a },
        StrKey::Smooth => ParamAttrsModel { smooth: Some(v), ..a },
        StrKey::Format => ParamAttrsModel { format_fn: Some(v), ..a },
        StrKey::Parse => ParamAttrsModel { parse_fn: Some(v), ..a },
    }
}

/// `a` with one more error, about entry `entry`.
pub open spec fn with_error(a: ParamAttrsModel, entry: usize, kind: AttrErrorKind) -> ParamAttrsModel {
    ParamAttrsModel { errors: a.errors.push(AttrError { entry, kind }), ..a }
}

/// The literal a `midi_*` key sees: integers that do not fit a `u16` count
/// as out of range.
pub open spec fn midi_lit_of(lit: AttrLit) -> MidiLit {
    match lit {
        AttrLit::Int(Some(v)) => MidiLit::Int(if v <= 0xFFFF { Some(v as u16) } else { None }),
        AttrLit::Int(None) => MidiLit::Int(None),
        AttrLit::Str(s) => MidiLit::Str(s),
        _ => MidiLit::Other,
    }
}

pub open spec fn is_midi_key(key: Seq<char>) -> bool {
    key == "midi_cc"@ || key == "midi_source"@ || key == "midi_channel"@
}

/// What entry `entry`, `key = lit`, does to the settings read so far.
pub open spec fn attr_step(a: ParamAttrsModel, entry: usize, key: Seq<char>, lit: AttrLit) -> ParamAttrsModel {
    if key == "id"@ {
        match lit {
            AttrLit::Int(Some(v)) => if v <= u32::MAX {
                ParamAttrsModel { id: Some(v as u32), ..a }
            } else {
                with_error(a, entry, AttrErrorKind::IdOutOfRange)
            },
            AttrLit::Int(None) => with_error(a, entry, AttrErrorKind::IdOutOfRange),
            _ => with_error(a, entry, AttrErrorKind::IdNotInteger),
        }
    } else if str_key_of(key) is Some {
        match lit {
            AttrLit::Str(s) => with_text(a, str_key_of(key)->0, s@),
            _ => with_error(a, entry, AttrErrorKind::ExpectsString(str_key_of(key)->0)),
        }
    } else if key == "default"@ {
        match lit {
            AttrLit::FloatBits(Some(b)) => ParamAttrsModel { default_bits: Some(b), ..a },
            _ => with_error(a, entry, AttrErrorKind::DefaultNotNumber),
        }
    } else if key == "chunk"@ {
        match lit {
            AttrLit::Bool(b) => ParamAttrsModel { chunk: Some(b), ..a },
            _ => with_error(a, entry, AttrErrorKind::ChunkNotBool),
        }
    } else if is_midi_key(key) {
        match midi_attr_effect(key, midi_lit_of(lit), a.midi_map is Some) {
            MidiAttrEffect::Bind(k) => ParamAttrsModel { midi_map: Some(k), ..a },
            MidiAttrEffect::Channel(c) => ParamAttrsModel { midi_channel: Some(c), ..a },
            MidiAttrEffect::Fail(e) => with_error(a, entry, AttrErrorKind::Midi(e)),
        }
    } else {
        with_error(a, entry, AttrErrorKind::UnknownKey)
    }
}

/// The settings a list of entries gives, read in order.
pub open spec fn attrs_of(entries: Seq<(String, AttrLit)>) -> ParamAttrsModel
    decreases entries.len(),
{
    if entries.len() == 0 {
        no_attrs()
    } else {
        let n = (entries.len() - 1) as int;
        attr_step(attrs_of(entries.take(n)), n as usize, entries[n].0@, entries[n].1)
    }
}

fn str_key(key: &str) -> (r: Option<StrKey>)
    ensures
        r == str_key_of(key@),
{
    if str_equal(key, "name") {
        Some(StrKey::Name)
    } else if str_equal(key, "short_name") {
        Some(StrKey::ShortName)
    } else if str_equal(key, "group") {
        Some(StrKey::Group)
    } else if str_equal(key, "range") {
        Some(StrKey::Range)
    } else if str_equal(key, "unit") {
        Some(StrKey::Unit)
    } else if str_equal(key, "flags") {
        Some(StrKey::Flags)
    } else if str_equal(key, "smooth") {
        Some(StrKey::Smooth)
    } else if str_equal(key, "format") {
        Some(StrKey::Format)
    } else if str_equal(key, "parse") {
        Some(StrKey::Parse)
    } else {
        None
    }
}

impl ParamAttrs {
    /// Nothing set, no error.
    pub fn new() -> (a: Self)
        ensures
            a@ == no_attrs(),
    {
        ParamAttrs {
            id: None,
            name: None,
            short_name: None,
            group: None,
            range: None,
            default_bits: None,
            unit: None,
            flags: None,
            chunk: None,
            midi_map: None,
            midi_channel: None,
            smooth: None,
            format_fn: None,
            parse_fn: None,
            errors: Vec::new(),
        }
    }

    fn set_text(&mut self, k: StrKey, v: String)
        ensures
            final(self)@ == with_text(old(self)@, k, v@),
    {
        match k {
            StrKey::Name => self.name = Some(v),
            StrKey::ShortName => self.short_name = Some(v),
            StrKey::Group => self.group = Some(v),
            StrKey::Range => self.range = Some(v),
            StrKey::Unit => self.unit = Some(v),
            StrKey::Flags => self.flags = Some(v),
            StrKey::Smooth => self.smooth = Some(v),
            StrKey::Format => self.format_fn = Some(v),
            StrKey::Parse => self.parse_fn = Some(v),
        }
    }

    fn fail(&mut self, entry: usize, kind: AttrErrorKind)
        ensures
            final(self)@ == with_error(old(self)@, entry, kind),
    {
        self.errors.push(AttrError { entry, kind });
    }

    /// Read entry `entry`, `key = lit`.
    fn apply(&mut self, entry: usize, key: &str, lit: &AttrLit)
        ensures
            final(self)@ == attr_step(old(self)@, entry, key@, *lit),
    {
        let sk = str_key(key);
        if str_equal(key, "id") {
            match lit {
                AttrLit::Int(Some(v)) => {
                    if *v <= 0xFFFF_FFFFu64 {
                        self.id = Some(*v as u32);
                    } else {
                        self.fail(entry, AttrErrorKind::IdOutOfRange);
                    }
                },
                AttrLit::Int(None) => self.fail(entry, AttrErrorKind::IdOutOfRange),
                _ => self.fail(entry, AttrErrorKind::IdNotInteger),
            }
        } else if let Some(k) = sk {
            match lit {
                AttrLit::Str(s) => self.set_text(k, s.clone()),
                _ => self.fail(entry, AttrErrorKind::ExpectsString(k)),
            }
        } else if str_equal(key, "default") {
            match lit {
                AttrLit::FloatBits(Some(b)) => self.default_bits = Some(*b),
                _ => self.fail(entry, AttrErrorKind::DefaultNotNumber),
            }
        } else if str_equal(key, "chunk") {
            match lit {
                AttrLit::Bool(b) => self.chunk = Some(*b),
                _ => self.fail(entry, AttrErrorKind::ChunkNotBool),
            }
        } else if str_equal(key, "midi_cc") || str_equal(key, "midi_source") || str_equal(
            key,
            "midi_channel",
        ) {
            let ml = match lit {
                AttrLit::Int(Some(v)) => MidiLit::Int(
                    if *v <= 0xFFFFu64 {
                        Some(*v as u16)
                    } else {
                        None
                    },
                ),
                AttrLit::Int(None) => MidiLit::Int(None),
                AttrLit::Str(s) => MidiLit::Str(s.clone()),
                _ => MidiLit::Other,
            };
            proof {
                assert(ml == midi_lit_of(*lit));
            }
            let eff = midi_attr(key, &ml, self.midi_map.is_some());
            match eff {
                MidiAttrEffect::Bind(k) => self.midi_map = Some(k),
                MidiAttrEffect::Channel(c) => self.midi_channel = Some(c),
                MidiAttrEffect::Fail(e) => self.fail(entry, AttrErrorKind::Midi(e)),
            }
        } else {
            self.fail(entry, AttrErrorKind::UnknownKey);
        }
    }
}

/// Fold a parameter's attribute entries, in order, into its settings.
pub fn param_attrs(entries: &[(String, AttrLit)]) -> (a: ParamAttrs)
    ensures
        a@ == attrs_of(entries@),
{
    let mut a = ParamAttrs::new();
    let n = entries.len();
    let mut i: usize = 0;
    while i < n
        invariant
            0 <= i <= n,
            n == entries@.len(),
            a@ == attrs_of(entries@.take(i as int)),
        decreases n - i,
    {
        proof {
            assert(entries@.take(i + 1).take(i as int) == entries@.take(i as int));
        }
        a.apply(i, entries[i].0.as_str(), &entries[i].1);
        i = i + 1;
    }
    proof {
        assert(entries@.take(n as int) == entries@);
    }
    a
}

} // verus!

verus! {

// ---------------------------------------------------------------------------
// The parameter-info plan: the documented defaults applied
// ---------------------------------------------------------------------------

/// Why a parameter's attribute texts cannot make its info.
#[derive(Clone, Debug)]
pub enum PlanError {
    /// The `range` text is rejected.
    Range(RangeError),
    /// The `unit` text names no unit.
    Unit(String),
    /// The `flags` text holds this unknown flag name.
    Flag(String),
}

/// [`PlanError`] over character sequences.
pub enum PlanErrorModel {
    Range(RangeErrorModel),
    Unit(Seq<char>),
    Flag(Seq<char>),
}

pub open spec fn plan_error_model(e: PlanError) -> PlanErrorModel {
    match e {
        PlanError::Range(r) => PlanErrorModel::Range(error_model(r)),
        PlanError::Unit(u) => PlanErrorModel::Unit(u@),
        PlanError::Flag(f) => PlanErrorModel::Flag(f@),
    }
}

/// The parameter info a field's attributes describe, every unset key at
/// its documented default.
#[derive(Debug)]
pub struct ParamInfoPlan {
    /// `name`, or `"Unnamed"`.
    pub name: String,
    /// `short_name`, or the name.
    pub short_name: String,
    /// `group`, or `""`.
    pub group: String,
    /// The parsed `range`, when one is given.
    pub range: Option<ParsedRange>,
    /// The shape used without a `range`: `linear(0, 1)`, `discrete(0, 1)`
    /// for bools, `enum(variant count)` for enums.
    pub default_range: RangeKind,
    /// `default` as `f64` bits, or `0.0`.
    pub default_bits: u64,
    /// `unit`, or none.
    pub unit: ParamUnit,
    /// `flags` (or `automatable`), with `CHUNKED` unless `chunk = false`.
    pub flags: u32,
}

/// The range shape of a parameter kind without a `range` key.
pub open spec fn default_range_of(kind: ParamKind) -> RangeKind {
    match kind {
        ParamKind::Bool => RangeKind::Discrete,
        ParamKind::Enum => RangeKind::Enum,
        _ => RangeKind::Linear,
    }
}

/// The rejections of the given `range`, `unit` and `flags` texts, in that
/// order (empty when all are accepted).
pub open spec fn plan_errors(a: ParamAttrsModel) -> Seq<PlanErrorModel> {
    let r: Seq<PlanErrorModel> = match a.range {
        Some(t) => match range_of(t) {
            Err(e) => seq![PlanErrorModel::Range(e)],
            Ok(_) => Seq::empty(),
        },
        None => Seq::empty(),
    };
    let u: Seq<PlanErrorModel> = match a.unit {
        Some(t) => if unit_of(t) is None {
            seq![PlanErrorModel::Unit(t)]
        } else {
            Seq::empty()
        },
        None => Seq::empty(),
    };
    let f: Seq<PlanErrorModel> = match a.flags {
        Some(t) => match flags_of(t) {
            Err(name) => seq![PlanErrorModel::Flag(name)],
            Ok(_) => Seq::empty(),
        },
        None => Seq::empty(),
    };
    r + u + f
}

/// The flag bits of a parameter: its `flags` (or `automatable`), with
/// `CHUNKED` unless `chunk = false`.
pub open spec fn plan_flags(a: ParamAttrsModel) -> u32 {
    let base: u32 = match a.flags {
        Some(t) => match flags_of(t) {
            Ok(bits) => bits,
            Err(_) => 0,
        },
        None => AUTOMATABLE,
    };
    if a.chunk != Some(false) {
        base | CHUNKED
    } else {
        base
    }
}

pub open spec fn or_default(o: Option<Seq<char>>, d: Seq<char>) -> Seq<char> {
    match o {
        Some(s) => s,
        None => d,
    }
}

/// Apply the documented defaults to a field's attributes. `Err` holds every
/// rejected text (range, unit, flags, in that order), and comes exactly
/// when one is rejected.
pub fn param_info_plan(attrs: &ParamAttrs, kind: ParamKind) -> (p: Result<ParamInfoPlan, Vec<PlanError>>)
    ensures
        p is Ok <==> plan_errors(attrs@).len() == 0,
        p matches Err(es) ==> es@.map_values(|e: PlanError| plan_error_model(e)) == plan_errors(attrs@),
        p matches Ok(q) ==> {
            let a = attrs@;
            &&& q.name@ == or_default(a.name, "Unnamed"@)
            &&& q.short_name@ == or_default(a.short_name, q.name@)
            &&& q.group@ == or_default(a.group, ""@)
            &&& q.default_range == default_range_of(kind)
            &&& (a.range is None ==> q.range is None)
            &&& (a.range matches Some(t) ==> q.range matches Some(r) && range_of(t) == Ok::<
                (nat, RangeModel),
                RangeErrorModel,
            >((r.reversals as nat, spec_model(r.spec))))
            &&& q.default_bits == (match a.default_bits {
                Some(b) => b,
                None => 0u64,
            })
            &&& q.unit == (match a.unit {
                Some(t) => unit_of(t)->Some_0,
                None => ParamUnit::NoUnit,
            })
            &&& q.flags == plan_flags(a)
        },
{
    let mut errs: Vec<PlanError> = Vec::new();
    let ghost a = attrs@;
    let range = match &attrs.range {
        Some(t) => match parse_range(t.as_str()) {
            Ok(r) => Some(r),
            Err(e) => {
                errs.push(PlanError::Range(e));
                None
            },
        },
        None => None,
    };
    let ghost after_range = errs@;
    let unit = match &attrs.unit {
        Some(t) => match parse_unit(t.as_str()) {
            Some(u) => u,
            None => {
                errs.push(PlanError::Unit(t.clone()));
                ParamUnit::NoUnit
            },
        },
        None => ParamUnit::NoUnit,
    };
    let ghost after_unit = errs@;
    let base: u32 = match &attrs.flags {
        Some(t) => match parse_flags(t.as_str()) {
            Ok(f) => f.bits,
            Err(name) => {
                errs.push(PlanError::Flag(name));
                0
            },
        },
        None => AUTOMATABLE,
    };
    proof {
        let m = |e: PlanError| plan_error_model(e);
        let r: Seq<PlanErrorModel> = match a.range {
            Some(t) => match range_of(t) {
                Err(e) => seq![PlanErrorModel::Range(e)],
                Ok(_) => Seq::empty(),
            },
            None => Seq::empty(),
        };
        let u: Seq<PlanErrorModel> = match a.unit {
            Some(t) => if unit_of(t) is None {
                seq![PlanErrorModel::Unit(t)]
            } else {
                Seq::empty()
            },
            None => Seq::empty(),
        };
        let f: Seq<PlanErrorModel> = match a.flags {
            Some(t) => match flags_of(t) {
                Err(name) => seq![PlanErrorModel::Flag(name)],
                Ok(_) => Seq::empty(),
            },
            None => Seq::empty(),
        };
        assert(after_range.map_values(m) == r);
        assert(after_unit.map_values(m) == r + u);
        assert(errs@.map_values(m) == r + u + f);
    }
    if errs.len() > 0 {
        return Err(errs);
    }
    let name = match &attrs.name {
        Some(n) => n.clone(),
        None => String::from_str("Unnamed"),
    };
    let short_name = match &attrs.short_name {
        Some(s) => s.clone(),
        None => name.clone(),
    };
    let group = match &attrs.group {
        Some(g) => g.clone(),
        None => String::from_str(""),
    };
    let default_range = match kind {
        ParamKind::Bool => RangeKind::Discrete,
        ParamKind::Enum => RangeKind::Enum,
        _ => RangeKind::Linear,
    };
    let default_bits = match attrs.default_bits {
        Some(b) => b,
        None => 0,
    };
    let flags = if attrs.chunk != Some(false) {
        base | CHUNKED
    } else {
        base
    };
    Ok(ParamInfoPlan { name, short_name, group, range, default_range, default_bits, unit, flags })
}

} // verus!
