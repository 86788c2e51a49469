//! Decisions behind the `#[derive(Params)]` attribute language: identifier
//! casing, persistable scalar types, unit names and flag lists. Token
//! generation is the proc-macro's job; it reads these answers.

use vstd::prelude::*;
use vstd::string::StrSliceExecFns;
use crate::text::{char_uppercase, lowercase_of, str_equal, str_lowercase, str_trim, trimmed, uppercase_of};
use crate::params::{ParamFlags, AUTOMATABLE, HIDDEN, READONLY, IS_BYPASS, MODULATABLE, MODULATABLE_PER_NOTE};

verus! {

/// PascalCase of the `_`-separated words of `s`: the first character of
/// each word upper-cased, the rest kept, underscores dropped.
pub open spec fn pascal_of(s: Seq<char>, at_word_start: bool) -> Seq<char>
    decreases s.len(),
{
    if s.len() == 0 {
        Seq::empty()
    } else if s[0] == '_' {
        pascal_of(s.drop_first(), true)
    } else if at_word_start {
        uppercase_of(s[0]) + pascal_of(s.drop_first(), false)
    } else {
        seq![s[0]] + pascal_of(s.drop_first(), false)
    }
}

/// `s` without a leading raw-identifier marker `r#`.
pub open spec fn unraw(s: Seq<char>) -> Seq<char> {
    if s.len() >= 2 && s[0] == 'r' && s[1] == '#' {
        s.subrange(2, s.len() as int)
    } else {
        s
    }
}

proof fn lemma_pascal_step(s: Seq<char>, i: int, start: bool)
    requires
        0 <= i < s.len(),
    ensures
        pascal_of(s.subrange(i, s.len() as int), start) == if s[i] == '_' {
            pascal_of(s.subrange(i + 1, s.len() as int), true)
        } else if start {
            uppercase_of(s[i]) + pascal_of(s.subrange(i + 1, s.len() as int), false)
        } else {
            seq![s[i]] + pascal_of(s.subrange(i + 1, s.len() as int), false)
        },
{
    assert(s.subrange(i, s.len() as int).drop_first() =~= s.subrange(i + 1, s.len() as int));
}

/// `gain_db` / `r#type` → `GainDb` / `Type` for `*ParamId` variant names.
pub fn snake_to_pascal(ident: &str) -> (r: String)
    ensures
        r@ == pascal_of(unraw(ident@), true),
{
    let full = ident.unicode_len();
    let s: &str = if full >= 2 && ident.get_char(0) == 'r' && ident.get_char(1) == '#' {
        ident.substring_char(2, full)
    } else {
        ident
    };
    proof {
        assert(s@ == unraw(ident@));
    }
    let n = s.unicode_len();
    let mut out = String::new();
    let mut start = true;
    let mut i: usize = 0;
    proof {
        assert(s@.subrange(0, n as int) =~= s@);
    }
    while i < n
        invariant
            0 <= i <= n,
            n == s@.len(),
            out@ + pascal_of(s@.subrange(i as int, n as int), start) == pascal_of(s@, true),
        decreases n - i,
    {
        let c = s.get_char(i);
        proof {
            lemma_pascal_step(s@, i as int, start);
        }
        if c == '_' {
            start = true;
        } else if start {
            let up = char_uppercase(c);
            out.append(up.as_str());
            start = false;
            proof {
                assert(out@ + pascal_of(s@.subrange(i + 1, n as int), start) =~= pascal_of(s@, true));
            }
        } else {
            let one = s.substring_char(i, i + 1);
            proof {
                assert(one@ =~= seq![c]);
            }
            out.append(one);
            proof {
                assert(out@ + pascal_of(s@.subrange(i + 1, n as int), start) =~= pascal_of(s@, true));
            }
        }
        i = i + 1;
    }
    proof {
        assert(pascal_of(s@.subrange(n as int, n as int), start) =~= Seq::<char>::empty());
        assert(out@ =~= pascal_of(s@, true));
    }
    out
}

/// The scalar types the persist codec can read / write.
#[derive(Clone, Copy, Debug, PartialEq, Eq, Structural)]
pub enum PersistScalar {
    Bool,
    U8,
    U16,
    U32,
    U64,
    I8,
    I16,
    I32,
    I64,
    F32,
    F64,
    String,
}

/// The scalar named by a type identifier.
pub open spec fn persist_scalar_of(name: Seq<char>) -> Option<PersistScalar> {
    if name == "bool"@ {
        Some(PersistScalar::Bool)
    } else if name == "u8"@ {
        Some(PersistScalar::U8)
    } else if name == "u16"@ {
        Some(PersistScalar::U16)
    } else if name == "u32"@ {
        Some(PersistScalar::U32)
    } else if name == "u64"@ {
        Some(PersistScalar::U64)
    } else if name == "i8"@ {
        Some(PersistScalar::I8)
    } else if name == "i16"@ {
        Some(PersistScalar::I16)
    } else if name == "i32"@ {
        Some(PersistScalar::I32)
    } else if name == "i64"@ {
        Some(PersistScalar::I64)
    } else if name == "f32"@ {
        Some(PersistScalar::F32)
    } else if name == "f64"@ {
        Some(PersistScalar::F64)
    } else if name == "String"@ {
        Some(PersistScalar::String)
    } else {
        None
    }
}

pub open spec fn byte_width_of(s: PersistScalar) -> Option<usize> {
    match s {
        PersistScalar::Bool | PersistScalar::U8 | PersistScalar::I8 => Some(1),
        PersistScalar::U16 | PersistScalar::I16 => Some(2),
        PersistScalar::U32 | PersistScalar::I32 | PersistScalar::F32 => Some(4),
        PersistScalar::U64 | PersistScalar::I64 | PersistScalar::F64 => Some(8),
        PersistScalar::String => None,
    }
}

impl PersistScalar {
    pub fn from_ident(name: &str) -> (r: Option<Self>)
        ensures
            r == persist_scalar_of(name@),
    {
        if str_equal(name, "bool") {
            Some(PersistScalar::Bool)
        } else if str_equal(name, "u8") {
            Some(PersistScalar::U8)
        } else if str_equal(name, "u16") {
            Some(PersistScalar::U16)
        } else if str_equal(name, "u32") {
            Some(PersistScalar::U32)
        } else if str_equal(name, "u64") {
            Some(PersistScalar::U64)
        } else if str_equal(name, "i8") {
            Some(PersistScalar::I8)
        } else if str_equal(name, "i16") {
            Some(PersistScalar::I16)
        } else if str_equal(name, "i32") {
            Some(PersistScalar::I32)
        } else if str_equal(name, "i64") {
            Some(PersistScalar::I64)
        } else if str_equal(name, "f32") {
            Some(PersistScalar::F32)
        } else if str_equal(name, "f64") {
            Some(PersistScalar::F64)
        } else if str_equal(name, "String") {
            Some(PersistScalar::String)
        } else {
            None
        }
    }

    /// Byte width of the little-endian encoding; `None` for the
    /// variable-width `String`.
    pub fn byte_width(self) -> (w: Option<usize>)
        ensures
            w == byte_width_of(self),
    {
        match self {
            PersistScalar::Bool | PersistScalar::U8 | PersistScalar::I8 => Some(1),
            PersistScalar::U16 | PersistScalar::I16 => Some(2),
            PersistScalar::U32 | PersistScalar::I32 | PersistScalar::F32 => Some(4),
            PersistScalar::U64 | PersistScalar::I64 | PersistScalar::F64 => Some(8),
            PersistScalar::String => None,
        }
    }
}

/// The kind of parameter a field type declares.
#[derive(Clone, Copy, Debug, PartialEq, Eq, Structural)]
pub enum ParamKind {
    Float,
    Bool,
    Int,
    Enum,
}

pub open spec fn param_kind_of(name: Seq<char>) -> Option<ParamKind> {
    if name == "FloatParam"@ {
        Some(ParamKind::Float)
    } else if name == "BoolParam"@ {
        Some(ParamKind::Bool)
    } else if name == "IntParam"@ {
        Some(ParamKind::Int)
    } else if name == "EnumParam"@ {
        Some(ParamKind::Enum)
    } else {
        None
    }
}

/// The parameter kind named by the last path segment of a field's type.
pub fn classify_param_type(ty_segment: &str) -> (r: Option<ParamKind>)
    ensures
        r == param_kind_of(ty_segment@),
{
    if str_equal(ty_segment, "FloatParam") {
        Some(ParamKind::Float)
    } else if str_equal(ty_segment, "BoolParam") {
        Some(ParamKind::Bool)
    } else if str_equal(ty_segment, "IntParam") {
        Some(ParamKind::Int)
    } else if str_equal(ty_segment, "EnumParam") {
        Some(ParamKind::Enum)
    } else {
        None
    }
}

/// The lock a `#[persist]` field is wrapped in (restoring goes through
/// `&self`).
#[derive(Clone, Copy, Debug, PartialEq, Eq, Structural)]
pub enum PersistWrapper {
    RwLock,
    Mutex,
}

pub open spec fn persist_type_of(wrapper: Seq<char>, inner: Option<Seq<char>>) -> Option<
    (PersistWrapper, PersistScalar),
> {
    let w = if wrapper == "RwLock"@ {
        Some(PersistWrapper::RwLock)
    } else if wrapper == "Mutex"@ {
        Some(PersistWrapper::Mutex)
    } else {
        None
    };
    match (w, inner) {
        (Some(w), Some(i)) => match persist_scalar_of(i) {
            Some(sc) => Some((w, sc)),
            None => None,
        },
        _ => None,
    }
}

/// A `#[persist]` field type from the last segment of its path and of its
/// first generic argument (`None` when there is none): `RwLock<T>` or
/// `Mutex<T>` with a persistable scalar `T`; anything else is refused.
pub fn persist_type(wrapper: &str, inner: Option<&str>) -> (r: Option<(PersistWrapper, PersistScalar)>)
    ensures
        r == persist_type_of(
            wrapper@,
            match inner {
                Some(i) => Some(i@),
                None => None,
            },
        ),
{
    let w = if str_equal(wrapper, "RwLock") {
        PersistWrapper::RwLock
    } else if str_equal(wrapper, "Mutex") {
        PersistWrapper::Mutex
    } else {
        return None;
    };
    match inner {
        Some(i) => match PersistScalar::from_ident(i) {
            Some(sc) => Some((w, sc)),
            None => None,
        },
        None => None,
    }
}

/// Display unit of a parameter.
#[derive(Clone, Copy, Debug, PartialEq, Eq, Structural)]
pub enum ParamUnit {
    NoUnit,
    Db,
    Hz,
    Milliseconds,
    Seconds,
    Percent,
    Semitones,
    Pan,
    Degrees,
}

pub open spec fn unit_of(u: Seq<char>) -> Option<ParamUnit> {
    if u == "dB"@ || u == "Db"@ || u == "db"@ {
        Some(ParamUnit::Db)
    } else if u == "Hz"@ || u == "hz"@ {
        Some(ParamUnit::Hz)
    } else if u == "ms"@ {
        Some(ParamUnit::Milliseconds)
    } else if u == "s"@ {
        Some(ParamUnit::Seconds)
    } else if u == "%"@ {
        Some(ParamUnit::Percent)
    } else if u == "st"@ {
        Some(ParamUnit::Semitones)
    } else if u == "pan"@ {
        Some(ParamUnit::Pan)
    } else if u == "deg"@ || u == seq!['\u{b0}'] {
        Some(ParamUnit::Degrees)
    } else if u.len() == 0 || u == "none"@ {
        Some(ParamUnit::NoUnit)
    } else {
        None
    }
}

/// The unit a `unit = "…"` attribute names; `None` for an unknown name
/// (a compile error in the derive — typos must not silently lose the unit).
pub fn parse_unit(unit: &str) -> (r: Option<ParamUnit>)
    ensures
        r == unit_of(unit@),
{
    if str_equal(unit, "dB") || str_equal(unit, "Db") || str_equal(unit, "db") {
        Some(ParamUnit::Db)
    } else if str_equal(unit, "Hz") || str_equal(unit, "hz") {
        Some(ParamUnit::Hz)
    } else if str_equal(unit, "ms") {
        Some(ParamUnit::Milliseconds)
    } else if str_equal(unit, "s") {
        Some(ParamUnit::Seconds)
    } else if str_equal(unit, "%") {
        Some(ParamUnit::Percent)
    } else if str_equal(unit, "st") {
        Some(ParamUnit::Semitones)
    } else if str_equal(unit, "pan") {
        Some(ParamUnit::Pan)
    } else if str_equal(unit, "deg") || (unit.unicode_len() == 1 && unit.get_char(0) == '\u{b0}') {
        proof {
            if unit@.len() == 1 && unit@[0] == '\u{b0}' {
                assert(unit@ =~= seq!['\u{b0}']);
            }
        }
        Some(ParamUnit::Degrees)
    } else if unit.unicode_len() == 0 || str_equal(unit, "none") {
        Some(ParamUnit::NoUnit)
    } else {
        proof {
            if unit@ == seq!['\u{b0}'] {
                assert(unit@.len() == 1 && unit@[0] == '\u{b0}');
            }
        }
        None
    }
}

/// Flag bits one lower-cased, trimmed flag name sets (`Some(0)` for an
/// empty segment, `None` for an unknown name).
pub open spec fn flag_bits_of(name: Seq<char>) -> Option<u32> {
    if name == "automatable"@ {
        Some(AUTOMATABLE)
    } else if name == "hidden"@ {
        Some(HIDDEN)
    } else if name == "readonly"@ {
        Some(READONLY)
    } else if name == "bypass"@ {
        Some(IS_BYPASS)
    } else if name == "modulatable"@ {
        Some(MODULATABLE)
    } else if name == "modulatable_per_note"@ {
        Some(MODULATABLE | MODULATABLE_PER_NOTE)
    } else if name.len() == 0 {
        Some(0)
    } else {
        None
    }
}

fn flag_bits(name: &str) -> (r: Option<u32>)
    ensures
        r == flag_bits_of(name@),
{
    if str_equal(name, "automatable") {
        Some(AUTOMATABLE)
    } else if str_equal(name, "hidden") {
        Some(HIDDEN)
    } else if str_equal(name, "readonly") {
        Some(READONLY)
    } else if str_equal(name, "bypass") {
        Some(IS_BYPASS)
    } else if str_equal(name, "modulatable") {
        Some(MODULATABLE)
    } else if str_equal(name, "modulatable_per_note") {
        Some(MODULATABLE | MODULATABLE_PER_NOTE)
    } else if name.unicode_len() == 0 {
        Some(0)
    } else {
        None
    }
}

/// `k` is the first `'|'` at or after `from` (`s.len()` if none).
pub open spec fn is_next_bar(s: Seq<char>, from: int, k: int) -> bool {
    &&& from <= k <= s.len()
    &&& forall|j: int| from <= j < k ==> #[trigger] s[j] != '|'
    &&& k < s.len() ==> s[k] == '|'
}

pub open spec fn next_bar(s: Seq<char>, from: int) -> int {
    choose|k: int| is_next_bar(s, from, k)
}

proof fn lemma_next_bar(s: Seq<char>, from: int, k: int)
    requires
        is_next_bar(s, from, k),
    ensures
        next_bar(s, from) == k,
{
    let c = next_bar(s, from);
    assert(is_next_bar(s, from, c));
    if c < k {
        assert(s[c] != '|');
    } else if k < c {
        assert(s[k] != '|');
    }
}

/// Folding the `|`-separated segments from position `from` on into
/// `(bits, any_named)`; `Err(name)` at the first unknown name.
pub open spec fn flags_from(s: Seq<char>, from: int, bits: u32, any: bool) -> Result<(u32, bool), Seq<char>>
    decreases s.len() + 1 - from,
{
    if from < 0 || from > s.len() {
        Ok((bits, any))
    } else {
        let k = next_bar(s, from);
        let name = lowercase_of(trimmed(s.subrange(from, k)));
        match flag_bits_of(name) {
            None => Err(name),
            Some(b) => {
                let any2 = any || name.len() != 0;
                if k < s.len() {
                    if k + 1 > from {
                        flags_from(s, k + 1, bits | b, any2)
                    } else {
                        Ok((bits | b, any2))
                    }
                } else {
                    Ok((bits | b, any2))
                }
            },
        }
    }
}

/// The flags a `flags = "a | b"` attribute sets: names are trimmed and
/// lower-cased, empty segments ignored, none at all means automatable.
pub open spec fn flags_of(s: Seq<char>) -> Result<u32, Seq<char>> {
    match flags_from(s, 0, 0, false) {
        Ok((bits, any)) => Ok(if any { bits } else { AUTOMATABLE }),
        Err(name) => Err(name),
    }
}

/// Parse a `flags = "…"` attribute; `Err` carries the first unknown flag
/// name (a compile error in the derive).
pub fn parse_flags(flags: &str) -> (r: Result<ParamFlags, String>)
    ensures
        r matches Ok(f) ==> flags_of(flags@) == Ok::<u32, Seq<char>>(f.bits),
        r matches Err(e) ==> flags_of(flags@) == Err::<u32, Seq<char>>(e@),
{
    let n = flags.unicode_len();
    let mut bits: u32 = 0;
    let mut any = false;
    let mut from: usize = 0;
    loop
        invariant
            0 <= from <= n,
            n == flags@.len(),
            flags_from(flags@, 0, 0, false) == flags_from(flags@, from as int, bits, any),
        decreases n + 1 - from,
    {
        let mut k = from;
        while k < n && flags.get_char(k) != '|'
            invariant
                from <= k <= n,
                n == flags@.len(),
                forall|j: int| from <= j < k ==> #[trigger] flags@[j] != '|',
            decreases n - k,
        {
            k = k + 1;
        }
        proof {
            lemma_next_bar(flags@, from as int, k as int);
        }
        let seg = flags.substring_char(from, k);
        let lowered = str_lowercase(str_trim(seg));
        match flag_bits(lowered.as_str()) {
            None => {
                return Err(lowered);
            },
            Some(b) => {
                bits = bits | b;
                if lowered.as_str().unicode_len() != 0 {
                    any = true;
                }
                if k < n {
                    from = k + 1;
                } else {
                    let f = if any { bits } else { AUTOMATABLE };
                    return Ok(ParamFlags::from_bits(f));
                }
            },
        }
    }
}

} // verus!
