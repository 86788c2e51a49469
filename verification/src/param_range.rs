//! The `range = "…"` attribute language of `#[derive(Params)]`:
//! `linear(min, max)`, `log(min, max)`, `discrete(min, max)`,
//! `enum(count)`, `skewed(min, max, factor)`,
//! `sym_skewed(min, max, factor, center)` and `reversed(<range>)`.
//!
//! This module decides the shape, the argument count and the integer
//! shapes completely. Arguments of the floating-point shapes are handed back
//! as their trimmed texts; reading them as `f64` and checking their order
//! is the derive's part.

use vstd::prelude::*;
use vstd::string::StrSliceExecFns;
use crate::text::{decimal_of, parse_i64, parse_usize, str_trim, trimmed};

verus! {

/// A range shape.
#[derive(Clone, Copy, Debug, PartialEq, Eq, Structural)]
pub enum RangeKind {
    Linear,
    Log,
    Discrete,
    Enum,
    Skewed,
    SymSkewed,
}

/// Arguments a shape takes (`enum` takes a single count).
pub open spec fn arity(k: RangeKind) -> nat {
    match k {
        RangeKind::Linear | RangeKind::Log | RangeKind::Discrete => 2,
        RangeKind::Enum => 1,
        RangeKind::Skewed => 3,
        RangeKind::SymSkewed => 4,
    }
}

/// A parsed range. Floating-point shapes keep their trimmed argument texts.
#[derive(Clone, Debug)]
pub enum RangeSpec {
    Float { kind: RangeKind, args: Vec<String> },
    Discrete { min: i64, max: i64 },
    Enum { count: usize },
}

/// A range with the number of `reversed(…)` wrappers around it.
#[derive(Clone, Debug)]
pub struct ParsedRange {
    pub reversals: usize,
    pub spec: RangeSpec,
}

/// Why a range attribute is rejected.
#[derive(Clone, Debug)]
pub enum RangeError {
    /// Wrong number of arguments; `inner` is the text between the parentheses.
    Arity { kind: RangeKind, inner: String },
    /// A `discrete` bound is not an `i64` (`index` 0: min, 1: max).
    NotInteger { index: usize, text: String },
    /// `discrete` with `min >= max`.
    DiscreteOrder { min: i64, max: i64 },
    /// The `enum` count is not a non-negative integer (its trimmed text).
    EnumCount { text: String },
    /// `enum` with fewer than two variants.
    EnumTooFew { count: usize },
    /// No known shape; the text that was examined.
    Unknown { range: String },
}

/// [`RangeSpec`] over character sequences.
pub enum RangeModel {
    Float { kind: RangeKind, args: Seq<Seq<char>> },
    Discrete { min: i64, max: i64 },
    Enum { count: usize },
}

/// [`RangeError`] over character sequences.
pub enum RangeErrorModel {
    Arity { kind: RangeKind, inner: Seq<char> },
    NotInteger { index: usize, text: Seq<char> },
    DiscreteOrder { min: i64, max: i64 },
    EnumCount { text: Seq<char> },
    EnumTooFew { count: usize },
    Unknown { range: Seq<char> },
}

pub open spec fn texts(v: Seq<String>) -> Seq<Seq<char>> {
    v.map_values(|s: String| s@)
}

pub open spec fn spec_model(r: RangeSpec) -> RangeModel {
    match r {
        RangeSpec::Float { kind, args } => RangeModel::Float { kind, args: texts(args@) },
        RangeSpec::Discrete { min, max } => RangeModel::Discrete { min, max },
        RangeSpec::Enum { count } => RangeModel::Enum { count },
    }
}

pub open spec fn error_model(e: RangeError) -> RangeErrorModel {
    match e {
        RangeError::Arity { kind, inner } => RangeErrorModel::Arity { kind, inner: inner@ },
        RangeError::NotInteger { index, text } => RangeErrorModel::NotInteger { index, text: text@ },
        RangeError::DiscreteOrder { min, max } => RangeErrorModel::DiscreteOrder { min, max },
        RangeError::EnumCount { text } => RangeErrorModel::EnumCount { text: text@ },
        RangeError::EnumTooFew { count } => RangeErrorModel::EnumTooFew { count },
        RangeError::Unknown { range } => RangeErrorModel::Unknown { range: range@ },
    }
}

/// The text between `prefix` and a final `)`, when `s` has that form.
pub open spec fn call_args(s: Seq<char>, prefix: Seq<char>) -> Option<Seq<char>> {
    if s.len() > prefix.len() && s.subrange(0, prefix.len() as int) == prefix && s[s.len() - 1]
        == ')' {
        Some(s.subrange(prefix.len() as int, s.len() - 1))
    } else {
        None
    }
}

/// `k` is the first `,` at or after `from` (`s.len()` if none).
pub open spec fn is_next_comma(s: Seq<char>, from: int, k: int) -> bool {
    &&& from <= k <= s.len()
    &&& forall|j: int| from <= j < k ==> #[trigger] s[j] != ','
    &&& k < s.len() ==> s[k] == ','
}

pub open spec fn next_comma(s: Seq<char>, from: int) -> int {
    choose|k: int| is_next_comma(s, from, k)
}

proof fn lemma_next_comma(s: Seq<char>, from: int, k: int)
    requires
        is_next_comma(s, from, k),
    ensures
        next_comma(s, from) == k,
{
    let c = next_comma(s, from);
    assert(is_next_comma(s, from, c));
    if c < k {
        assert(s[c] != ',');
    } else if k < c {
        assert(s[k] != ',');
    }
}

/// The comma-separated pieces of `s` from `from` on (`str::split(',')`).
pub open spec fn pieces_from(s: Seq<char>, from: int) -> Seq<Seq<char>>
    decreases s.len() + 1 - from,
{
    if from < 0 || from > s.len() {
        Seq::empty()
    } else {
        let k = next_comma(s, from);
        if k < s.len() && k + 1 > from {
            seq![s.subrange(from, k)] + pieces_from(s, k + 1)
        } else {
            seq![s.subrange(from, k)]
        }
    }
}

/// The trimmed comma-separated arguments of a call's inner text.
pub open spec fn args_of(inner: Seq<char>) -> Seq<Seq<char>> {
    pieces_from(inner, 0).map_values(|p: Seq<char>| trimmed(p))
}

pub open spec fn i64_of(t: Seq<char>) -> Option<i64> {
    match decimal_of(t, true) {
        Some(v) => if i64::MIN <= v <= i64::MAX {
            Some(v as i64)
        } else {
            None
        },
        None => None,
    }
}

pub open spec fn usize_of(t: Seq<char>) -> Option<usize> {
    match decimal_of(t, false) {
        Some(v) => if v <= usize::MAX {
            Some(v as usize)
        } else {
            None
        },
        None => None,
    }
}

pub open spec fn float_shape(kind: RangeKind, inner: Seq<char>) -> Result<(nat, RangeModel), RangeErrorModel> {
    let a = args_of(inner);
    if a.len() != arity(kind) {
        Err(RangeErrorModel::Arity { kind, inner })
    } else {
        Ok((0, RangeModel::Float { kind, args: a }))
    }
}

pub open spec fn discrete_shape(inner: Seq<char>) -> Result<(nat, RangeModel), RangeErrorModel> {
    let a = args_of(inner);
    if a.len() != 2 {
        Err(RangeErrorModel::Arity { kind: RangeKind::Discrete, inner })
    } else {
        match i64_of(a[0]) {
            None => Err(RangeErrorModel::NotInteger { index: 0, text: a[0] }),
            Some(min) => match i64_of(a[1]) {
                None => Err(RangeErrorModel::NotInteger { index: 1, text: a[1] }),
                Some(max) => if min >= max {
                    Err(RangeErrorModel::DiscreteOrder { min, max })
                } else {
                    Ok((0, RangeModel::Discrete { min, max }))
                },
            },
        }
    }
}

pub open spec fn enum_shape(inner: Seq<char>) -> Result<(nat, RangeModel), RangeErrorModel> {
    let t = trimmed(inner);
    match usize_of(t) {
        None => Err(RangeErrorModel::EnumCount { text: t }),
        Some(count) => if count < 2 {
            Err(RangeErrorModel::EnumTooFew { count })
        } else {
            Ok((0, RangeModel::Enum { count }))
        },
    }
}

/// What a range attribute denotes: the shapes are tried in the order
/// `linear`, `log`, `discrete`, `enum`, `skewed`, `sym_skewed`,
/// `reversed`; a `reversed(…)` wraps the (trimmed) inner range.
pub open spec fn range_of(s: Seq<char>) -> Result<(nat, RangeModel), RangeErrorModel>
    decreases s.len(),
{
    if let Some(inner) = call_args(s, "linear("@) {
        float_shape(RangeKind::Linear, inner)
    } else if let Some(inner) = call_args(s, "log("@) {
        float_shape(RangeKind::Log, inner)
    } else if let Some(inner) = call_args(s, "discrete("@) {
        discrete_shape(inner)
    } else if let Some(inner) = call_args(s, "enum("@) {
        enum_shape(inner)
    } else if let Some(inner) = call_args(s, "skewed("@) {
        float_shape(RangeKind::Skewed, inner)
    } else if let Some(inner) = call_args(s, "sym_skewed("@) {
        float_shape(RangeKind::SymSkewed, inner)
    } else if let Some(inner) = call_args(s, "reversed("@) {
        let t = trimmed(inner);
        if t.len() < s.len() {
            match range_of(t) {
                Ok((n, m)) => Ok((n + 1, m)),
                Err(e) => Err(e),
            }
        } else {
            Err(RangeErrorModel::Unknown { range: s })
        }
    } else {
        Err(RangeErrorModel::Unknown { range: s })
    }
}

/// `reversed(r)` denotes what `r` denotes, wrapped once more (for an `r`
/// without surrounding whitespace).
pub proof fn lemma_reversed_wraps(r: Seq<char>)
    requires
        trimmed(r) == r,
    ensures
        range_of("reversed("@ + r + ")"@) == match range_of(r) {
            Ok((n, m)) => Ok::<(nat, RangeModel), RangeErrorModel>((n + 1, m)),
            Err(e) => Err(e),
        },
{
    reveal_strlit("reversed(");
    reveal_strlit(")");
    reveal_strlit("linear(");
    reveal_strlit("log(");
    reveal_strlit("discrete(");
    reveal_strlit("enum(");
    reveal_strlit("skewed(");
    reveal_strlit("sym_skewed(");
    let s = "reversed("@ + r + ")"@;
    assert(s[0] == 'r');
    assert(s.subrange(0, 9) =~= "reversed("@);
    assert(s.subrange(9, s.len() - 1) =~= r);
    assert(s.subrange(0, 7) != "linear("@) by {
        assert(s.subrange(0, 7)[0] != "linear("@[0]);
    }
    assert(s.subrange(0, 4) != "log("@) by {
        assert(s.subrange(0, 4)[0] != "log("@[0]);
    }
    assert(s.subrange(0, 9) != "discrete("@) by {
        assert(s.subrange(0, 9)[0] != "discrete("@[0]);
    }
    assert(s.subrange(0, 5) != "enum("@) by {
        assert(s.subrange(0, 5)[0] != "enum("@[0]);
    }
    assert(s.subrange(0, 7) != "skewed("@) by {
        assert(s.subrange(0, 7)[0] != "skewed("@[0]);
    }
    if s.len() > 11 {
        assert(s.subrange(0, 11) != "sym_skewed("@) by {
            assert(s.subrange(0, 11)[0] != "sym_skewed("@[0]);
        }
    }
}

fn strip_call<'a>(s: &'a str, prefix: &str) -> (r: Option<&'a str>)
    ensures
        r matches Some(t) ==> call_args(s@, prefix@) == Some(t@),
        r is None ==> call_args(s@, prefix@) is None,
{
    let n = s.unicode_len();
    let p = prefix.unicode_len();
    if n <= p {
        return None;
    }
    let mut i: usize = 0;
    while i < p
        invariant
            0 <= i <= p,
            p < n,
            n == s@.len(),
            p == prefix@.len(),
            forall|j: int| 0 <= j < i ==> s@[j] == prefix@[j],
        decreases p - i,
    {
        if s.get_char(i) != prefix.get_char(i) {
            proof {
                assert(s@.subrange(0, p as int)[i as int] != prefix@[i as int]);
            }
            return None;
        }
        i = i + 1;
    }
    proof {
        assert(s@.subrange(0, p as int) =~= prefix@);
    }
    if s.get_char(n - 1) != ')' {
        return None;
    }
    Some(s.substring_char(p, n - 1))
}

fn split_args(inner: &str) -> (v: Vec<String>)
    ensures
        texts(v@) == args_of(inner@),
{
    let n = inner.unicode_len();
    let mut v: Vec<String> = Vec::new();
    let mut from: usize = 0;
    loop
        invariant
            0 <= from <= n,
            n == inner@.len(),
            args_of(inner@) == texts(v@) + pieces_from(inner@, from as int).map_values(
                |p: Seq<char>| trimmed(p),
            ),
        decreases n + 1 - from,
    {
        let mut k = from;
        while k < n && inner.get_char(k) != ','
            invariant
                from <= k <= n,
                n == inner@.len(),
                forall|j: int| from <= j < k ==> #[trigger] inner@[j] != ',',
            decreases n - k,
        {
            k = k + 1;
        }
        proof {
            lemma_next_comma(inner@, from as int, k as int);
        }
        let piece = str_trim(inner.substring_char(from, k)).to_owned();
        let ghost before = v@;
        v.push(piece);
        proof {
            let rest = pieces_from(inner@, from as int);
            assert(texts(v@) =~= texts(before).push(piece@));
            if k < n {
                assert(rest =~= seq![inner@.subrange(from as int, k as int)] + pieces_from(
                    inner@,
                    k + 1,
                ));
                assert(rest.map_values(|p: Seq<char>| trimmed(p)) =~= seq![piece@]
                    + pieces_from(inner@, k + 1).map_values(|p: Seq<char>| trimmed(p)));
            } else {
                assert(rest =~= seq![inner@.subrange(from as int, k as int)]);
                assert(rest.map_values(|p: Seq<char>| trimmed(p)) =~= seq![piece@]);
            }
        }
        if k < n {
            from = k + 1;
        } else {
            proof {
                assert(pieces_from(inner@, (n + 1) as int) =~= Seq::<Seq<char>>::empty());
                assert(args_of(inner@) =~= texts(v@));
            }
            return v;
        }
    }
}

fn float_range(kind: RangeKind, inner: &str) -> (r: Result<ParsedRange, RangeError>)
    requires
        kind != RangeKind::Discrete && kind != RangeKind::Enum,
    ensures
        r matches Ok(p) ==> float_shape(kind, inner@) == Ok::<(nat, RangeModel), RangeErrorModel>(
            (p.reversals as nat, spec_model(p.spec)),
        ),
        r matches Err(e) ==> float_shape(kind, inner@) == Err::<(nat, RangeModel), RangeErrorModel>(
            error_model(e),
        ),
{
    let args = split_args(inner);
    let want: usize = match kind {
        RangeKind::Skewed => 3,
        RangeKind::SymSkewed => 4,
        _ => 2,
    };
    if args.len() != want {
        return Err(RangeError::Arity { kind, inner: inner.to_owned() });
    }
    Ok(ParsedRange { reversals: 0, spec: RangeSpec::Float { kind, args } })
}

fn discrete_range(inner: &str) -> (r: Result<ParsedRange, RangeError>)
    ensures
        r matches Ok(p) ==> discrete_shape(inner@) == Ok::<(nat, RangeModel), RangeErrorModel>(
            (p.reversals as nat, spec_model(p.spec)),
        ),
        r matches Err(e) ==> discrete_shape(inner@) == Err::<(nat, RangeModel), RangeErrorModel>(
            error_model(e),
        ),
{
    let args = split_args(inner);
    if args.len() != 2 {
        return Err(RangeError::Arity { kind: RangeKind::Discrete, inner: inner.to_owned() });
    }
    proof {
        assert(texts(args@)[0] == args@[0]@);
        assert(texts(args@)[1] == args@[1]@);
    }
    let min = match parse_i64(args[0].as_str()) {
        Some(x) => x,
        None => {
            return Err(RangeError::NotInteger { index: 0, text: args[0].clone() });
        },
    };
    let max = match parse_i64(args[1].as_str()) {
        Some(x) => x,
        None => {
            return Err(RangeError::NotInteger { index: 1, text: args[1].clone() });
        },
    };
    if min >= max {
        return Err(RangeError::DiscreteOrder { min, max });
    }
    Ok(ParsedRange { reversals: 0, spec: RangeSpec::Discrete { min, max } })
}

fn enum_range(inner: &str) -> (r: Result<ParsedRange, RangeError>)
    ensures
        r matches Ok(p) ==> enum_shape(inner@) == Ok::<(nat, RangeModel), RangeErrorModel>(
            (p.reversals as nat, spec_model(p.spec)),
        ),
        r matches Err(e) ==> enum_shape(inner@) == Err::<(nat, RangeModel), RangeErrorModel>(
            error_model(e),
        ),
{
    let t = str_trim(inner);
    let count = match parse_usize(t) {
        Some(c) => c,
        None => {
            return Err(RangeError::EnumCount { text: t.to_owned() });
        },
    };
    if count < 2 {
        return Err(RangeError::EnumTooFew { count });
    }
    Ok(ParsedRange { reversals: 0, spec: RangeSpec::Enum { count } })
}

/// Parse a `range = "…"` attribute.
pub fn parse_range(range: &str) -> (r: Result<ParsedRange, RangeError>)
    ensures
        r matches Ok(p) ==> range_of(range@) == Ok::<(nat, RangeModel), RangeErrorModel>(
            (p.reversals as nat, spec_model(p.spec)),
        ) && p.reversals < range@.len(),
        r matches Err(e) ==> range_of(range@) == Err::<(nat, RangeModel), RangeErrorModel>(
            error_model(e),
        ),
    decreases range@.len(),
{
    proof {
        reveal_strlit("linear(");
        reveal_strlit("log(");
        reveal_strlit("discrete(");
        reveal_strlit("enum(");
        reveal_strlit("skewed(");
        reveal_strlit("sym_skewed(");
        reveal_strlit("reversed(");
    }
    let len = range.unicode_len();
    if let Some(inner) = strip_call(range, "linear(") {
        return float_range(RangeKind::Linear, inner);
    }
    if let Some(inner) = strip_call(range, "log(") {
        return float_range(RangeKind::Log, inner);
    }
    if let Some(inner) = strip_call(range, "discrete(") {
        return discrete_range(inner);
    }
    if let Some(inner) = strip_call(range, "enum(") {
        return enum_range(inner);
    }
    if let Some(inner) = strip_call(range, "skewed(") {
        return float_range(RangeKind::Skewed, inner);
    }
    if let Some(inner) = strip_call(range, "sym_skewed(") {
        return float_range(RangeKind::SymSkewed, inner);
    }
    if let Some(inner) = strip_call(range, "reversed(") {
        let t = str_trim(inner);
        return match parse_range(t) {
            Ok(p) => {
                assert(p.reversals + 1 < len);
                Ok(ParsedRange { reversals: p.reversals + 1, spec: p.spec })
            },
            Err(e) => Err(e),
        };
    }
    Err(RangeError::Unknown { range: range.to_owned() })
}

/// A smoothing style of the `smooth = "…"` attribute.
#[derive(Clone, Copy, Debug, PartialEq, Eq, Structural)]
pub enum SmoothingKind {
    NoSmoothing,
    Linear,
    Exponential,
    Logarithmic,
}

/// The style a `smooth` attribute names and the text between its
/// parentheses (empty for `none`); `None` for an unknown style. The
/// milliseconds text is read as `f64` by the derive.
pub open spec fn smoothing_of(s: Seq<char>) -> Option<(SmoothingKind, Seq<char>)> {
    if s == "none"@ {
        Some((SmoothingKind::NoSmoothing, Seq::empty()))
    } else if let Some(inner) = call_args(s, "linear("@) {
        Some((SmoothingKind::Linear, inner))
    } else if let Some(inner) = call_args(s, "exp("@) {
        Some((SmoothingKind::Exponential, inner))
    } else if let Some(inner) = call_args(s, "log("@) {
        Some((SmoothingKind::Logarithmic, inner))
    } else {
        None
    }
}

/// Parse a `smooth = "…"` attribute: `none`, `linear(<ms>)`, `exp(<ms>)`
/// or `log(<ms>)`.
pub fn parse_smoothing(smooth: &str) -> (r: Option<(SmoothingKind, String)>)
    ensures
        r matches Some((k, t)) ==> smoothing_of(smooth@) == Some((k, t@)),
        r is None ==> smoothing_of(smooth@) is None,
{
    if crate::text::str_equal(smooth, "none") {
        proof {
            reveal_strlit("none");
        }
        return Some((SmoothingKind::NoSmoothing, String::new()));
    }
    if let Some(inner) = strip_call(smooth, "linear(") {
        return Some((SmoothingKind::Linear, inner.to_owned()));
    }
    if let Some(inner) = strip_call(smooth, "exp(") {
        return Some((SmoothingKind::Exponential, inner.to_owned()));
    }
    if let Some(inner) = strip_call(smooth, "log(") {
        return Some((SmoothingKind::Logarithmic, inner.to_owned()));
    }
    None
}

} // verus!
