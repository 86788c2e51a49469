//! The standard library's text operations the library relies on, and
//! character-wise comparison.

use vstd::prelude::*;
use vstd::string::StrSliceExecFns;

verus! {

/// `k` is the first `\n` at or after `from` (`s.len()` if none).
pub open spec fn is_next_newline(s: Seq<char>, from: int, k: int) -> bool {
    &&& from <= k <= s.len()
    &&& forall|j: int| from <= j < k ==> #[trigger] s[j] != '\n'
    &&& k < s.len() ==> s[k] == '\n'
}

pub open spec fn next_newline(s: Seq<char>, from: int) -> int {
    choose|k: int| is_next_newline(s, from, k)
}

/// The pieces of `s` between `\n` characters, from position `from` on
/// (the last piece is whatever follows the last `\n`, possibly empty).
pub open spec fn newline_pieces(s: Seq<char>, from: int) -> Seq<Seq<char>>
    decreases s.len() + 1 - from,
{
    if from < 0 || from > s.len() {
        Seq::empty()
    } else {
        let k = next_newline(s, from);
        if k < s.len() && k + 1 > from {
            seq![s.subrange(from, k)] + newline_pieces(s, k + 1)
        } else {
            seq![s.subrange(from, k)]
        }
    }
}

/// A line ended by `\n` loses a `\r` just before it (`\r\n` endings).
pub open spec fn without_cr(l: Seq<char>) -> Seq<char> {
    if l.len() > 0 && l[l.len() - 1] == '\r' {
        l.drop_last()
    } else {
        l
    }
}

/// `str::lines` of a text: lines end at `\n` or `\r\n` (the ending is not
/// part of the line); a bare `\r` is ordinary text; the final line ending
/// is optional, so nothing follows a trailing newline.
pub open spec fn lines_of(s: Seq<char>) -> Seq<Seq<char>> {
    let p = newline_pieces(s, 0);
    let ended = Seq::new((p.len() - 1) as nat, |i: int| without_cr(p[i]));
    if p.len() > 0 && p[p.len() - 1].len() > 0 {
        ended.push(p[p.len() - 1])
    } else {
        ended
    }
}

/// A character with the Unicode `White_Space` property (`char::is_whitespace`).
pub open spec fn is_white_space(c: char) -> bool {
    ||| '\u{9}' <= c <= '\u{d}'
    ||| c == ' '
    ||| c == '\u{85}'
    ||| c == '\u{a0}'
    ||| c == '\u{1680}'
    ||| '\u{2000}' <= c <= '\u{200a}'
    ||| c == '\u{2028}'
    ||| c == '\u{2029}'
    ||| c == '\u{202f}'
    ||| c == '\u{205f}'
    ||| c == '\u{3000}'
}

/// `str::trim` of a text: leading and trailing whitespace removed (all of
/// it when the text is only whitespace).
#[verifier::opaque]
pub open spec fn trimmed(s: Seq<char>) -> Seq<char> {
    if forall|i: int| 0 <= i < s.len() ==> is_white_space(#[trigger] s[i]) {
        Seq::empty()
    } else {
        let a = choose|a: int|
            0 <= a < s.len() && !is_white_space(s[a]) && forall|j: int|
                0 <= j < a ==> is_white_space(#[trigger] s[j]);
        let b = choose|b: int|
            0 <= b < s.len() && !is_white_space(s[b]) && forall|j: int|
                b < j < s.len() ==> is_white_space(#[trigger] s[j]);
        s.subrange(a, b + 1)
    }
}

/// `str::to_lowercase` of a text.
pub uninterp spec fn lowercase_of(s: Seq<char>) -> Seq<char>;

/// `char::to_uppercase` of one character (may be several characters).
pub uninterp spec fn uppercase_of(c: char) -> Seq<char>;

/// The ASCII upper-case form of `c` (other characters unchanged).
pub open spec fn ascii_upper(c: char) -> char {
    if 'a' <= c <= 'z' {
        ((c as u32) - 32) as char
    } else {
        c
    }
}

/// The ASCII lower-case form of `c` (other characters unchanged).
pub open spec fn ascii_lower(c: char) -> char {
    if 'A' <= c <= 'Z' {
        ((c as u32) + 32) as char
    } else {
        c
    }
}

/// `str::lines`, each line copied into a `String`.
#[verifier::external_body]
pub(crate) fn str_lines(s: &str) -> (r: Vec<String>)
    ensures
        r@.map_values(|l: String| l@) == lines_of(s@),
{
    s.lines().map(|l| l.to_string()).collect()
}

/// `str::trim`: a subslice of `s`, so never longer.
#[verifier::external_body]
pub(crate) fn str_trim(s: &str) -> (r: &str)
    ensures
        r@ == trimmed(s@),
        r@.len() <= s@.len(),
{
    s.trim()
}

/// `str::to_lowercase`. On ASCII text it lowers `A`..`Z` and keeps every
/// other character.
#[verifier::external_body]
pub(crate) fn str_lowercase(s: &str) -> (r: String)
    ensures
        r@ == lowercase_of(s@),
        (forall|i: int| 0 <= i < s@.len() ==> (#[trigger] s@[i] as u32) < 128) ==> r@ == s@.map_values(
            |c: char| ascii_lower(c),
        ),
{
    s.to_lowercase()
}

/// `char::to_uppercase`, collected into a `String`. An ASCII character
/// maps to the one character `ascii_upper(c)`.
#[verifier::external_body]
pub(crate) fn char_uppercase(c: char) -> (r: String)
    ensures
        r@ == uppercase_of(c),
        (c as u32) < 128 ==> r@ == seq![ascii_upper(c)],
{
    c.to_uppercase().collect()
}

/// Value of a run of ASCII decimal digits.
pub open spec fn digits_value(d: Seq<char>) -> int
    decreases d.len(),
{
    if d.len() == 0 {
        0
    } else {
        digits_value(d.drop_last()) * 10 + (d.last() as int - '0' as int)
    }
}

pub open spec fn all_digits(d: Seq<char>) -> bool {
    forall|i: int| 0 <= i < d.len() ==> '0' <= #[trigger] d[i] <= '9'
}

/// The integer a decimal text denotes: an optional sign (`-` only when
/// `signed`), then one or more ASCII digits and nothing else.
pub open spec fn decimal_of(s: Seq<char>, signed: bool) -> Option<int> {
    let neg = signed && s.len() > 0 && s[0] == '-';
    let d = if neg || (s.len() > 0 && s[0] == '+') {
        s.drop_first()
    } else {
        s
    };
    if d.len() > 0 && all_digits(d) {
        Some(if neg { -digits_value(d) } else { digits_value(d) })
    } else {
        None
    }
}

/// A digit run's value never drops below zero.
proof fn lemma_digits_value_nonneg(d: Seq<char>)
    requires
        all_digits(d),
    ensures
        digits_value(d) >= 0,
    decreases d.len(),
{
    if d.len() > 0 {
        assert(all_digits(d.drop_last()));
        lemma_digits_value_nonneg(d.drop_last());
        assert('0' <= d[d.len() - 1] <= '9');
    }
}

/// Values at or above this are all "too large" for the parsers here.
pub open spec fn digits_cap() -> int {
    0x1_0000_0000_0000_0000
}

/// The value of the digits of `s` from `start` on, capped at `2^64`;
/// `None` when there is no digit there or a non-digit follows.
fn digits_capped(s: &str, start: usize) -> (r: Option<u128>)
    requires
        start <= s@.len(),
    ensures
        r is Some <==> (s@.len() > start && all_digits(s@.subrange(start as int, s@.len() as int))),
        r matches Some(v) ==> v == (if digits_value(s@.subrange(start as int, s@.len() as int))
            < digits_cap() {
            digits_value(s@.subrange(start as int, s@.len() as int))
        } else {
            digits_cap()
        }),
{
    let n = s.unicode_len();
    if n <= start {
        return None;
    }
    let ghost full = s@.subrange(start as int, n as int);
    let mut acc: u128 = 0;
    let mut i: usize = start;
    while i < n
        invariant
            start <= i <= n,
            n == s@.len(),
            full == s@.subrange(start as int, n as int),
            all_digits(s@.subrange(start as int, i as int)),
            acc == (if digits_value(s@.subrange(start as int, i as int)) < digits_cap() {
                digits_value(s@.subrange(start as int, i as int))
            } else {
                digits_cap()
            }),
        decreases n - i,
    {
        let c = s.get_char(i);
        if !('0' <= c && c <= '9') {
            proof {
                assert(full[i - start] == c);
            }
            return None;
        }
        let ghost pre = s@.subrange(start as int, i as int);
        let ghost next = s@.subrange(start as int, i + 1);
        proof {
            assert(next.drop_last() =~= pre);
            assert(next.last() == c);
            assert(all_digits(next));
            lemma_digits_value_nonneg(pre);
        }
        let digit = (c as u32 - '0' as u32) as u128;
        let wide = acc * 10 + digit;
        acc = if wide < 0x1_0000_0000_0000_0000u128 {
            wide
        } else {
            0x1_0000_0000_0000_0000u128
        };
        i = i + 1;
    }
    proof {
        assert(s@.subrange(start as int, n as int) == full);
    }
    Some(acc)
}

/// `str::parse::<i64>`: an optional sign, then ASCII digits only; the
/// value when it fits, else `None`.
pub(crate) fn parse_i64(s: &str) -> (r: Option<i64>)
    ensures
        r == match decimal_of(s@, true) {
            Some(v) => if i64::MIN <= v <= i64::MAX {
                Some(v as i64)
            } else {
                None
            },
            None => None,
        },
{
    let n = s.unicode_len();
    let neg = n > 0 && s.get_char(0) == '-';
    let plus = n > 0 && s.get_char(0) == '+';
    let start: usize = if neg || plus { 1 } else { 0 };
    proof {
        if neg || plus {
            assert(s@.subrange(1, s@.len() as int) =~= s@.drop_first());
        } else {
            assert(s@.subrange(0, s@.len() as int) =~= s@);
        }
    }
    match digits_capped(s, start) {
        None => None,
        Some(v) => {
            proof {
                lemma_digits_value_nonneg(s@.subrange(start as int, s@.len() as int));
            }
            if neg {
                if v <= 0x8000_0000_0000_0000u128 {
                    Some((0i128 - v as i128) as i64)
                } else {
                    None
                }
            } else if v <= 0x7FFF_FFFF_FFFF_FFFFu128 {
                Some(v as i64)
            } else {
                None
            }
        },
    }
}

/// `str::parse::<usize>`: an optional `+`, then ASCII digits only; the
/// value when it fits, else `None`.
pub(crate) fn parse_usize(s: &str) -> (r: Option<usize>)
    ensures
        r == match decimal_of(s@, false) {
            Some(v) => if v <= usize::MAX {
                Some(v as usize)
            } else {
                None
            },
            None => None,
        },
{
    let n = s.unicode_len();
    let plus = n > 0 && s.get_char(0) == '+';
    let start: usize = if plus { 1 } else { 0 };
    proof {
        if plus {
            assert(s@.subrange(1, s@.len() as int) =~= s@.drop_first());
        } else {
            assert(s@.subrange(0, s@.len() as int) =~= s@);
        }
    }
    match digits_capped(s, start) {
        None => None,
        Some(v) => {
            proof {
                lemma_digits_value_nonneg(s@.subrange(start as int, s@.len() as int));
            }
            if v <= usize::MAX as u128 {
                Some(v as usize)
            } else {
                None
            }
        },
    }
}

/// Character-wise equality of two texts.
pub fn str_equal(a: &str, b: &str) -> (r: bool)
    ensures
        r == (a@ == b@),
{
    let n = a.unicode_len();
    if n != b.unicode_len() {
        return false;
    }
    let mut i: usize = 0;
    while i < n
        invariant
            0 <= i <= n,
            n == a@.len(),
            n == b@.len(),
            forall|j: int| 0 <= j < i ==> a@[j] == b@[j],
        decreases n - i,
    {
        if a.get_char(i) != b.get_char(i) {
            return false;
        }
        i = i + 1;
    }
    proof {
        assert(a@ =~= b@);
    }
    true
}

} // verus!
