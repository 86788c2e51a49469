//! Plugin config and preset frontmatter scanning.
//!
//! A preset file may start with a YAML-like frontmatter block between two
//! `---` lines; `key: value` lines inside it become entries (a later key
//! overwrites an earlier one), `- item` list lines are skipped.

use vstd::prelude::*;
use vstd::string::StrSliceExecFns;
use crate::text::{lines_of, str_lines, str_trim, trimmed};
use crate::build_assets::{joined, path_join};

verus! {

/// Per-plugin config persisted as JSON (the file I/O lives outside).
#[derive(Clone, Debug)]
pub struct PluginConfig {
    pub vault_path: Option<String>,
    /// Last preset the user selected — default for fresh instances.
    pub last_preset: Option<String>,
}

impl Default for PluginConfig {
    fn default() -> (c: Self)
        ensures
            c.vault_path is None,
            c.last_preset is None,
    {
        PluginConfig { vault_path: None, last_preset: None }
    }
}

/// Where per-plugin config folders live: `APPDATA` when set, else
/// `$HOME/.config`, else the working directory.
pub open spec fn config_base_of(appdata: Option<Seq<char>>, home: Option<Seq<char>>) -> Seq<char> {
    match appdata {
        Some(a) => a,
        None => match home {
            Some(h) => joined(h, ".config"@),
            None => "."@,
        },
    }
}

/// The base folder for plugin config, from the `APPDATA` and `HOME`
/// environment values (the plugin's own folder goes below it).
pub fn config_base_dir(appdata: Option<&str>, home: Option<&str>) -> (r: String)
    ensures
        r@ == config_base_of(
            match appdata {
                Some(a) => Some(a@),
                None => None,
            },
            match home {
                Some(h) => Some(h@),
                None => None,
            },
        ),
{
    match appdata {
        Some(a) => a.to_owned(),
        None => match home {
            Some(h) => path_join(h, ".config"),
            None => String::from_str("."),
        },
    }
}

/// `k` is the first `':'` in `s` (`s.len()` if none).
pub open spec fn is_first_colon(s: Seq<char>, k: int) -> bool {
    &&& 0 <= k <= s.len()
    &&& forall|j: int| 0 <= j < k ==> #[trigger] s[j] != ':'
    &&& k < s.len() ==> s[k] == ':'
}

pub open spec fn first_colon(s: Seq<char>) -> int {
    choose|k: int| is_first_colon(s, k)
}

proof fn lemma_first_colon(s: Seq<char>, k: int)
    requires
        is_first_colon(s, k),
    ensures
        first_colon(s) == k,
{
    let c = first_colon(s);
    assert(is_first_colon(s, c));
    if c < k {
        assert(s[c] != ':');
    } else if k < c {
        assert(s[k] != ':');
    }
}

/// `k` is the entry for `key` (`es.len()` if none).
pub open spec fn is_entry_of(es: Seq<(Seq<char>, Seq<char>)>, key: Seq<char>, k: int) -> bool {
    &&& 0 <= k <= es.len()
    &&& forall|j: int| 0 <= j < k ==> (#[trigger] es[j]).0 != key
    &&& k < es.len() ==> es[k].0 == key
}

pub open spec fn entry_of(es: Seq<(Seq<char>, Seq<char>)>, key: Seq<char>) -> int {
    choose|k: int| is_entry_of(es, key, k)
}

proof fn lemma_entry_of(es: Seq<(Seq<char>, Seq<char>)>, key: Seq<char>, k: int)
    requires
        is_entry_of(es, key, k),
    ensures
        entry_of(es, key) == k,
{
    let c = entry_of(es, key);
    assert(is_entry_of(es, key, c));
    if c < k {
        assert(es[c].0 != key);
    } else if k < c {
        assert(es[k].0 != key);
    }
}

/// Map insert: replace the value of an existing key, else append.
pub open spec fn insert_entry(es: Seq<(Seq<char>, Seq<char>)>, key: Seq<char>, value: Seq<char>) -> Seq<
    (Seq<char>, Seq<char>),
> {
    let k = entry_of(es, key);
    if k < es.len() {
        es.update(k, (key, value))
    } else {
        es.push((key, value))
    }
}

/// A trimmed line that is a list item (`- …`).
pub open spec fn is_list_item(t: Seq<char>) -> bool {
    t.len() >= 2 && t[0] == '-' && t[1] == ' '
}

/// Entries after scanning frontmatter lines from `i` on, until `---`.
pub open spec fn scan_frontmatter(lines: Seq<Seq<char>>, i: int, es: Seq<(Seq<char>, Seq<char>)>) -> Seq<
    (Seq<char>, Seq<char>),
>
    decreases lines.len() - i,
{
    if i < 0 || i >= lines.len() {
        es
    } else {
        let t = trimmed(lines[i]);
        if t == "---"@ {
            es
        } else if is_list_item(t) {
            scan_frontmatter(lines, i + 1, es)
        } else {
            let p = first_colon(t);
            if p < t.len() {
                scan_frontmatter(
                    lines,
                    i + 1,
                    insert_entry(
                        es,
                        trimmed(t.subrange(0, p)),
                        trimmed(t.subrange(p + 1, t.len() as int)),
                    ),
                )
            } else {
                scan_frontmatter(lines, i + 1, es)
            }
        }
    }
}

/// The frontmatter entries of a text: none unless its first line is `---`.
pub open spec fn frontmatter_of(content: Seq<char>) -> Seq<(Seq<char>, Seq<char>)> {
    let lines = lines_of(content);
    if lines.len() == 0 || trimmed(lines[0]) != "---"@ {
        Seq::empty()
    } else {
        scan_frontmatter(lines, 1, Seq::empty())
    }
}

/// No key occurs twice.
pub open spec fn keys_unique(es: Seq<(Seq<char>, Seq<char>)>) -> bool {
    forall|i: int, j: int| 0 <= i < j < es.len() ==> (#[trigger] es[i]).0 != (#[trigger] es[j]).0
}

proof fn lemma_entry_of_exists(es: Seq<(Seq<char>, Seq<char>)>, key: Seq<char>)
    ensures
        is_entry_of(es, key, entry_of(es, key)),
    decreases es.len(),
{
    if es.len() == 0 {
        assert(is_entry_of(es, key, 0));
    } else {
        let t = es.drop_last();
        lemma_entry_of_exists(t, key);
        let k = entry_of(t, key);
        assert forall|j: int| 0 <= j < k implies (#[trigger] es[j]).0 != key by {
            assert(es[j] == t[j]);
        }
        if k < t.len() {
            assert(es[k] == t[k]);
            assert(is_entry_of(es, key, k));
        } else if es.last().0 == key {
            assert(is_entry_of(es, key, t.len() as int));
        } else {
            assert(is_entry_of(es, key, es.len() as int));
        }
    }
}

proof fn lemma_insert_entry_unique(es: Seq<(Seq<char>, Seq<char>)>, key: Seq<char>, value: Seq<char>)
    requires
        keys_unique(es),
    ensures
        keys_unique(insert_entry(es, key, value)),
{
    lemma_entry_of_exists(es, key);
    let r = insert_entry(es, key, value);
    let k = entry_of(es, key);
    assert forall|i: int, j: int| 0 <= i < j < r.len() implies (#[trigger] r[i]).0 != (
    #[trigger] r[j]).0 by {
        if k < es.len() {
            assert(r[i].0 == es[i].0);
            assert(r[j].0 == es[j].0);
        } else if j == es.len() {
            assert(r[i] == es[i]);
        } else {
            assert(r[i] == es[i] && r[j] == es[j]);
        }
    }
}

proof fn lemma_scan_unique(lines: Seq<Seq<char>>, i: int, es: Seq<(Seq<char>, Seq<char>)>)
    requires
        keys_unique(es),
    ensures
        keys_unique(scan_frontmatter(lines, i, es)),
    decreases lines.len() - i,
{
    if 0 <= i < lines.len() {
        let t = trimmed(lines[i]);
        if t != "---"@ && !is_list_item(t) {
            let p = first_colon(t);
            if p < t.len() {
                let k = trimmed(t.subrange(0, p));
                let v = trimmed(t.subrange(p + 1, t.len() as int));
                lemma_insert_entry_unique(es, k, v);
                lemma_scan_unique(lines, i + 1, insert_entry(es, k, v));
            } else {
                lemma_scan_unique(lines, i + 1, es);
            }
        } else if t != "---"@ {
            lemma_scan_unique(lines, i + 1, es);
        }
    }
}

/// Frontmatter behaves as a map: no key is listed twice (a repeated key
/// overwrites the earlier value in place).
pub proof fn lemma_frontmatter_keys_unique(content: Seq<char>)
    ensures
        keys_unique(frontmatter_of(content)),
{
    let lines = lines_of(content);
    if lines.len() > 0 && trimmed(lines[0]) == "---"@ {
        lemma_scan_unique(lines, 1, Seq::empty());
    }
}

pub open spec fn entries_view(es: Seq<(String, String)>) -> Seq<(Seq<char>, Seq<char>)> {
    es.map_values(|e: (String, String)| (e.0@, e.1@))
}

fn is_fence(t: &str) -> (b: bool)
    ensures
        b == (t@ == "---"@),
{
    proof {
        reveal_strlit("---");
    }
    if t.unicode_len() != 3 {
        return false;
    }
    let r = t.get_char(0) == '-' && t.get_char(1) == '-' && t.get_char(2) == '-';
    proof {
        if r {
            assert(t@ =~= "---"@);
        }
    }
    r
}

fn find_colon(t: &str) -> (k: usize)
    ensures
        is_first_colon(t@, k as int),
        first_colon(t@) == k,
{
    let n = t.unicode_len();
    let mut i: usize = 0;
    while i < n
        invariant
            0 <= i <= n,
            n == t@.len(),
            forall|j: int| 0 <= j < i ==> #[trigger] t@[j] != ':',
        decreases n - i,
    {
        if t.get_char(i) == ':' {
            proof {
                lemma_first_colon(t@, i as int);
            }
            return i;
        }
        i = i + 1;
    }
    proof {
        lemma_first_colon(t@, n as int);
    }
    n
}

fn insert_into(es: &mut Vec<(String, String)>, key: String, value: String)
    ensures
        entries_view(final(es)@) == insert_entry(entries_view(old(es)@), key@, value@),
{
    let ghost before = entries_view(es@);
    let n = es.len();
    let mut i: usize = 0;
    while i < n
        invariant
            0 <= i <= n,
            n == es@.len(),
            es@ == old(es)@,
            before == entries_view(es@),
            forall|j: int| 0 <= j < i ==> (#[trigger] before[j]).0 != key@,
        decreases n - i,
    {
        proof {
            assert(before[i as int] == (es@[i as int].0@, es@[i as int].1@));
        }
        if es[i].0 == key {
            proof {
                lemma_entry_of(before, key@, i as int);
            }
            es.set(i, (key, value));
            proof {
                assert(entries_view(es@) =~= before.update(i as int, (key@, value@)));
            }
            return;
        }
        i = i + 1;
    }
    proof {
        lemma_entry_of(before, key@, n as int);
    }
    es.push((key, value));
    proof {
        assert(entries_view(es@) =~= before.push((key@, value@)));
    }
}

/// Parse `key: value` frontmatter between leading `---` lines. Keys and
/// values are trimmed; a later key overwrites an earlier one.
pub fn parse_frontmatter(content: &str) -> (es: Vec<(String, String)>)
    ensures
        entries_view(es@) == frontmatter_of(content@),
{
    let mut es: Vec<(String, String)> = Vec::new();
    let lines = str_lines(content);
    let ghost ls = lines@.map_values(|l: String| l@);
    if lines.len() == 0 {
        proof {
            assert(entries_view(es@) =~= Seq::<(Seq<char>, Seq<char>)>::empty());
        }
        return es;
    }
    proof {
        assert(ls[0] == lines@[0]@);
    }
    if !is_fence(str_trim(lines[0].as_str())) {
        proof {
            assert(entries_view(es@) =~= Seq::<(Seq<char>, Seq<char>)>::empty());
        }
        return es;
    }
    let n = lines.len();
    let mut i: usize = 1;
    proof {
        assert(entries_view(es@) =~= Seq::<(Seq<char>, Seq<char>)>::empty());
    }
    while i < n
        invariant
            1 <= i <= n,
            n == lines@.len(),
            ls == lines@.map_values(|l: String| l@),
            ls == lines_of(content@),
            frontmatter_of(content@) == scan_frontmatter(ls, i as int, entries_view(es@)),
        decreases n - i,
    {
        proof {
            assert(ls[i as int] == lines@[i as int]@);
        }
        let t = str_trim(lines[i].as_str());
        if is_fence(t) {
            return es;
        }
        let tn = t.unicode_len();
        let dash = tn >= 2 && t.get_char(0) == '-' && t.get_char(1) == ' ';
        if !dash {
            let p = find_colon(t);
            if p < tn {
                let key = str_trim(t.substring_char(0, p)).to_owned();
                let value = str_trim(t.substring_char(p + 1, tn)).to_owned();
                insert_into(&mut es, key, value);
            }
        }
        i = i + 1;
    }
    es
}

/// The value of `key`, if present.
pub open spec fn lookup(es: Seq<(Seq<char>, Seq<char>)>, key: Seq<char>) -> Option<Seq<char>> {
    let k = entry_of(es, key);
    if k < es.len() {
        Some(es[k].1)
    } else {
        None
    }
}

/// The `plugin:` field of a preset's frontmatter, if any.
pub fn preset_plugin_name(content: &str) -> (r: Option<String>)
    ensures
        r matches Some(v) ==> lookup(frontmatter_of(content@), "plugin"@) == Some(v@),
        r is None ==> lookup(frontmatter_of(content@), "plugin"@) is None,
{
    let es = parse_frontmatter(content);
    let key = String::from_str("plugin");
    let ghost view = entries_view(es@);
    let n = es.len();
    let mut i: usize = 0;
    while i < n
        invariant
            0 <= i <= n,
            n == es@.len(),
            view == entries_view(es@),
            view == frontmatter_of(content@),
            key@ == "plugin"@,
            forall|j: int| 0 <= j < i ==> (#[trigger] view[j]).0 != key@,
        decreases n - i,
    {
        proof {
            assert(view[i as int] == (es@[i as int].0@, es@[i as int].1@));
        }
        if es[i].0 == key {
            proof {
                lemma_entry_of(view, key@, i as int);
            }
            let v = es[i].1.clone();
            proof {
                assert(v@ == view[i as int].1);
                assert(view == entries_view(es@));
                assert(frontmatter_of(content@) == view);
            }
            return Some(v);
        }
        i = i + 1;
    }
    proof {
        lemma_entry_of(view, key@, n as int);
    }
    None
}

} // verus!
