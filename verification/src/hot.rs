//! CLAP hot-reload proxy: path rules.
//!
//! The host maps the proxy binary (`Name.clap`). The real plugin is a
//! sibling `Name.impl.dll` / `.so` / `.dylib` that the watcher overwrites.
//! Path handling is `std::path`'s, behind the wrappers below.

use vstd::prelude::*;
use vstd::string::StrSliceExecFns;

verus! {

/// The platform the proxy runs on.
#[derive(Clone, Copy, Debug, PartialEq, Eq, Structural)]
pub enum TargetOs {
    Windows,
    MacOs,
    /// Linux and other Unix-like systems.
    Linux,
}

pub open spec fn impl_suffix_of(os: TargetOs) -> Seq<char> {
    match os {
        TargetOs::Windows => ".impl.dll"@,
        TargetOs::MacOs => ".impl.dylib"@,
        TargetOs::Linux => ".impl.so"@,
    }
}

pub open spec fn dll_ext_of(os: TargetOs) -> Seq<char> {
    match os {
        TargetOs::Windows => ".dll"@,
        TargetOs::MacOs => ".dylib"@,
        TargetOs::Linux => ".so"@,
    }
}

/// Suffix of the implementation library beside the proxy.
pub fn impl_suffix(os: TargetOs) -> (s: &'static str)
    ensures
        s@ == impl_suffix_of(os),
{
    match os {
        TargetOs::Windows => ".impl.dll",
        TargetOs::MacOs => ".impl.dylib",
        TargetOs::Linux => ".impl.so",
    }
}

/// Extension of a loadable library.
pub fn dll_ext(os: TargetOs) -> (s: &'static str)
    ensures
        s@ == dll_ext_of(os),
{
    match os {
        TargetOs::Windows => ".dll",
        TargetOs::MacOs => ".dylib",
        TargetOs::Linux => ".so",
    }
}

/// `Path::extension` of a path.
pub uninterp spec fn extension_of(p: Seq<char>) -> Option<Seq<char>>;

/// `Path::parent` of a path.
pub uninterp spec fn parent_of(p: Seq<char>) -> Option<Seq<char>>;

/// `Path::file_stem` of a path.
pub uninterp spec fn file_stem_of(p: Seq<char>) -> Option<Seq<char>>;

/// `Path::with_file_name` of a path.
pub uninterp spec fn with_file_name_of(p: Seq<char>, name: Seq<char>) -> Seq<char>;

/// `std::path::Path::extension` (text after the last `.` of the file name,
/// if any). A `&str` path has a valid UTF-8 extension, so the conversion
/// back to a `String` is exact.
#[verifier::external_body]
fn path_extension(p: &str) -> (r: Option<String>)
    ensures
        r matches Some(e) ==> extension_of(p@) == Some(e@),
        r is None ==> extension_of(p@) is None,
{
    match std::path::Path::new(p).extension() {
        Some(e) => Some(e.to_string_lossy().into_owned()),
        None => None,
    }
}

/// `std::path::Path::parent`: the path without its last component. The
/// parent is a prefix of the path without that (non-empty) component, so
/// it is strictly shorter.
#[verifier::external_body]
fn path_parent(p: &str) -> (r: Option<String>)
    ensures
        r matches Some(q) ==> parent_of(p@) == Some(q@) && q@.len() < p@.len(),
        r is None ==> parent_of(p@) is None,
{
    match std::path::Path::new(p).parent() {
        Some(q) => Some(q.to_string_lossy().into_owned()),
        None => None,
    }
}

/// `std::path::Path::file_stem`: the file name without its extension.
#[verifier::external_body]
fn path_file_stem(p: &str) -> (r: Option<String>)
    ensures
        r matches Some(s) ==> file_stem_of(p@) == Some(s@),
        r is None ==> file_stem_of(p@) is None,
{
    match std::path::Path::new(p).file_stem() {
        Some(s) => Some(s.to_string_lossy().into_owned()),
        None => None,
    }
}

/// `std::path::Path::with_file_name`: the path with its file name replaced.
#[verifier::external_body]
fn path_with_file_name(p: &str, name: &str) -> (r: String)
    ensures
        r@ == with_file_name_of(p@, name@),
{
    std::path::Path::new(p).with_file_name(name).to_string_lossy().into_owned()
}

/// `clap`, compared ASCII case-insensitively.
pub open spec fn is_clap_ext(e: Seq<char>) -> bool {
    &&& e.len() == 4
    &&& (e[0] == 'c' || e[0] == 'C')
    &&& (e[1] == 'l' || e[1] == 'L')
    &&& (e[2] == 'a' || e[2] == 'A')
    &&& (e[3] == 'p' || e[3] == 'P')
}

pub open spec fn has_clap_ext(p: Seq<char>) -> bool {
    extension_of(p) matches Some(e) && is_clap_ext(e)
}

/// The first of `p`, its parent, its grandparent, … (at most `fuel`
/// parents up) whose extension is `clap`.
pub open spec fn clap_ancestor(p: Seq<char>, fuel: nat) -> Option<Seq<char>>
    decreases fuel,
{
    if has_clap_ext(p) {
        Some(p)
    } else if fuel == 0 {
        None
    } else {
        match parent_of(p) {
            Some(q) => clap_ancestor(q, (fuel - 1) as nat),
            None => None,
        }
    }
}

/// The `.clap` bundle a path lies in, else the path itself.
pub open spec fn resolved_clap(p: Seq<char>) -> Seq<char> {
    match clap_ancestor(p, p.len()) {
        Some(a) => a,
        None => p,
    }
}

fn is_clap_extension(e: &str) -> (b: bool)
    ensures
        b == is_clap_ext(e@),
{
    if e.unicode_len() != 4 {
        return false;
    }
    let c0 = e.get_char(0);
    let c1 = e.get_char(1);
    let c2 = e.get_char(2);
    let c3 = e.get_char(3);
    (c0 == 'c' || c0 == 'C') && (c1 == 'l' || c1 == 'L') && (c2 == 'a' || c2 == 'A') && (c3 == 'p'
        || c3 == 'P')
}

/// The `.clap` bundle or file a plugin path lies in: the host may pass
/// `Contents/MacOS/<bin>` inside a bundle; walk up to the `.clap`.
pub fn resolve_clap_path(plugin_path: &str) -> (r: String)
    ensures
        r@ == resolved_clap(plugin_path@),
{
    let len = plugin_path.unicode_len();
    let mut cur: String = plugin_path.to_owned();
    let mut steps: usize = 0;
    loop
        invariant
            len == plugin_path@.len(),
            steps <= len,
            cur@.len() + steps <= len,
            clap_ancestor(plugin_path@, len as nat) == clap_ancestor(cur@, (len - steps) as nat),
        decreases len - steps,
    {
        let is_clap = match path_extension(cur.as_str()) {
            Some(e) => is_clap_extension(e.as_str()),
            None => false,
        };
        if is_clap {
            return cur;
        }
        if steps == len {
            return plugin_path.to_owned();
        }
        match path_parent(cur.as_str()) {
            Some(q) => {
                cur = q;
                steps = steps + 1;
            },
            None => {
                return plugin_path.to_owned();
            },
        }
    }
}

/// The implementation file name for a proxy stem.
pub open spec fn impl_name(stem: Option<Seq<char>>, os: TargetOs) -> Seq<char> {
    match stem {
        Some(s) => s + impl_suffix_of(os),
        None => "plugin"@ + impl_suffix_of(os),
    }
}

/// `Foo.clap` → `Foo.impl.dll` / `.so` / `.dylib` beside the clap (or bundle).
pub fn impl_path_beside(clap_path: &str, os: TargetOs) -> (r: String)
    ensures
        r@ == with_file_name_of(
            resolved_clap(clap_path@),
            impl_name(file_stem_of(resolved_clap(clap_path@)), os),
        ),
{
    let clap = resolve_clap_path(clap_path);
    let mut name = match path_file_stem(clap.as_str()) {
        Some(s) => s,
        None => String::from_str("plugin"),
    };
    name.append(impl_suffix(os));
    path_with_file_name(clap.as_str(), name.as_str())
}

/// Whether the implementation library must be (re)loaded: nothing is
/// loaded yet, or the file's modification time differs from the one the
/// loaded copy was taken at (times as `(seconds, nanoseconds)` since the
/// epoch).
pub fn needs_reload(loaded_mtime: Option<(u64, u32)>, file_mtime: (u64, u32)) -> (b: bool)
    ensures
        b == match loaded_mtime {
            Some(t) => t != file_mtime,
            None => true,
        },
{
    match loaded_mtime {
        Some(t) => t.0 != file_mtime.0 || t.1 != file_mtime.1,
        None => true,
    }
}

} // verus!
