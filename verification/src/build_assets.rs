//! Build-script helper for plugins with a Slint GUI: where the bundled
//! `@aura` widgets and fonts are materialized and how the UI compiler is
//! configured to find them. (Writing the files is the caller's I/O.)

use vstd::prelude::*;
use vstd::std_specs::convert::FromSpecImpl;

verus! {

/// `@aura` library import name (`import { Knob } from "@aura";`).
pub const LIBRARY_NAME: &'static str = "aura";

/// The bundled widget sources, in the order they are written.
pub open spec fn widget_names() -> Seq<Seq<char>> {
    seq![
        "widgets.slint"@,
        "theme.slint"@,
        "knob.slint"@,
        "meter.slint"@,
        "dropdown.slint"@,
        "slider.slint"@,
        "toggle.slint"@,
        "xy_pad.slint"@,
    ]
}

/// The bundled fonts, in the order they are written.
pub open spec fn font_names() -> Seq<Seq<char>> {
    seq![
        "JetBrainsMono-Regular.ttf"@,
        "JetBrainsMono-Bold.ttf"@,
        "NotoSans-Regular.ttf"@,
        "NotoSans-Bold.ttf"@,
        "Selawik-Regular.ttf"@,
        "Selawik-Bold.ttf"@,
    ]
}

/// Bundled widget sources, written under `<dir>/aura-build/ui`.
pub fn widget_file_names() -> (v: Vec<&'static str>)
    ensures
        v@.map_values(|s: &'static str| s@) == widget_names(),
{
    let mut v: Vec<&'static str> = Vec::new();
    v.push("widgets.slint");
    v.push("theme.slint");
    v.push("knob.slint");
    v.push("meter.slint");
    v.push("dropdown.slint");
    v.push("slider.slint");
    v.push("toggle.slint");
    v.push("xy_pad.slint");
    proof {
        assert(v@.map_values(|s: &'static str| s@) =~= widget_names());
    }
    v
}

/// Bundled fonts, written under `<dir>/aura-build/fonts`.
pub fn font_file_names() -> (v: Vec<&'static str>)
    ensures
        v@.map_values(|s: &'static str| s@) == font_names(),
{
    let mut v: Vec<&'static str> = Vec::new();
    v.push("JetBrainsMono-Regular.ttf");
    v.push("JetBrainsMono-Bold.ttf");
    v.push("NotoSans-Regular.ttf");
    v.push("NotoSans-Bold.ttf");
    v.push("Selawik-Regular.ttf");
    v.push("Selawik-Bold.ttf");
    proof {
        assert(v@.map_values(|s: &'static str| s@) =~= font_names());
    }
    v
}

/// `Path::join` of two paths.
pub uninterp spec fn joined(base: Seq<char>, rel: Seq<char>) -> Seq<char>;

/// `std::path::Path::join`: `rel` appended to `base` with a separator (an
/// absolute `rel` replaces `base`).
#[verifier::external_body]
pub(crate) fn path_join(base: &str, rel: &str) -> (r: String)
    ensures
        r@ == joined(base@, rel@),
{
    std::path::Path::new(base).join(rel).to_string_lossy().into_owned()
}

/// Where the widgets and fonts are written, and how the UI compiler must
/// be configured to resolve `@aura` and font imports.
#[derive(Debug, Clone)]
pub struct AssetPaths {
    /// `"aura"` → path of the materialized `widgets.slint`.
    pub library_paths: Vec<(String, String)>,
    /// Directory containing the bundled `.ttf` files.
    pub include_paths: Vec<String>,
    /// Pinned widget style (`"fluent"`).
    pub style: String,
}

/// The widget directory under `dir`.
pub fn ui_dir(dir: &str) -> (r: String)
    ensures
        r@ == joined(dir@, "aura-build/ui"@),
{
    path_join(dir, "aura-build/ui")
}

/// The font directory under `dir`.
pub fn font_dir(dir: &str) -> (r: String)
    ensures
        r@ == joined(dir@, "aura-build/fonts"@),
{
    path_join(dir, "aura-build/fonts")
}

/// The compiler configuration for assets materialized under `dir`: the
/// `aura` library at `<ui dir>/widgets.slint`, the font directory as the
/// include path, and the Fluent style on every OS.
pub fn asset_paths(dir: &str) -> (a: AssetPaths)
    ensures
        a.library_paths@.len() == 1,
        a.library_paths@[0].0@ == "aura"@,
        a.library_paths@[0].1@ == joined(joined(dir@, "aura-build/ui"@), "widgets.slint"@),
        a.include_paths@.len() == 1,
        a.include_paths@[0]@ == joined(dir@, "aura-build/fonts"@),
        a.style@ == "fluent"@,
{
    let ui = ui_dir(dir);
    let widgets = path_join(ui.as_str(), "widgets.slint");
    let mut library_paths: Vec<(String, String)> = Vec::new();
    library_paths.push((String::from_str(LIBRARY_NAME), widgets));
    let mut include_paths: Vec<String> = Vec::new();
    include_paths.push(font_dir(dir));
    AssetPaths { library_paths, include_paths, style: String::from_str("fluent") }
}

/// Whether a file must be (re)written: only when its current contents
/// (`None` when unreadable) differ from `bytes`.
pub fn needs_write(existing: Option<&[u8]>, bytes: &[u8]) -> (b: bool)
    ensures
        b == (match existing {
            Some(e) => e@ != bytes@,
            None => true,
        }),
{
    match existing {
        None => true,
        Some(e) => {
            if e.len() != bytes.len() {
                return true;
            }
            let n = e.len();
            let mut i: usize = 0;
            while i < n
                invariant
                    0 <= i <= n,
                    n == e@.len(),
                    n == bytes@.len(),
                    existing == Some(e),
                    forall|j: int| 0 <= j < i ==> e@[j] == bytes@[j],
                decreases n - i,
            {
                if e[i] != bytes[i] {
                    proof {
                        assert(e@[i as int] != bytes@[i as int]);
                        assert(e@ != bytes@);
                    }
                    return true;
                }
                i = i + 1;
            }
            proof {
                assert(e@ =~= bytes@);
            }
            false
        },
    }
}

#[verifier::external_type_specification]
#[verifier::external_body]
pub struct ExIoError(std::io::Error);

/// Errors from compiling a plugin UI.
#[derive(Debug)]
pub enum CompileError {
    /// `OUT_DIR` is not set (not running from a build script).
    NoOutDir,
    /// Writing the bundled assets failed.
    Io(std::io::Error),
    /// The UI compiler rejected the input.
    Slint(String),
}

impl From<std::io::Error> for CompileError {
    fn from(e: std::io::Error) -> (r: Self) {
        CompileError::Io(e)
    }
}

impl FromSpecImpl<std::io::Error> for CompileError {
    open spec fn obeys_from_spec() -> bool {
        true
    }

    open spec fn from_spec(e: std::io::Error) -> Self {
        CompileError::Io(e)
    }
}

/// `Display` of an I/O error (its text is the platform's).
#[verifier::external_body]
fn io_error_text(e: &std::io::Error) -> String {
    format!("{e}")
}

/// The message shown for a compile error.
pub fn compile_error_message(e: &CompileError) -> (s: String)
    ensures
        e is NoOutDir ==> s@ == "OUT_DIR not set — call aura_build::compile from a build script"@,
        e matches CompileError::Slint(m) ==> s@ == "slint compile failed: "@ + m@,
        e is Io ==> s@.len() >= "writing bundled assets to OUT_DIR: "@.len() && s@.subrange(
            0,
            "writing bundled assets to OUT_DIR: "@.len() as int,
        ) == "writing bundled assets to OUT_DIR: "@,
{
    match e {
        CompileError::NoOutDir => String::from_str(
            "OUT_DIR not set — call aura_build::compile from a build script",
        ),
        CompileError::Io(err) => {
            let mut s = String::from_str("writing bundled assets to OUT_DIR: ");
            let ghost head = s@;
            s.append(io_error_text(err).as_str());
            proof {
                assert(s@.subrange(0, head.len() as int) =~= head);
            }
            s
        },
        CompileError::Slint(m) => {
            let mut s = String::from_str("slint compile failed: ");
            s.append(m.as_str());
            s
        },
    }
}

} // verus!
