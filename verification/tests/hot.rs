use std::path::{Path, PathBuf};

use aura::hot::{dll_ext, impl_path_beside, impl_suffix, resolve_clap_path, TargetOs};

#[test]
fn impl_beside_clap_file() {
    let got = impl_path_beside("/plugins/smoke-gain.clap", TargetOs::Linux);
    assert!(Path::new(&got).ends_with(format!("smoke-gain{}", impl_suffix(TargetOs::Linux))));
}

#[test]
fn impl_beside_macos_bundle_binary() {
    let got = impl_path_beside(
        "/plugins/smoke-gain.clap/Contents/MacOS/smoke-gain",
        TargetOs::Linux,
    );
    assert_eq!(
        PathBuf::from(got),
        PathBuf::from(format!("/plugins/smoke-gain{}", impl_suffix(TargetOs::Linux)))
    );
}

#[test]
fn impl_suffix_per_os() {
    assert_eq!(impl_suffix(TargetOs::Windows), ".impl.dll");
    assert_eq!(impl_suffix(TargetOs::MacOs), ".impl.dylib");
    assert_eq!(impl_suffix(TargetOs::Linux), ".impl.so");
    assert_eq!(dll_ext(TargetOs::Windows), ".dll");
    assert_eq!(dll_ext(TargetOs::MacOs), ".dylib");
    assert_eq!(dll_ext(TargetOs::Linux), ".so");
}

#[test]
fn resolve_walks_up_to_the_bundle() {
    assert_eq!(
        resolve_clap_path("/plugins/Gain.clap/Contents/MacOS/Gain"),
        "/plugins/Gain.clap"
    );
    assert_eq!(resolve_clap_path("/plugins/Gain.CLAP"), "/plugins/Gain.CLAP");
}

#[test]
fn resolve_keeps_a_path_without_clap() {
    assert_eq!(resolve_clap_path("/usr/lib/libfoo.so"), "/usr/lib/libfoo.so");
    assert_eq!(resolve_clap_path(""), "");
}

#[test]
fn impl_beside_windows_and_macos() {
    assert_eq!(
        impl_path_beside("/p/Synth.clap", TargetOs::Windows),
        "/p/Synth.impl.dll"
    );
    assert_eq!(
        impl_path_beside("/p/Synth.clap", TargetOs::MacOs),
        "/p/Synth.impl.dylib"
    );
}

use aura::hot::needs_reload;

#[test]
fn reload_when_nothing_loaded_or_file_changed() {
    assert!(needs_reload(None, (5, 0)));
    assert!(!needs_reload(Some((5, 7)), (5, 7)));
    assert!(needs_reload(Some((5, 7)), (5, 8)));
    assert!(needs_reload(Some((4, 7)), (5, 7)));
}
