use std::path;

use pc2frames::dep::Path;

#[test]
fn from_std_path_returns_correct_variant() {
    let cratesio = &format!(
        "{s}home{s}user{s}.cargo{s}registry{s}src{s}github.com-1ecc6299db9ec823{s}cortex-m-rt-0.6.13{s}src{s}lib.rs",
        s = path::MAIN_SEPARATOR,
    );
    let rustc = &format!(
        "{s}rustc{s}9bc8c42bb2f19e745a63f3445f1ac248fb015e53{s}library{s}core{s}src{s}panicking.rs",
        s = path::MAIN_SEPARATOR
    );
    let rust_std = &format!(
        "{s}home{s}user{s}.rustup{s}toolchains{s}stable-x86_64-unknown-linux-gnu{s}lib{s}rustlib{s}src{s}rust{s}library{s}core{s}src{s}sync{s}atomic.rs",
        s = path::MAIN_SEPARATOR,
    );
    let local = &format!("src{s}lib.rs", s = path::MAIN_SEPARATOR);

    assert!(matches!(Path::from_std_path(cratesio), Path::Cratesio(_)));
    assert!(matches!(Path::from_std_path(rustc), Path::Rustc(_)));
    assert!(matches!(Path::from_std_path(rust_std), Path::RustStd(_)));
    assert!(matches!(Path::from_std_path(local), Path::Verbatim(_)));
}

#[test]
fn cratesio_path_fields_and_rendering() {
    let p = Path::from_std_path(
        "/home/user/.cargo/registry/src/github.com-1ecc6299db9ec823/cortex-m-rt-0.6.13/src/lib.rs",
    );
    match &p {
        Path::Cratesio(c) => {
            assert_eq!(c.crate_dir, "cortex-m-rt-0.6.13");
            assert_eq!(c.rest, "src/lib.rs");
        }
        _ => panic!("expected a registry path"),
    }
    assert_eq!(p.format_short(), "[cortex-m-rt-0.6.13]/src/lib.rs");
    assert_eq!(
        p.format_highlight(),
        "/home/user/.cargo/registry/src/github.com-1ecc6299db9ec823/cortex-m-rt-0.6.13/src/lib.rs"
    );
}

#[test]
fn rust_std_path_fields_and_rendering() {
    let p = Path::from_std_path(
        "/home/user/.rustup/toolchains/stable-x86_64-unknown-linux-gnu/lib/rustlib/src/rust/library/core/src/sync/atomic.rs",
    );
    match &p {
        Path::RustStd(r) => {
            assert_eq!(r.toolchain, "stable-x86_64-unknown-linux-gnu");
            assert_eq!(r.rest, "library/core/src/sync/atomic.rs");
        }
        _ => panic!("expected a standard-library path"),
    }
    assert_eq!(p.format_short(), "[rust-std]/library/core/src/sync/atomic.rs");
}

#[test]
fn rustc_path_fields_and_rendering() {
    let p = Path::from_std_path(
        "/rustc/9bc8c42bb2f19e745a63f3445f1ac248fb015e53/library/core/src/panicking.rs",
    );
    match &p {
        Path::Rustc(r) => {
            assert_eq!(r.commit, "9bc8c42bb2f19e745a63f3445f1ac248fb015e53");
            assert_eq!(r.rest, "library/core/src/panicking.rs");
        }
        _ => panic!("expected a remapped compiler path"),
    }
    assert_eq!(p.format_short(), "[rust]/library/core/src/panicking.rs");
}

#[test]
fn rustc_detection_needs_a_full_hex_hash() {
    // too short
    assert!(matches!(
        Path::from_std_path("/rustc/9bc8c42b/library/core/src/panicking.rs"),
        Path::Verbatim(_)
    ));
    // right length, but not hexadecimal
    assert!(matches!(
        Path::from_std_path("/rustc/9bc8c42bb2f19e745a63f3445f1ac248fb015e5g/lib.rs"),
        Path::Verbatim(_)
    ));
}

#[test]
fn verbatim_path_renders_unchanged() {
    let p = Path::from_std_path("src/main.rs");
    assert_eq!(p.format_short(), "src/main.rs");
    assert_eq!(p.format_highlight(), "src/main.rs");
}
