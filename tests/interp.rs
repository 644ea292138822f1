use lddtree::interp::{is_glibc, is_musl};

#[test]
fn check_is_musl() {
    assert_eq!(is_musl(&None), false);
    assert_eq!(is_musl(&Some("ld-linux-aarch64.so.1".to_string())), false);
    assert_eq!(is_musl(&Some("ld-musl-aarch64.so".to_string())), false);
    assert_eq!(is_musl(&Some("ld-musl-aarch64.so.1".to_string())), true);
    assert_eq!(is_musl(&Some("ld-musl-aarch64_be.so.1".to_string())), true);
    assert_eq!(
        is_musl(&Some("/lib/ld-musl-aarch64.so.1".to_string())),
        true
    );
    assert_eq!(is_musl(&Some("/lib/ld-musl-x86_64.so.1".to_string())), true);
}

#[test]
fn glibc_loader_names() {
    assert!(is_glibc(&Some("/lib64/ld-linux-x86-64.so.2".to_string())));
    assert!(is_glibc(&Some("ld64.so.2".to_string())));
    assert!(!is_glibc(&Some("/lib/ld-musl-x86_64.so.1".to_string())));
    assert!(!is_glibc(&None));
}

#[test]
fn musl_subarchitectures() {
    assert!(is_musl(&Some("/lib/ld-musl-mips64r6el-sf.so.1".to_string())));
    assert!(is_musl(&Some("/lib/ld-musl-armhf.so.1".to_string())));
    assert!(is_musl(&Some("/lib/ld-musl-sheb-nofpu.so.1".to_string())));
    assert!(is_musl(&Some("/lib/ld-musl-m68k-fp64.so.1".to_string())));
    assert!(!is_musl(&Some("/lib/ld-musl-armv7.so.1".to_string())));
    assert!(!is_musl(&Some("/lib/ld-musl-x86_64.so.2".to_string())));
}
