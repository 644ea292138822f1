use lddtree::pathutils::{get_name, get_path, join, normalize};
use lddtree::text::{replace, split, strip_comment, trim};

#[test]
fn path_parts() {
    assert_eq!(get_path("/usr/lib/libc.so.6").as_deref(), Some("/usr/lib"));
    assert_eq!(get_path("/libc.so").as_deref(), Some("/"));
    assert_eq!(get_path("libc.so").as_deref(), Some(""));
    assert_eq!(get_path("/"), None);
    assert_eq!(get_path(""), None);
    assert_eq!(get_name("/usr/lib/libc.so.6"), "libc.so.6");
    assert_eq!(get_name("libc.so.6"), "libc.so.6");
    assert_eq!(join("/usr/lib", "libm.so"), "/usr/lib/libm.so");
    assert_eq!(join("/usr/lib/", "libm.so"), "/usr/lib/libm.so");
    assert_eq!(join("/usr/lib", "/abs/libm.so"), "/abs/libm.so");
    assert_eq!(join("", "libm.so"), "libm.so");
}

#[test]
fn string_helpers() {
    assert_eq!(trim("  a b \t"), "a b");
    assert_eq!(trim("   "), "");
    assert_eq!(strip_comment("  /lib # c"), "/lib");
    assert_eq!(split("a:b;c", &[':', ';']), vec!["a", "b", "c"]);
    assert_eq!(split("", &[':']), vec![""]);
    assert_eq!(replace("$O$O$", "$O", "x"), "xx$");
    assert_eq!(replace("aaa", "aa", "b"), "ba");
}

#[test]
fn path_normalization() {
    assert_eq!(normalize("/opt/app/bin/../lib"), "/opt/app/lib");
    assert_eq!(normalize("/a/./b//c/"), "/a/b/c");
    assert_eq!(normalize("/../x"), "/x");
    assert_eq!(normalize("/"), "/");
    assert_eq!(normalize("rel/../x"), "rel/../x");
    assert_eq!(normalize(""), "");
}
