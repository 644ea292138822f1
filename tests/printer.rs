use lddtree::deptree::{ArenaTree, DepNode};
use lddtree::dyld_cache::{osrelease, path, MacOsRelease};
use lddtree::deptree::DepMode;
use lddtree::printer::{create, label, Color, Printer};
use lddtree::system_dirs::{get_slibdir, get_system_dirs, Os};
use lddtree::android::AndroidRelease;
use lddtree::platform;

fn text(v: &[lddtree::printer::Segment]) -> String {
    v.iter().map(|s| s.text.as_str()).collect()
}

#[test]
fn tree_entries() {
    let p = create(false, false, true);
    assert_eq!(text(&p.print_dependency("libc.so.6", "/lib", "[ld.so.cache]", &vec![true])), "\\_ libc.so.6 [ld.so.cache]\n");
    assert_eq!(
        text(&p.print_already_found("libm.so.6", "/lib", "[ld.so.cache]", &vec![true, false, true])),
        "|     \\_ libm.so.6 [ld.so.cache]\n"
    );
    let nf = p.print_not_found("libx.so", &vec![false]);
    assert_eq!(text(&nf), "\\_ libx.so not found\n");
    assert_eq!(nf[1].color, Color::Red);
    let pp = Printer::new(true, false, false);
    assert_eq!(text(&pp.print_dependency("libc.so.6", "/lib", "[x]", &vec![false])), "\\_ /lib/libc.so.6 [x]\n");
    let ldd = create(false, true, false);
    assert_eq!(text(&ldd.print_dependency("libc.so.6", "/lib", "[x]", &vec![false])), "        libc.so.6 => /lib/libc.so.6\n");
    assert_eq!(text(&ldd.print_executable(&Some("/bin".to_string()), "ls")), "/bin/ls:\n");
    assert!(create(false, true, true).print_executable(&None, "ls").is_empty());
}

#[test]
fn mode_labels() {
    assert_eq!(label(DepMode::LdCache, Os::Linux), "[ld.so.cache]");
    assert_eq!(label(DepMode::LdCache, Os::FreeBsd), "[ld-elf.so.hints]");
    assert_eq!(label(DepMode::DtRpath, Os::Linux), "[rpath]");
    assert_eq!(label(DepMode::SystemDirs, Os::Linux), "[system default paths]");
}

#[test]
fn system_dirs_and_platform() {
    assert_eq!(get_slibdir(62, 2), Some("/lib64"));
    assert_eq!(get_slibdir(243, 1), Some("/lib32/ilp32d"));
    assert_eq!(get_slibdir(62, 3), None);
    let d: Vec<String> = get_system_dirs(Os::Linux, &None, 183, 2).unwrap().into_iter().map(|e| e.path).collect();
    assert_eq!(d, vec!["/lib64", "/usr/lib64"]);
    let interp = Some("/system/bin/linker_asan64".to_string());
    let d: Vec<String> =
        get_system_dirs(Os::Android(AndroidRelease::AndroidR30), &interp, 183, 2).unwrap().into_iter().map(|e| e.path).collect();
    assert_eq!(
        d,
        vec!["/data/asan/system/lib64", "/system/lib64", "/data/asan/odm/lib64", "/odm/lib64", "/data/asan/vendor/lib64", "/vendor/lib64"]
    );
    assert!(get_system_dirs(Os::Illumos, &None, 183, 2).is_none());
    assert_eq!(platform::get(40, 2), "v7b");
    assert_eq!(platform::get(62, 1), "x86_64");
    assert_eq!(platform::get(9999, 1), "");
}

#[test]
fn macos_release_and_cache_path() {
    assert_eq!(osrelease("22.1.0"), Some(MacOsRelease::Ventura));
    assert_eq!(osrelease("23.0"), Some(MacOsRelease::Ventura));
    assert_eq!(osrelease("21.6.0"), Some(MacOsRelease::Monterey));
    assert_eq!(osrelease("20.1"), Some(MacOsRelease::BigSur));
    assert_eq!(osrelease("19.6.0"), Some(MacOsRelease::Catalina));
    assert_eq!(osrelease("18.0"), None);
    assert_eq!(osrelease("x"), None);
    assert_eq!(osrelease("1000000000022.0"), Some(MacOsRelease::Ventura));
    assert_eq!(osrelease("0019.1"), Some(MacOsRelease::Catalina));
    assert_eq!(path(MacOsRelease::Catalina, "x86_64"), Some("/var/db/dyld/dyld_shared_cache_x86_64h"));
    assert_eq!(path(MacOsRelease::Catalina, "aarch64"), None);
    assert_eq!(path(MacOsRelease::BigSur, "aarch64"), Some("/System/Library/dyld/dyld_shared_cache_arm64e"));
    assert_eq!(label(DepMode::LdCache, Os::MacOs), "[dyld cache]");
    assert_eq!(label(DepMode::LdLibraryPath, Os::MacOs), "[DYLD_LIBRARY_PATH]");
}

#[test]
fn dyld_cache_without_header() {
    assert!(lddtree::dyld_cache::cache_images(b"too short").is_none());
    assert!(lddtree::dyld_cache::cache_images(&[0u8; 512]).is_none());
}

#[test]
fn print_order_traces() {
    let node = |n: &str| DepNode { path: Some("/l".to_string()), name: n.to_string(), mode: DepMode::SystemDirs, found: false };
    let mut t = ArenaTree::new();
    let r = t.addroot(node("root"));
    let a = t.addnode(node("a"), r);
    let _a1 = t.addnode(node("a1"), a);
    let _b = t.addnode(node("b"), r);
    let order: Vec<(usize, Vec<bool>)> = lddtree::printer::print_order(&t);
    assert_eq!(order, vec![(1, vec![true]), (2, vec![true, false]), (3, vec![true])]);
    let p = create(false, false, true);
    assert_eq!(text(&p.print_dependency("a1", "/l", "[x]", &order[1].1)), "|  \\_ a1 [x]\n");
}
