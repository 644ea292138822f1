use lddtree::ld_config_txt::{dir_assignment, parse_ld_config_txt};
use lddtree::search_path::from_entries;
use std::collections::HashMap;

use lddtree::deptree::{ArenaTree, DepMode, DepNode, DepTree};
use lddtree::elf_info::ElfInfo;
use lddtree::resolver::{candidates, Action, Config, LoaderCache, Resolver};
use lddtree::search_path::{SearchPath, SearchPathVec};
use lddtree::system_dirs::{get_system_dirs, Os};

#[derive(Clone, Default)]
struct Lib {
    soname: Option<String>,
    deps: Vec<String>,
    rpath: Vec<String>,
    nodeflibs: bool,
    class: u8,
}

fn dirs(v: &[&str]) -> SearchPathVec {
    v.iter()
        .enumerate()
        .map(|(i, p)| SearchPath { path: p.to_string(), dev: 1, ino: 1000 + i as u64 })
        .collect()
}

fn info(l: &Lib, interp: Option<&str>, is_musl: bool) -> ElfInfo {
    ElfInfo {
        ei_class: if l.class == 0 { 2 } else { l.class },
        ei_data: 1,
        ei_osabi: 0,
        e_machine: 62,
        e_flags: 0,
        interp: interp.map(|s| s.to_string()),
        soname: l.soname.clone(),
        rpath: dirs(&l.rpath.iter().map(|s| s.as_str()).collect::<Vec<_>>()),
        runpath: vec![],
        nodeflibs: l.nodeflibs,
        is_musl,
        deps: l.deps.clone(),
    }
}

fn lib(deps: &[&str]) -> Lib {
    Lib { deps: deps.iter().map(|s| s.to_string()).collect(), ..Default::default() }
}

fn config(cache: &[(&str, &str)], library_path: &[&str], all: bool) -> Config {
    Config {
        os: Os::Linux,
        preload: vec![],
        library_path: dirs(library_path),
        cache: LoaderCache::Sonames(cache.iter().map(|(a, b)| (a.to_string(), b.to_string())).collect()),
        system_dirs: get_system_dirs(Os::Linux, &None, 62, 2).unwrap(),
        all,
    }
}

fn run(root: ElfInfo, path: &str, cfg: Config, fs: &HashMap<&str, Lib>) -> (DepTree, Vec<String>) {
    let mut opened = Vec::new();
    let mut r = Resolver::new(root, path, cfg);
    let mut act = r.step();
    loop {
        act = match act {
            Action::Done => break,
            Action::Continue => r.step(),
            Action::Open(p) => {
                opened.push(p.clone());
                r.feed(fs.get(p.as_str()).map(|l| info(l, None, false)))
            },
        };
    }
    (r.tree, opened)
}

type Row = (String, DepMode, Option<String>, bool, Option<usize>);

fn rows(t: &DepTree) -> Vec<Row> {
    t.arena.iter().map(|n| (n.val.name.clone(), n.val.mode, n.val.path.clone(), n.val.found, n.parent)).collect()
}

fn row(name: &str, mode: DepMode, path: Option<&str>, found: bool, parent: Option<usize>) -> Row {
    (name.to_string(), mode, path.map(|s| s.to_string()), found, parent)
}

#[test]
fn glibc_hello() {
    let mut fs = HashMap::new();
    fs.insert("/usr/lib/x86_64-linux-gnu/libc.so.6", lib(&["ld-linux-x86-64.so.2"]));
    fs.insert("/usr/lib/x86_64-linux-gnu/libm.so.6", lib(&["libc.so.6", "ld-linux-x86-64.so.2"]));
    fs.insert("/lib64/ld-linux-x86-64.so.2", lib(&[]));
    let root = info(&lib(&["libc.so.6", "libm.so.6"]), Some("/lib64/ld-linux-x86-64.so.2"), false);
    let cfg = config(
        &[
            ("libc.so.6", "/usr/lib/x86_64-linux-gnu/libc.so.6"),
            ("libm.so.6", "/usr/lib/x86_64-linux-gnu/libm.so.6"),
        ],
        &[],
        true,
    );
    let (t, _) = run(root, "/usr/bin/hello", cfg, &fs);
    assert_eq!(
        rows(&t),
        vec![
            row("hello", DepMode::Executable, Some("/usr/bin"), false, None),
            row("libc.so.6", DepMode::LdCache, Some("/usr/lib/x86_64-linux-gnu"), false, Some(0)),
            row("ld-linux-x86-64.so.2", DepMode::SystemDirs, Some("/lib64"), false, Some(1)),
            row("libm.so.6", DepMode::LdCache, Some("/usr/lib/x86_64-linux-gnu"), false, Some(0)),
            row("libc.so.6", DepMode::LdCache, Some("/usr/lib/x86_64-linux-gnu"), true, Some(3)),
            row("ld-linux-x86-64.so.2", DepMode::SystemDirs, Some("/lib64"), true, Some(3)),
        ]
    );
}

#[test]
fn musl_loader_is_synthetic() {
    let fs = HashMap::new();
    let root = info(&lib(&["libc.so"]), Some("/lib/ld-musl-x86_64.so.1"), true);
    let (t, opened) = run(root, "/bin/app", config(&[], &[], true), &fs);
    assert_eq!(
        rows(&t),
        vec![
            row("app", DepMode::Executable, Some("/bin"), false, None),
            row("ld-musl-x86_64.so.1", DepMode::SystemDirs, Some("/lib"), true, Some(0)),
        ]
    );
    assert!(opened.is_empty());
}

#[test]
fn rpath_with_origin() {
    let mut fs = HashMap::new();
    fs.insert("/opt/app/lib/libfoo.so.1", lib(&[]));
    let mut x = lib(&["libfoo.so.1"]);
    x.rpath = vec!["/opt/app/lib".to_string()];
    let (t, _) = run(info(&x, None, false), "/opt/app/bin/x", config(&[], &[], false), &fs);
    assert_eq!(rows(&t)[1], row("libfoo.so.1", DepMode::DtRpath, Some("/opt/app/lib"), false, Some(0)));
}

#[test]
fn nodeflib_blocks_cache() {
    let mut fs = HashMap::new();
    fs.insert("/usr/lib/libfoo.so.1", lib(&[]));
    let mut x = lib(&["libfoo.so.1"]);
    x.rpath = vec!["/opt/app/lib".to_string()];
    x.nodeflibs = true;
    let (t, opened) = run(info(&x, None, false), "/opt/app/bin/x", config(&[("libfoo.so.1", "/usr/lib/libfoo.so.1")], &[], false), &fs);
    assert_eq!(rows(&t)[1], row("libfoo.so.1", DepMode::NotFound, Some(""), false, Some(0)));
    assert_eq!(opened, vec!["/opt/app/lib/libfoo.so.1"]);
}

#[test]
fn nodeflibs_applies_to_direct_children_only() {
    let mut fs = HashMap::new();
    let mut a = lib(&["libb.so"]);
    a.nodeflibs = false;
    fs.insert("/r/liba.so", a);
    fs.insert("/lib64/libb.so", lib(&[]));
    fs.insert("/lib64/libc2.so", lib(&[]));
    let mut root = lib(&["liba.so", "libc2.so"]);
    root.rpath = vec!["/r".to_string()];
    root.nodeflibs = true;
    let (t, _) = run(info(&root, None, false), "/bin/x", config(&[], &[], false), &fs);
    assert_eq!(
        rows(&t),
        vec![
            row("x", DepMode::Executable, Some("/bin"), false, None),
            row("liba.so", DepMode::DtRpath, Some("/r"), false, Some(0)),
            row("libb.so", DepMode::SystemDirs, Some("/lib64"), false, Some(1)),
            row("libc2.so", DepMode::NotFound, Some(""), false, Some(0)),
        ]
    );
}

#[test]
fn rpath_shadows_library_path() {
    let mut fs = HashMap::new();
    fs.insert("/r/libx.so", lib(&[]));
    fs.insert("/l/libx.so", lib(&[]));
    let mut root = lib(&["libx.so"]);
    root.rpath = vec!["/r".to_string()];
    let (t, _) = run(info(&root, None, false), "/bin/x", config(&[], &["/l"], false), &fs);
    assert_eq!(rows(&t)[1].1, DepMode::DtRpath);
    // an incompatible copy in the rpath directory is passed over
    let mut fs2 = fs.clone();
    let mut bad = lib(&[]);
    bad.class = 1;
    fs2.insert("/r/libx.so", bad);
    let mut root = lib(&["libx.so"]);
    root.rpath = vec!["/r".to_string()];
    let (t, opened) = run(info(&root, None, false), "/bin/x", config(&[], &["/l"], false), &fs2);
    assert_eq!(rows(&t)[1], row("libx.so", DepMode::LdLibraryPath, Some("/l"), false, Some(0)));
    assert_eq!(opened, vec!["/r/libx.so", "/l/libx.so"]);
}

#[test]
fn soname_mismatch_moves_on() {
    let mut fs = HashMap::new();
    let mut wrong = lib(&[]);
    wrong.soname = Some("libother.so".to_string());
    fs.insert("/lib64/libx.so", wrong);
    fs.insert("/usr/lib64/libx.so", lib(&[]));
    let (t, _) = run(info(&lib(&["libx.so"]), None, false), "/bin/x", config(&[], &[], false), &fs);
    assert_eq!(rows(&t)[1], row("libx.so", DepMode::SystemDirs, Some("/usr/lib64"), false, Some(0)));
}

#[test]
fn repeated_runs_give_equal_trees() {
    let mut fs = HashMap::new();
    fs.insert("/lib64/liba.so", lib(&["libb.so", "libc.so"]));
    fs.insert("/lib64/libb.so", lib(&["liba.so"]));
    let mk = || info(&lib(&["liba.so", "libb.so"]), None, false);
    let (t1, o1) = run(mk(), "/bin/x", config(&[], &[], true), &fs);
    let (t2, o2) = run(mk(), "/bin/x", config(&[], &[], true), &fs);
    assert_eq!(rows(&t1), rows(&t2));
    assert_eq!(o1, o2);
}

#[test]
fn cycles_end_with_back_references() {
    let mut fs = HashMap::new();
    fs.insert("/lib64/liba.so", lib(&["libb.so"]));
    fs.insert("/lib64/libb.so", lib(&["liba.so"]));
    let (t, _) = run(info(&lib(&["liba.so", "libb.so"]), None, false), "/bin/x", config(&[], &[], true), &fs);
    let r = rows(&t);
    assert_eq!(r.len(), 5);
    for name in ["liba.so", "libb.so"] {
        assert_eq!(r.iter().filter(|x| x.0 == name && !x.3).count(), 1);
    }
}

#[test]
fn absolute_needed_is_direct() {
    let mut fs = HashMap::new();
    fs.insert("/opt/x/libabs.so", lib(&[]));
    let root = info(&lib(&["/opt/x/libabs.so", "/opt/x/missing.so"]), None, false);
    let cfg = config(&[], &["/l"], false);
    let c = candidates("/opt/x/libabs.so", &root, &cfg, false);
    assert_eq!(c.len(), 1);
    let (t, _) = run(root, "/bin/x", cfg, &fs);
    assert_eq!(rows(&t)[1], row("libabs.so", DepMode::Direct, Some("/opt/x"), false, Some(0)));
    assert_eq!(rows(&t)[2], row("missing.so", DepMode::NotFound, Some("/opt/x"), false, Some(0)));
}

#[test]
fn same_file_name_in_two_directories_is_one_entry() {
    let mut fs = HashMap::new();
    fs.insert("/a/libx.so", lib(&[]));
    fs.insert("/b/libx.so", lib(&[]));
    let (t, opened) = run(info(&lib(&["/a/libx.so", "/b/libx.so"]), None, false), "/bin/x", config(&[], &[], true), &fs);
    let r = rows(&t);
    assert_eq!(r[1], row("libx.so", DepMode::Direct, Some("/a"), false, Some(0)));
    assert_eq!(r[2], row("libx.so", DepMode::Direct, Some("/a"), true, Some(0)));
    assert_eq!(opened, vec!["/a/libx.so"]);
}

#[test]
fn addroot_on_a_tree_with_nodes() {
    let node = |n: &str| DepNode { path: None, name: n.to_string(), mode: DepMode::Executable, found: false };
    let mut t = ArenaTree::new();
    assert_eq!(t.addroot(node("a")), 0);
    assert_eq!(t.addroot(node("b")), 1);
    assert_eq!(t.arena[1].parent, None);
}

#[test]
fn android_namespace_walk() {
    let lines: Vec<String> = vec![
        "dir.s = /b",
        "[s]",
        "additional.namespaces = system",
        "namespace.default.isolated = true",
        "namespace.default.allowed_libs = libapp.so",
        "namespace.default.search.paths = /vendor/${LIB}",
        "namespace.default.links = system",
        "namespace.default.link.system.shared_libs = libc.so",
        "namespace.system.search.paths = /system/${LIB}",
    ]
    .into_iter()
    .map(|s| s.to_string())
    .collect();
    let resolved: Vec<Option<String>> = lines.iter().map(|l| dir_assignment(l).map(|(_, p)| p)).collect();
    let mut c = parse_ld_config_txt(&lines, &resolved, "/b/bin", "linker64", lddtree::android::AndroidRelease::AndroidR30, 62, 2, "", &None).unwrap();
    for ns in c.namespaces_config.iter_mut() {
        let ids = (0..ns.search_dirs.len()).map(|i| Some((9, i as u64 + 100 * ns.name.len() as u64))).collect();
        ns.search_paths = from_entries(&ns.search_dirs, &ids);
    }
    let mut cfg = config(&[], &[], false);
    cfg.cache = LoaderCache::Namespaces(c.namespaces_config);
    let root = info(&lib(&["libapp.so", "libc.so", "libz.so"]), None, false);
    let a: Vec<String> = candidates("libapp.so", &root, &cfg, false).into_iter().filter(|c| c.mode == DepMode::LdCache).map(|c| c.file).collect();
    assert_eq!(a, vec!["/vendor/lib64/libapp.so"]);
    let b: Vec<String> = candidates("libc.so", &root, &cfg, false).into_iter().filter(|c| c.mode == DepMode::LdCache).map(|c| c.file).collect();
    assert_eq!(b, vec!["/system/lib64/libc.so"]);
    let z: Vec<String> = candidates("libz.so", &root, &cfg, false).into_iter().filter(|c| c.mode == DepMode::LdCache).map(|c| c.file).collect();
    assert!(z.is_empty());
}
