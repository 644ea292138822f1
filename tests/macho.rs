use lddtree::deptree::DepMode;
use lddtree::macho::{parse_macho, MachOError, CPU_TYPE_ARM64, CPU_TYPE_X86_64};
use lddtree::macho_resolver::{MachOAction, MachOConfig, MachOInfo, MachOResolver};
use lddtree::search_path::SearchPath;

fn cmd_with_str(cmd: u32, s: &str, hdr: usize) -> Vec<u8> {
    let mut body = s.as_bytes().to_vec();
    body.push(0);
    let size = ((hdr + body.len() + 7) / 8) * 8;
    let mut c = Vec::new();
    c.extend_from_slice(&cmd.to_le_bytes());
    c.extend_from_slice(&(size as u32).to_le_bytes());
    c.extend_from_slice(&(hdr as u32).to_le_bytes());
    c.resize(hdr, 0);
    c.extend_from_slice(&body);
    c.resize(size, 0);
    c
}

fn thin(cmds: &[Vec<u8>]) -> Vec<u8> {
    let body: Vec<u8> = cmds.concat();
    let mut b = Vec::new();
    for v in [0xfeed_facfu32, CPU_TYPE_X86_64, 3, 2, cmds.len() as u32, body.len() as u32, 0, 0] {
        b.extend_from_slice(&v.to_le_bytes());
    }
    b.extend_from_slice(&body);
    b
}

#[test]
fn reads_load_commands() {
    let b = thin(&[
        cmd_with_str(0xd, "@rpath/libself.dylib", 24),
        cmd_with_str(0xc, "/usr/lib/libSystem.B.dylib", 24),
        cmd_with_str(0x8000_001c, "@executable_path/../Frameworks", 12),
        cmd_with_str(0x8000_0018, "@rpath/libweak.dylib", 24),
    ]);
    let f = parse_macho(&b, CPU_TYPE_X86_64).unwrap();
    assert_eq!(f.soname.as_deref(), Some("@rpath/libself.dylib"));
    assert_eq!(f.deps, vec!["/usr/lib/libSystem.B.dylib", "@rpath/libweak.dylib"]);
    assert_eq!(f.rpath, vec!["@executable_path/../Frameworks"]);
}

#[test]
fn fat_picks_host_slice() {
    let slice = thin(&[cmd_with_str(0xc, "/usr/lib/libz.dylib", 24)]);
    let off = 4096u32;
    let mut b = Vec::new();
    for v in [0xcafe_babeu32, 1, CPU_TYPE_X86_64, 3, off, slice.len() as u32, 12] {
        b.extend_from_slice(&v.to_be_bytes());
    }
    b.resize(off as usize, 0);
    b.extend_from_slice(&slice);
    assert_eq!(parse_macho(&b, CPU_TYPE_X86_64).unwrap().deps, vec!["/usr/lib/libz.dylib"]);
    assert_eq!(parse_macho(&b, CPU_TYPE_ARM64).err(), Some(MachOError::NoSlice));
    assert_eq!(parse_macho(b"junk", CPU_TYPE_X86_64).err(), Some(MachOError::NotAnObject));
}

fn info(path: &str, rpath: &[&str], deps: &[&str]) -> MachOInfo {
    MachOInfo {
        path: path.to_string(),
        rpath: rpath.iter().enumerate().map(|(i, p)| SearchPath { path: p.to_string(), dev: 1, ino: i as u64 + 1 }).collect(),
        deps: deps.iter().map(|s| s.to_string()).collect(),
    }
}

fn run(root: MachOInfo, cache: &[&str], files: &[(&str, MachOInfo)]) -> (Vec<(String, DepMode, Option<String>)>, usize) {
    let (rows, opens, _) = run_all(root, cache, files, false);
    (rows, opens)
}

fn run_all(
    root: MachOInfo,
    cache: &[&str],
    files: &[(&str, MachOInfo)],
    all: bool,
) -> (Vec<(String, DepMode, Option<String>)>, usize, Vec<bool>) {
    let cfg = MachOConfig {
        library_path: vec![],
        preload: vec![],
        cache_images: cache.iter().map(|s| s.to_string()).collect(),
        executable_path: "/Applications/Foo.app/Contents/MacOS".to_string(),
        all,
    };
    let mut r = MachOResolver::new(root, cfg);
    let mut opens = 0;
    let mut act = r.step();
    loop {
        act = match act {
            MachOAction::Done => break,
            MachOAction::Continue => r.step(),
            MachOAction::Open(p) | MachOAction::OpenCached(p) => {
                opens += 1;
                let found = files.iter().find(|(k, _)| *k == p).map(|(_, v)| {
                    let deps: Vec<&str> = v.deps.iter().map(|s| s.as_str()).collect();
                    info(&v.path, &[], &deps)
                });
                r.feed(found)
            },
        };
    }
    (
        r.tree.arena.iter().map(|n| (n.val.name.clone(), n.val.mode, n.val.path.clone())).collect(),
        opens,
        r.tree.arena.iter().map(|n| n.val.found).collect(),
    )
}

#[test]
fn rpath_only_dependency_without_rpaths_is_not_found() {
    let root = info("/Applications/Foo.app/Contents/MacOS/foo", &[], &["@rpath/libbar.dylib"]);
    let (rows, opens) = run(root, &[], &[]);
    assert_eq!(rows[1].0, "libbar.dylib");
    assert_eq!(rows[1].1, DepMode::NotFound);
    assert_eq!(opens, 0);
}

#[test]
fn macos_rpath_chain() {
    let fw = "/Applications/Foo.app/Contents/MacOS/../Frameworks";
    let root = info("/Applications/Foo.app/Contents/MacOS/foo", &[fw], &["@rpath/libbar.dylib"]);
    let target = format!("{fw}/libbar.dylib");
    let canon = "/Applications/Foo.app/Contents/Frameworks/libbar.dylib";
    let (rows, _) = run(root, &[], &[(target.as_str(), info(canon, &[], &[]))]);
    assert_eq!(rows[1], ("libbar.dylib".to_string(), DepMode::Direct, Some("/Applications/Foo.app/Contents/Frameworks".to_string())));

    let root = info("/Applications/Foo.app/Contents/MacOS/foo", &["/usr/lib"], &["@rpath/libbar.dylib"]);
    let (rows, _) = run(root, &["/usr/lib/libbar.dylib"], &[("/usr/lib/libbar.dylib", info("/usr/lib/libbar.dylib", &[], &[]))]);
    assert_eq!(rows[1], ("libbar.dylib".to_string(), DepMode::LdCache, Some("/usr/lib".to_string())));
}

#[test]
fn repeated_dependency_is_a_back_reference() {
    let sys = "/usr/lib/libSystem.B.dylib";
    let root = info("/Applications/Foo.app/Contents/MacOS/foo", &[], &["/usr/lib/liba.dylib", sys]);
    let files = [
        ("/usr/lib/liba.dylib", info("/usr/lib/liba.dylib", &[], &[sys])),
        (sys, info(sys, &[], &[])),
    ];
    let (rows, opens, found) = run_all(root, &[], &files, true);
    assert_eq!(rows.len(), 4);
    assert_eq!(rows[2], ("libSystem.B.dylib".to_string(), DepMode::Direct, Some("/usr/lib".to_string())));
    assert_eq!(rows[3], ("libSystem.B.dylib".to_string(), DepMode::Direct, Some("/usr/lib".to_string())));
    assert_eq!(found, vec![false, false, false, true]);
    assert_eq!(opens, 2);
    let root = info("/Applications/Foo.app/Contents/MacOS/foo", &[], &["/usr/lib/liba.dylib", sys]);
    let (rows, _, _) = run_all(root, &[], &files, false);
    assert_eq!(rows.len(), 3);
    assert!(rows.iter().all(|r| r.1 != DepMode::NotFound));
}
