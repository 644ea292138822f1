use lddtree::elf::{parse_elf, MalformedReason, ParseError};
use lddtree::elf_info::{compatible, elf_info, expand_tokens, search_dirs, ElfInfo};
use lddtree::deptree::DepMode;
use lddtree::resolver::{Action, Config, LoaderCache, Resolver};
use lddtree::search_path::from_entries;
use lddtree::system_dirs::{get_system_dirs, Os};

fn put(b: &mut Vec<u8>, off: usize, v: &[u8]) {
    if b.len() < off + v.len() {
        b.resize(off + v.len(), 0);
    }
    b[off..off + v.len()].copy_from_slice(v);
}

struct Spec<'a> {
    e_type: u16,
    needed: &'a [&'a str],
    soname: Option<&'a str>,
    rpath: Option<&'a str>,
    runpath: Option<&'a str>,
    flags1: Option<u64>,
    strtab_addr: Option<u64>,
}

fn plain(needed: &'static [&'static str]) -> Spec<'static> {
    Spec { e_type: 3, needed, soname: None, rpath: None, runpath: None, flags1: None, strtab_addr: None }
}

/// A little-endian ELF64 x86-64 file: one PT_LOAD over the whole file at
/// address 0, a PT_INTERP and a PT_DYNAMIC.
fn build(s: &Spec) -> Vec<u8> {
    let interp = b"/lib64/ld-linux-x86-64.so.2\0";
    let mut strtab: Vec<u8> = vec![0];
    let mut add = |t: &str, strtab: &mut Vec<u8>| -> u64 {
        let off = strtab.len() as u64;
        strtab.extend_from_slice(t.as_bytes());
        strtab.push(0);
        off
    };
    let mut dyns: Vec<(u64, u64)> = Vec::new();
    for n in s.needed {
        let o = add(n, &mut strtab);
        dyns.push((1, o));
    }
    if let Some(x) = s.soname {
        let o = add(x, &mut strtab);
        dyns.push((14, o));
    }
    if let Some(x) = s.rpath {
        let o = add(x, &mut strtab);
        dyns.push((15, o));
    }
    if let Some(x) = s.runpath {
        let o = add(x, &mut strtab);
        dyns.push((29, o));
    }
    if let Some(f) = s.flags1 {
        dyns.push((0x6fff_fffb, f));
    }
    let interp_off = 64 + 3 * 56;
    let dyn_off = interp_off + 32;
    let ndyn = dyns.len() + 3;
    let str_off = dyn_off + ndyn * 16;
    dyns.push((5, s.strtab_addr.unwrap_or(str_off as u64)));
    dyns.push((10, strtab.len() as u64));
    dyns.push((0, 0));
    let total = str_off + strtab.len();

    let mut b = vec![0u8; total];
    put(&mut b, 0, &[0x7f, b'E', b'L', b'F', 2, 1, 1, 0]);
    put(&mut b, 16, &s.e_type.to_le_bytes());
    put(&mut b, 18, &62u16.to_le_bytes());
    put(&mut b, 20, &1u32.to_le_bytes());
    put(&mut b, 32, &64u64.to_le_bytes());
    put(&mut b, 52, &64u16.to_le_bytes());
    put(&mut b, 54, &56u16.to_le_bytes());
    put(&mut b, 56, &3u16.to_le_bytes());
    let ph = |b: &mut Vec<u8>, i: usize, t: u32, off: u64, size: u64| {
        let o = 64 + i * 56;
        put(b, o, &t.to_le_bytes());
        put(b, o + 8, &off.to_le_bytes());
        put(b, o + 16, &off.to_le_bytes());
        put(b, o + 24, &off.to_le_bytes());
        put(b, o + 32, &size.to_le_bytes());
        put(b, o + 40, &size.to_le_bytes());
    };
    ph(&mut b, 0, 1, 0, total as u64);
    ph(&mut b, 1, 3, interp_off as u64, interp.len() as u64);
    ph(&mut b, 2, 2, dyn_off as u64, (ndyn * 16) as u64);
    put(&mut b, interp_off, interp);
    for (i, (t, v)) in dyns.iter().enumerate() {
        put(&mut b, dyn_off + i * 16, &t.to_le_bytes());
        put(&mut b, dyn_off + i * 16 + 8, &v.to_le_bytes());
    }
    put(&mut b, str_off, &strtab);
    b
}

#[test]
fn reads_header_and_dynamic_entries() {
    let b = build(&Spec {
        e_type: 3,
        needed: &["libfoo.so.1", "libc.so.6", "libfoo.so.1"],
        soname: Some("libbar.so.2"),
        rpath: Some("$ORIGIN/../lib"),
        runpath: None,
        flags1: Some(0x800),
        strtab_addr: None,
    });
    let f = parse_elf(&b).unwrap();
    assert_eq!(f.ei_class, 2);
    assert_eq!(f.ei_data, 1);
    assert_eq!(f.e_machine, 62);
    assert_eq!(f.interp.as_deref(), Some("/lib64/ld-linux-x86-64.so.2"));
    assert_eq!(f.soname.as_deref(), Some("libbar.so.2"));
    assert_eq!(f.rpath.as_deref(), Some("$ORIGIN/../lib"));
    assert_eq!(f.runpath, None);
    assert!(f.nodeflibs);
    assert_eq!(f.needed, vec!["libfoo.so.1", "libc.so.6", "libfoo.so.1"]);
}

#[test]
fn nodeflib_flag_absent() {
    let f = parse_elf(&build(&plain(&["libc.so.6"]))).unwrap();
    assert!(!f.nodeflibs);
    assert_eq!(f.soname, None);
}

#[test]
fn rejects_non_elf_and_relocatable() {
    assert_eq!(parse_elf(b"not an elf file at all").err(), Some(ParseError::NotAnObject));
    assert_eq!(parse_elf(&[]).err(), Some(ParseError::NotAnObject));
    let mut s = plain(&["libc.so.6"]);
    s.e_type = 1;
    assert_eq!(parse_elf(&build(&s)).err(), Some(ParseError::UnsupportedObject));
}

#[test]
fn strtab_outside_load_is_malformed() {
    let mut s = plain(&["libc.so.6"]);
    s.strtab_addr = Some(0x10_0000);
    assert_eq!(
        parse_elf(&build(&s)).err(),
        Some(ParseError::MalformedObject(MalformedReason::MissingDynamicStringTable))
    );
}

#[test]
fn truncated_header_is_malformed() {
    let b = build(&plain(&["libc.so.6"]));
    assert_eq!(
        parse_elf(&b[..40]).err(),
        Some(ParseError::MalformedObject(MalformedReason::Truncated))
    );
}

#[test]
fn token_expansion_both_sigils() {
    let r = expand_tokens("$ORIGIN/a:${ORIGIN}/b:$LIB:${LIB}:$PLATFORM/${PLATFORM}", "/opt/app/bin", Some("/lib64"), "x86_64");
    assert_eq!(r, "/opt/app/bin/a:/opt/app/bin/b:/lib64:/lib64:x86_64/x86_64");
    assert!(!r.contains('$'));
    let r = expand_tokens("$LIB/x", "/o", None, "p");
    assert_eq!(r, "$LIB/x");
}

#[test]
fn search_dirs_expand_origin_lib_and_platform() {
    let mut s = plain(&[]);
    s.rpath = Some("$ORIGIN/../lib:$LIB");
    s.runpath = Some("/r/${PLATFORM}");
    let f = parse_elf(&build(&s)).unwrap();
    let (rp, run) = search_dirs(&f, "/opt/app/bin", Os::Linux, &None);
    assert_eq!(rp, vec!["/opt/app/lib", "/lib64"]);
    assert_eq!(run, vec!["/r/x86_64"]);
    let (_, run) = search_dirs(&f, "/o", Os::FreeBsd, &Some("haswell".to_string()));
    assert_eq!(run, vec!["/r/haswell"]);
}

fn info(class: u8, machine: u16, soname: Option<&str>) -> ElfInfo {
    ElfInfo {
        ei_class: class,
        ei_data: 1,
        ei_osabi: 0,
        e_machine: machine,
        e_flags: 0,
        interp: None,
        soname: soname.map(|s| s.to_string()),
        rpath: vec![],
        runpath: vec![],
        nodeflibs: false,
        is_musl: false,
        deps: vec![],
    }
}

#[test]
fn compatibility_checks() {
    let parent = info(2, 62, None);
    assert!(compatible(Os::Linux, &parent, &info(2, 62, None), "libfoo.so.1"));
    assert!(compatible(Os::Linux, &parent, &info(2, 62, Some("libfoo.so.1")), "libfoo.so.1"));
    assert!(!compatible(Os::Linux, &parent, &info(2, 62, Some("libfoo.so.2")), "libfoo.so.1"));
    assert!(!compatible(Os::Linux, &parent, &info(1, 62, None), "libfoo.so.1"));
    assert!(!compatible(Os::Linux, &parent, &info(2, 183, None), "libfoo.so.1"));
    assert!(!compatible(Os::FreeBsd, &parent, &info(2, 62, None), "libfoo.so.1"));
    assert!(compatible(Os::Linux, &parent, &info(2, 62, Some("libfoo.so.2")), "/abs/libfoo.so"));
}

#[test]
fn elf_info_detects_musl() {
    let mut f = parse_elf(&build(&plain(&["libc.so"]))).unwrap();
    f.interp = Some("/lib/ld-musl-x86_64.so.1".to_string());
    let i = elf_info(f, vec![], vec![]);
    assert!(i.is_musl);
    assert_eq!(i.deps, vec!["libc.so"]);
}

#[test]
fn origin_rpath_end_to_end() {
    let mut s = plain(&["libfoo.so.1"]);
    s.rpath = Some("$ORIGIN/../lib");
    let f = parse_elf(&build(&s)).unwrap();
    let (rp, run) = search_dirs(&f, "/opt/app/bin", Os::Linux, &None);
    let rpath = from_entries(&rp, &vec![Some((1, 7)); rp.len()]);
    let runpath = from_entries(&run, &vec![]);
    let root = elf_info(f, rpath, runpath);
    let cfg = Config {
        os: Os::Linux,
        preload: vec![],
        library_path: vec![],
        cache: LoaderCache::Empty,
        system_dirs: get_system_dirs(Os::Linux, &None, 62, 2).unwrap(),
        all: false,
    };
    let lib = parse_elf(&build(&plain(&[]))).unwrap();
    let mut lib = Some(elf_info(lib, vec![], vec![]));
    let mut r = Resolver::new(root, "/opt/app/bin/x", cfg);
    let mut act = r.step();
    loop {
        act = match act {
            Action::Done => break,
            Action::Continue => r.step(),
            Action::Open(p) => {
                let found = if p == "/opt/app/lib/libfoo.so.1" { lib.take() } else { None };
                r.feed(found)
            },
        };
    }
    let n = &r.tree.arena[1].val;
    assert_eq!(n.name, "libfoo.so.1");
    assert_eq!(n.mode, DepMode::DtRpath);
    assert_eq!(n.path.as_deref(), Some("/opt/app/lib"));
}
