use lddtree::ld_hints::{freebsd_size_ok, parse_ld_so_hints_freebsd, parse_ld_so_hints_openbsd, HintsError};
use lddtree::search_path::from_entries;

fn elf_hints(dirs: Option<&[&str]>) -> Vec<u8> {
    let list = dirs.map(|d| d.join(":")).unwrap_or_default();
    let mut b: Vec<u8> = Vec::new();
    for v in [0x746e_6845u32, 1, 0, 0, 128, list.len() as u32] {
        b.extend_from_slice(&v.to_le_bytes());
    }
    b.extend_from_slice(&[0u8; 104]);
    b.extend_from_slice(list.as_bytes());
    b.push(0);
    b
}

#[test]
fn parse_ld_so_hints_empty() {
    assert!(parse_ld_so_hints_freebsd(&[]).is_err());
}

#[test]
fn parse_ld_so_hints_empty_dir() {
    let dirs = parse_ld_so_hints_freebsd(&elf_hints(None)).unwrap();
    // the single empty piece names no directory, so probing drops it
    let entries = from_entries(&dirs, &vec![None; dirs.len()]);
    assert_eq!(entries.len(), 0);
}

#[test]
fn parse_ld_so_hints_one() {
    let dirs = parse_ld_so_hints_freebsd(&elf_hints(Some(&["/tmp/lib1"]))).unwrap();
    assert_eq!(dirs, vec!["/tmp/lib1"]);
}

#[test]
fn parse_ld_so_hints_multiple() {
    let dirs = parse_ld_so_hints_freebsd(&elf_hints(Some(&["/tmp/lib1", "/tmp/lib2", "/tmp/lib3"]))).unwrap();
    assert_eq!(dirs.len(), 3);
    assert_eq!(dirs[0], "/tmp/lib1");
    assert_eq!(dirs[1], "/tmp/lib2");
    assert_eq!(dirs[2], "/tmp/lib3");
}

#[test]
fn freebsd_size_limit() {
    assert!(freebsd_size_ok(16 * 1024));
    assert!(!freebsd_size_ok(16 * 1024 + 1));
    let mut b = elf_hints(Some(&["/lib"]));
    b.resize(16 * 1024 + 1, 0);
    assert_eq!(parse_ld_so_hints_freebsd(&b).err(), Some(HintsError::TooLarge));
}

#[test]
fn freebsd_header_errors() {
    let mut b = elf_hints(Some(&["/lib"]));
    b[0] = 0;
    assert_eq!(parse_ld_so_hints_freebsd(&b).err(), Some(HintsError::BadMagic));
    let mut b = elf_hints(Some(&["/lib"]));
    b[4] = 2;
    assert_eq!(parse_ld_so_hints_freebsd(&b).err(), Some(HintsError::BadVersion));
}

#[test]
fn openbsd_hints() {
    let list = b"/usr/lib:/usr/local/lib;/usr/X11R6/lib\0";
    let mut b: Vec<u8> = Vec::new();
    let total = 64 + list.len() as u64;
    for v in [0o11421044151u64, 2, 0, 0, 64, list.len() as u64, total, 0] {
        b.extend_from_slice(&v.to_le_bytes());
    }
    b.extend_from_slice(list);
    let dirs = parse_ld_so_hints_openbsd(&b, false).unwrap();
    assert_eq!(dirs, vec!["/usr/lib", "/usr/local/lib", "/usr/X11R6/lib"]);
    let mut bad = b.clone();
    bad[8] = 1;
    assert_eq!(parse_ld_so_hints_openbsd(&bad, false).err(), Some(HintsError::BadVersion));
}
