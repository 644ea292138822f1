use lddtree::ld_so_cache::{
    check_cache_hwcap_extension, check_file_entry_flags, parse_ld_so_cache, CacheError, Target,
};

const X86_64_LIB64: i32 = 0x0303;

fn x86_64() -> Target {
    Target { ei_class: 2, e_machine: 62, e_flags: 0 }
}

/// A new-format cache: entries (flags, key, value, hwcap index), and the
/// glibc-hwcaps names when there are any.
fn new_cache(entries: &[(i32, &str, &str, Option<u32>)], hwcaps: &[&str]) -> Vec<u8> {
    let n = entries.len();
    let mut strings: Vec<u8> = Vec::new();
    let str_base = 48 + 24 * n;
    let mut add = |s: &str, strings: &mut Vec<u8>| -> u32 {
        let off = (str_base + strings.len()) as u32;
        strings.extend_from_slice(s.as_bytes());
        strings.push(0);
        off
    };
    let mut table: Vec<u8> = Vec::new();
    for (flags, k, v, hw) in entries {
        let ko = add(k, &mut strings);
        let vo = add(v, &mut strings);
        table.extend_from_slice(&flags.to_le_bytes());
        table.extend_from_slice(&ko.to_le_bytes());
        table.extend_from_slice(&vo.to_le_bytes());
        table.extend_from_slice(&0u32.to_le_bytes());
        let hwcap: u64 = match hw {
            Some(i) => (1u64 << 62) | *i as u64,
            None => 0,
        };
        table.extend_from_slice(&hwcap.to_le_bytes());
    }
    let name_offs: Vec<u32> = hwcaps.iter().map(|h| add(h, &mut strings)).collect();
    while strings.len() % 4 != 0 {
        strings.push(0);
    }
    let mut ext: Vec<u8> = Vec::new();
    let ext_off = if hwcaps.is_empty() { 0u32 } else { (str_base + strings.len()) as u32 };
    if !hwcaps.is_empty() {
        ext.extend_from_slice(&0xeaa4_2174u32.to_le_bytes());
        ext.extend_from_slice(&1u32.to_le_bytes());
        ext.extend_from_slice(&1u32.to_le_bytes());
        ext.extend_from_slice(&0u32.to_le_bytes());
        let list_off = ext_off + 8 + 16;
        ext.extend_from_slice(&list_off.to_le_bytes());
        ext.extend_from_slice(&((4 * name_offs.len()) as u32).to_le_bytes());
        for o in &name_offs {
            ext.extend_from_slice(&o.to_le_bytes());
        }
    }
    let mut b: Vec<u8> = Vec::new();
    b.extend_from_slice(b"glibc-ld.so.cache");
    b.extend_from_slice(b"1.1");
    b.extend_from_slice(&(n as u32).to_le_bytes());
    b.extend_from_slice(&(strings.len() as u32).to_le_bytes());
    b.push(2);
    b.extend_from_slice(&[0, 0, 0]);
    b.extend_from_slice(&ext_off.to_le_bytes());
    b.extend_from_slice(&[0u8; 12]);
    assert_eq!(b.len(), 48);
    b.extend_from_slice(&table);
    b.extend_from_slice(&strings);
    b.extend_from_slice(&ext);
    b
}

fn old_cache(entries: &[(i32, &str, &str)]) -> Vec<u8> {
    let n = entries.len();
    let mut strings: Vec<u8> = Vec::new();
    let mut table: Vec<u8> = Vec::new();
    for (flags, k, v) in entries {
        let ko = strings.len() as u32;
        strings.extend_from_slice(k.as_bytes());
        strings.push(0);
        let vo = strings.len() as u32;
        strings.extend_from_slice(v.as_bytes());
        strings.push(0);
        table.extend_from_slice(&flags.to_le_bytes());
        table.extend_from_slice(&ko.to_le_bytes());
        table.extend_from_slice(&vo.to_le_bytes());
    }
    let mut b: Vec<u8> = Vec::new();
    b.extend_from_slice(b"ld.so-1.7.0");
    b.push(0);
    b.extend_from_slice(&(n as u32).to_le_bytes());
    b.extend_from_slice(&table);
    b.extend_from_slice(&strings);
    b
}

fn pairs(v: &[(String, String)]) -> Vec<(&str, &str)> {
    v.iter().map(|(a, b)| (a.as_str(), b.as_str())).collect()
}

#[test]
fn new_format_round_trip() {
    let b = new_cache(
        &[
            (X86_64_LIB64, "libc.so.6", "/usr/lib/x86_64-linux-gnu/libc.so.6", None),
            (X86_64_LIB64, "libm.so.6", "/usr/lib/x86_64-linux-gnu/libm.so.6", None),
            (X86_64_LIB64, "libz.so.1", "/lib/libz.so.1", None),
        ],
        &[],
    );
    let m = parse_ld_so_cache(&b, false, &x86_64(), &vec![]).unwrap();
    assert_eq!(
        pairs(&m),
        vec![
            ("libc.so.6", "/usr/lib/x86_64-linux-gnu/libc.so.6"),
            ("libm.so.6", "/usr/lib/x86_64-linux-gnu/libm.so.6"),
            ("libz.so.1", "/lib/libz.so.1"),
        ]
    );
}

#[test]
fn other_abi_entries_are_filtered() {
    let b = new_cache(
        &[(0x0003, "libc.so.6", "/usr/lib32/libc.so.6", None), (X86_64_LIB64, "libc.so.6", "/usr/lib/libc.so.6", None)],
        &[],
    );
    let m = parse_ld_so_cache(&b, false, &x86_64(), &vec![]).unwrap();
    assert_eq!(pairs(&m), vec![("libc.so.6", "/usr/lib/libc.so.6")]);
}

#[test]
fn old_format_alone() {
    let b = old_cache(&[(X86_64_LIB64, "libc.so.6", "/l/c.6"), (X86_64_LIB64, "libm.so.6", "/l/m.6")]);
    let m = parse_ld_so_cache(&b, false, &x86_64(), &vec![]).unwrap();
    assert_eq!(pairs(&m), vec![("libc.so.6", "/l/c.6"), ("libm.so.6", "/l/m.6")]);
}

#[test]
fn old_format_followed_by_new_reads_new() {
    let mut b = old_cache(&[]);
    assert_eq!(b.len(), 16);
    b.extend_from_slice(&new_cache(&[(X86_64_LIB64, "libnew.so.1", "/new/libnew.so.1", None)], &[]));
    let m = parse_ld_so_cache(&b, false, &x86_64(), &vec![]).unwrap();
    assert_eq!(pairs(&m), vec![("libnew.so.1", "/new/libnew.so.1")]);
}

#[test]
fn hwcap_tie_break_x86_64_v3() {
    let b = new_cache(
        &[
            (X86_64_LIB64, "libm.so.6", "/usr/lib/libm.so.6", None),
            (X86_64_LIB64, "libm.so.6", "/usr/lib/glibc-hwcaps/x86-64-v3/libm.so.6", Some(0)),
        ],
        &["x86-64-v3"],
    );
    let v3 = vec!["x86-64-v3".to_string(), "x86-64-v2".to_string()];
    let m = parse_ld_so_cache(&b, false, &x86_64(), &v3).unwrap();
    assert_eq!(pairs(&m), vec![("libm.so.6", "/usr/lib/glibc-hwcaps/x86-64-v3/libm.so.6")]);
    let v2 = vec!["x86-64-v2".to_string()];
    let m = parse_ld_so_cache(&b, false, &x86_64(), &v2).unwrap();
    assert_eq!(pairs(&m), vec![("libm.so.6", "/usr/lib/libm.so.6")]);
}

#[test]
fn best_hwcap_wins() {
    let b = new_cache(
        &[
            (X86_64_LIB64, "libm.so.6", "/v2/libm.so.6", Some(1)),
            (X86_64_LIB64, "libm.so.6", "/v3/libm.so.6", Some(0)),
            (X86_64_LIB64, "libm.so.6", "/plain/libm.so.6", None),
        ],
        &["x86-64-v3", "x86-64-v2"],
    );
    let sup = vec!["x86-64-v3".to_string(), "x86-64-v2".to_string()];
    let m = parse_ld_so_cache(&b, false, &x86_64(), &sup).unwrap();
    assert_eq!(pairs(&m), vec![("libm.so.6", "/v3/libm.so.6")]);
}

#[test]
fn errors() {
    let mut b = new_cache(&[], &[]);
    b[0] = b'x';
    assert_eq!(parse_ld_so_cache(&b, false, &x86_64(), &vec![]).err(), Some(CacheError::BadMagic));
    let mut b = new_cache(&[], &[]);
    b[19] = b'2';
    assert_eq!(parse_ld_so_cache(&b, false, &x86_64(), &vec![]).err(), Some(CacheError::BadVersion));
    let b = new_cache(&[], &[]);
    assert_eq!(parse_ld_so_cache(&b, true, &x86_64(), &vec![]).err(), Some(CacheError::BadEndian));
    assert_eq!(parse_ld_so_cache(&b[..20], false, &x86_64(), &vec![]).err(), Some(CacheError::Truncated));
}

#[test]
fn entry_flags_table() {
    assert!(check_file_entry_flags(0x0303, 2, 62, 0));
    assert!(check_file_entry_flags(0x0803, 1, 62, 0));
    assert!(!check_file_entry_flags(0x0303, 1, 62, 0));
    assert!(check_file_entry_flags(0x0a03, 2, 183, 0));
    assert!(check_file_entry_flags(0x0903, 1, 40, 0x400));
    assert!(check_file_entry_flags(0x0003, 1, 40, 0x400));
    assert!(check_file_entry_flags(0x0003, 1, 40, 0x0500_0400));
    assert!(check_file_entry_flags(0x0903, 1, 40, 0x0500_0400));
    assert!(check_file_entry_flags(0x0b03, 1, 40, 0x0500_0200));
    assert!(!check_file_entry_flags(0x0003, 1, 40, 0x0500_0000));
    assert!(check_file_entry_flags(0x0503, 2, 21, 0));
    assert!(check_file_entry_flags(0x0003, 1, 3, 0));
    assert!(check_file_entry_flags(0x0c03, 1, 8, 1024));
    assert!(check_file_entry_flags(0x1003, 2, 243, 0x4));
}

#[test]
fn hwcap_extension_marker() {
    assert_eq!(check_cache_hwcap_extension((1u64 << 62) | 5), Some(5));
    assert_eq!(check_cache_hwcap_extension((1u64 << 62) | (3u64 << 32) | 7), Some(7));
    assert_eq!(check_cache_hwcap_extension(5), None);
}
