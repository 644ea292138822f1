use lddtree::hwcap::auxv::{getauxval, AT_HWCAP, AT_HWCAP2};
use lddtree::hwcap::x86::{levels, X86Cpuid};
use lddtree::hwcap::{hwcap_supported, ppc64, s390x, HostArch};

fn cpu(v2: bool, v3: bool, v4: bool) -> X86Cpuid {
    let base_edx = (1 << 15) | (1 << 8) | 1 | (1 << 24) | (1 << 23) | (1 << 25) | (1 << 26);
    let mut ecx = 0u32;
    let mut e1 = 0u32;
    let mut l7 = 0u32;
    if v2 {
        ecx |= (1 << 13) | (1 << 23) | 1 | (1 << 9) | (1 << 19) | (1 << 20);
        e1 |= 1;
    }
    if v3 {
        ecx |= (1 << 28) | (1 << 29) | (1 << 12) | (1 << 22);
        e1 |= 1 << 5;
        l7 |= (1 << 3) | (1 << 8);
    }
    if v4 {
        l7 |= (1 << 16) | (1 << 30) | (1 << 28) | (1 << 17) | (1u32 << 31);
    }
    X86Cpuid { max_leaf: 13, max_ext: 0x8000_0008, l1_ecx: ecx, l1_edx: base_edx, l7_ebx: l7, e1_ecx: e1 }
}

#[test]
fn x86_levels() {
    assert_eq!(levels(&cpu(true, true, true)), vec!["x86-64-v4", "x86-64-v3", "x86-64-v2"]);
    assert_eq!(levels(&cpu(true, true, false)), vec!["x86-64-v3", "x86-64-v2"]);
    assert_eq!(levels(&cpu(true, false, false)), vec!["x86-64-v2"]);
    assert!(levels(&cpu(false, true, true)).is_empty());
    let mut old = cpu(true, true, true);
    old.max_leaf = 6;
    assert_eq!(levels(&old), vec!["x86-64-v2"]);
}

#[test]
fn probe_chosen_by_architecture() {
    let c = Some(cpu(true, true, false));
    assert_eq!(hwcap_supported(HostArch::X86, &c, &[], true, false), vec!["x86-64-v3", "x86-64-v2"]);
    assert!(hwcap_supported(HostArch::X86, &None, &[], true, false).is_empty());
    let mut b = Vec::new();
    for (k, v) in [(AT_HWCAP, 0x800u64 | 0x8_0000), (AT_HWCAP2, 0x00c6_0000), (0, 0)] {
        b.extend_from_slice(&k.to_le_bytes());
        b.extend_from_slice(&v.to_le_bytes());
    }
    assert_eq!(hwcap_supported(HostArch::Ppc64, &c, &b, true, false), vec!["power10", "power9"]);
    assert_eq!(hwcap_supported(HostArch::S390x, &c, &b, true, false), vec!["z16", "z13"]);
    assert!(hwcap_supported(HostArch::Other, &c, &b, true, false).is_empty());
}

#[test]
fn power_and_z_levels() {
    assert_eq!(ppc64::supported(0x0080_0000 | 0x0040_0000), vec!["power9"]);
    assert_eq!(ppc64::supported(0x00c6_0000), vec!["power10", "power9"]);
    assert_eq!(s390x::supported(0x800 | 0x1000 | 0x2000 | 0x4000), vec!["z14", "z13"]);
    assert_eq!(s390x::supported(0x8_0000), vec!["z16"]);
}

#[test]
fn auxv_lookup() {
    let mut b = Vec::new();
    for (k, v) in [(6u64, 4096u64), (AT_HWCAP, 0xabc), (AT_HWCAP2, 0x2), (0, 0)] {
        b.extend_from_slice(&k.to_le_bytes());
        b.extend_from_slice(&v.to_le_bytes());
    }
    assert_eq!(getauxval(&b, AT_HWCAP, true, false), Some(0xabc));
    assert_eq!(getauxval(&b, AT_HWCAP2, true, false), Some(2));
    assert_eq!(getauxval(&b, 33, true, false), None);
    assert_eq!(getauxval(&b[..20], AT_HWCAP, true, false), None);
}
