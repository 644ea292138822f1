//! Default library directories per operating system, machine and class.
use vstd::prelude::*;
use crate::elf_defs::{
    ELFCLASS32, ELFCLASS64, EM_386, EM_68K, EM_AARCH64, EM_ALPHA, EM_ALTERA_NIOS2, EM_ARCV2, EM_ARM,
    EM_CSKY, EM_LOONGARCH, EM_MICROBLAZE, EM_MIPS, EM_MIPS_RS3_LE, EM_OPENRISC, EM_PARISC, EM_PPC,
    EM_PPC64, EM_RISCV, EM_S390, EM_SH, EM_SPARC, EM_X86_64,
};
use crate::android::{AndroidRelease, is_asan, is_asan_spec};
use crate::search_path::{SearchPath, SearchPathVec, synthetic};

verus! {

/// The operating system whose loader is modelled.
#[derive(PartialEq, Eq, Structural, Clone, Copy, Debug)]
pub enum Os {
    Linux,
    Android(AndroidRelease),
    FreeBsd,
    OpenBsd,
    NetBsd,
    Illumos,
    /// macOS, whose binaries are Mach-O: no ELF default directories.
    MacOs,
}

/// glibc's `$slibdir` for a machine and class.
pub open spec fn slibdir_spec(e_machine: u16, ei_class: u8) -> Option<Seq<char>> {
    if e_machine == EM_AARCH64 || e_machine == EM_ALPHA || e_machine == EM_PPC64 || e_machine == EM_LOONGARCH {
        Some("/lib64"@)
    } else if e_machine == EM_ARCV2 || e_machine == EM_ARM || e_machine == EM_CSKY || e_machine == EM_PARISC
        || e_machine == EM_386 || e_machine == EM_68K || e_machine == EM_MICROBLAZE
        || e_machine == EM_ALTERA_NIOS2 || e_machine == EM_OPENRISC || e_machine == EM_PPC
        || e_machine == EM_SH {
        Some("/lib"@)
    } else if e_machine == EM_S390 || e_machine == EM_SPARC || e_machine == EM_MIPS || e_machine == EM_MIPS_RS3_LE {
        if ei_class == ELFCLASS32 { Some("/lib"@) } else if ei_class == ELFCLASS64 { Some("/lib64"@) } else { None }
    } else if e_machine == EM_RISCV {
        if ei_class == ELFCLASS32 {
            Some("/lib32/ilp32d"@)
        } else if ei_class == ELFCLASS64 {
            Some("/lib64/lp64d"@)
        } else {
            None
        }
    } else if e_machine == EM_X86_64 {
        if ei_class == ELFCLASS32 { Some("/libx32"@) } else if ei_class == ELFCLASS64 { Some("/lib64"@) } else { None }
    } else {
        None
    }
}

pub fn get_slibdir(e_machine: u16, ei_class: u8) -> (r: Option<&'static str>)
    ensures
        match r {
            Some(s) => slibdir_spec(e_machine, ei_class) == Some(s@),
            None => slibdir_spec(e_machine, ei_class) is None,
        },
{
    if e_machine == EM_AARCH64 || e_machine == EM_ALPHA || e_machine == EM_PPC64 || e_machine == EM_LOONGARCH {
        Some("/lib64")
    } else if e_machine == EM_ARCV2 || e_machine == EM_ARM || e_machine == EM_CSKY || e_machine == EM_PARISC
        || e_machine == EM_386 || e_machine == EM_68K || e_machine == EM_MICROBLAZE
        || e_machine == EM_ALTERA_NIOS2 || e_machine == EM_OPENRISC || e_machine == EM_PPC
        || e_machine == EM_SH {
        Some("/lib")
    } else if e_machine == EM_S390 || e_machine == EM_SPARC || e_machine == EM_MIPS || e_machine == EM_MIPS_RS3_LE {
        if ei_class == ELFCLASS32 { Some("/lib") } else if ei_class == ELFCLASS64 { Some("/lib64") } else { None }
    } else if e_machine == EM_RISCV {
        if ei_class == ELFCLASS32 {
            Some("/lib32/ilp32d")
        } else if ei_class == ELFCLASS64 {
            Some("/lib64/lp64d")
        } else {
            None
        }
    } else if e_machine == EM_X86_64 {
        if ei_class == ELFCLASS32 { Some("/libx32") } else if ei_class == ELFCLASS64 { Some("/lib64") } else { None }
    } else {
        None
    }
}

pub open spec fn old_release(r: AndroidRelease) -> bool {
    r == AndroidRelease::AndroidR24 || r == AndroidRelease::AndroidR25
}

pub open spec fn has_odm(r: AndroidRelease) -> bool {
    r == AndroidRelease::AndroidR28 || r == AndroidRelease::AndroidR29 || r == AndroidRelease::AndroidR30
        || r == AndroidRelease::AndroidR31 || r == AndroidRelease::AndroidR32 || r == AndroidRelease::AndroidR33
}

/// Android's default directories for the library suffix `sfx` ("" or "64").
pub open spec fn android_dirs_spec(r: AndroidRelease, sfx: Seq<char>, asan: bool) -> Seq<Seq<char>> {
    let a = if asan {
        if old_release(r) { seq!["/data/lib"@ + sfx] } else { seq!["/data/asan/system/lib"@ + sfx] }
    } else {
        Seq::empty()
    };
    let b = seq!["/system/lib"@ + sfx];
    let c = if asan && has_odm(r) { seq!["/data/asan/odm/lib"@ + sfx] } else { Seq::empty() };
    let d = if has_odm(r) { seq!["/odm/lib"@ + sfx] } else { Seq::empty() };
    let e = if asan {
        if old_release(r) { seq!["/vendor/lib"@ + sfx] } else { seq!["/data/asan/vendor/lib"@ + sfx] }
    } else {
        Seq::empty()
    };
    a + b + c + d + e + seq!["/vendor/lib"@ + sfx]
}

pub open spec fn android_suffix(e_machine: u16, ei_class: u8) -> Option<Seq<char>> {
    if e_machine == EM_AARCH64 || e_machine == EM_X86_64 {
        Some("64"@)
    } else if e_machine == EM_ARM || e_machine == EM_386 {
        Some(""@)
    } else if e_machine == EM_MIPS && ei_class == ELFCLASS64 {
        Some("64"@)
    } else if e_machine == EM_MIPS && ei_class == ELFCLASS32 {
        Some(""@)
    } else {
        None
    }
}

/// The default directories, in search order; `None` where the target has no
/// entry in the table.
pub open spec fn system_dirs_spec(os: Os, interp: Option<Seq<char>>, e_machine: u16, ei_class: u8) -> Option<Seq<Seq<char>>> {
    match os {
        Os::Linux => match slibdir_spec(e_machine, ei_class) {
            Some(d) => Some(seq![d, "/usr"@ + d]),
            None => None,
        },
        Os::Android(r) => match (interp, android_suffix(e_machine, ei_class)) {
            (Some(i), Some(sfx)) => Some(android_dirs_spec(r, sfx, is_asan_spec(i))),
            _ => None,
        },
        Os::FreeBsd => Some(seq!["/lib"@]),
        Os::OpenBsd | Os::NetBsd => Some(seq!["/usr/lib"@]),
        Os::MacOs => None,
        Os::Illumos => if e_machine == EM_386 {
            Some(seq!["/lib"@, "/usr/lib"@])
        } else if e_machine == EM_X86_64 {
            Some(seq!["/lib64"@, "/usr/lib/64"@])
        } else {
            None
        },
    }
}

pub open spec fn dirs_view(v: Seq<SearchPath>) -> Seq<Seq<char>> {
    v.map_values(|e: SearchPath| e.path@)
}

/// Every entry is a synthetic one, identity `(0, 0)`.
pub open spec fn all_synthetic(v: Seq<SearchPath>) -> bool {
    forall|i: int| 0 <= i < v.len() ==> v[i].dev == 0 && v[i].ino == 0
}

fn cat(a: &str, b: &str) -> (r: String)
    ensures
        r@ == a@ + b@,
{
    String::from_str(a).concat(b)
}

fn push_dir(v: &mut SearchPathVec, path: String)
    requires
        all_synthetic(old(v)@),
    ensures
        dirs_view(final(v)@) == dirs_view(old(v)@).push(path@),
        all_synthetic(final(v)@),
{
    v.push(synthetic(path));
    assert(dirs_view(v@) =~= dirs_view(old(v)@).push(path@));
}

fn android_dirs(r: AndroidRelease, sfx: &str, asan: bool) -> (v: SearchPathVec)
    ensures
        dirs_view(v@) == android_dirs_spec(r, sfx@, asan),
        all_synthetic(v@),
{
    let old_rel = r == AndroidRelease::AndroidR24 || r == AndroidRelease::AndroidR25;
    let odm = r == AndroidRelease::AndroidR28 || r == AndroidRelease::AndroidR29 || r == AndroidRelease::AndroidR30
        || r == AndroidRelease::AndroidR31 || r == AndroidRelease::AndroidR32 || r == AndroidRelease::AndroidR33;
    let mut v: SearchPathVec = Vec::new();
    let ghost s0 = dirs_view(v@);
    assert(s0 =~= Seq::<Seq<char>>::empty());
    if asan {
        if old_rel {
            push_dir(&mut v, cat("/data/lib", sfx));
        } else {
            push_dir(&mut v, cat("/data/asan/system/lib", sfx));
        }
    }
    let ghost s1 = dirs_view(v@);
    push_dir(&mut v, cat("/system/lib", sfx));
    let ghost s2 = dirs_view(v@);
    if asan && odm {
        push_dir(&mut v, cat("/data/asan/odm/lib", sfx));
    }
    let ghost s3 = dirs_view(v@);
    if odm {
        push_dir(&mut v, cat("/odm/lib", sfx));
    }
    let ghost s4 = dirs_view(v@);
    if asan {
        if old_rel {
            push_dir(&mut v, cat("/vendor/lib", sfx));
        } else {
            push_dir(&mut v, cat("/data/asan/vendor/lib", sfx));
        }
    }
    let ghost s5 = dirs_view(v@);
    push_dir(&mut v, cat("/vendor/lib", sfx));
    assert(dirs_view(v@) =~= android_dirs_spec(r, sfx@, asan));
    v
}

/// The default directories for a target (see `system_dirs_spec`), all of them
/// synthetic entries.
pub fn get_system_dirs(os: Os, interp: &Option<String>, e_machine: u16, ei_class: u8) -> (r: Option<SearchPathVec>)
    ensures
        match r {
            Some(v) => system_dirs_spec(os, crate::deptree::opt_view(*interp), e_machine, ei_class)
                == Some(dirs_view(v@)) && all_synthetic(v@),
            None => system_dirs_spec(os, crate::deptree::opt_view(*interp), e_machine, ei_class) is None,
        },
{
    let mut v: SearchPathVec = Vec::new();
    assert(dirs_view(v@) =~= Seq::<Seq<char>>::empty());
    match os {
        Os::Linux => {
            match get_slibdir(e_machine, ei_class) {
                Some(d) => {
                    push_dir(&mut v, String::from_str(d));
                    push_dir(&mut v, cat("/usr", d));
                    assert(dirs_view(v@) =~= seq![d@, "/usr"@ + d@]);
                    Some(v)
                },
                None => None,
            }
        },
        Os::Android(rel) => {
            let sfx = if e_machine == EM_AARCH64 || e_machine == EM_X86_64 {
                "64"
            } else if e_machine == EM_ARM || e_machine == EM_386 {
                ""
            } else if e_machine == EM_MIPS && ei_class == ELFCLASS64 {
                "64"
            } else if e_machine == EM_MIPS && ei_class == ELFCLASS32 {
                ""
            } else {
                return None;
            };
            match interp {
                Some(i) => {
                    let asan = is_asan(i.as_str());
                    Some(android_dirs(rel, sfx, asan))
                },
                None => None,
            }
        },
        Os::FreeBsd => {
            push_dir(&mut v, String::from_str("/lib"));
            assert(dirs_view(v@) =~= seq!["/lib"@]);
            Some(v)
        },
        Os::OpenBsd | Os::NetBsd => {
            push_dir(&mut v, String::from_str("/usr/lib"));
            assert(dirs_view(v@) =~= seq!["/usr/lib"@]);
            Some(v)
        },
        Os::MacOs => None,
        Os::Illumos => {
            if e_machine == EM_386 {
                push_dir(&mut v, String::from_str("/lib"));
                push_dir(&mut v, String::from_str("/usr/lib"));
                assert(dirs_view(v@) =~= seq!["/lib"@, "/usr/lib"@]);
                Some(v)
            } else if e_machine == EM_X86_64 {
                push_dir(&mut v, String::from_str("/lib64"));
                push_dir(&mut v, String::from_str("/usr/lib/64"));
                assert(dirs_view(v@) =~= seq!["/lib64"@, "/usr/lib/64"@]);
                Some(v)
            } else {
                None
            }
        },
    }
}

} // verus!
