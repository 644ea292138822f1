//! The glibc-hwcaps subdirectories the host supports, best first.
use vstd::prelude::*;
use crate::text::views;

pub mod x86;
pub mod ppc64;
pub mod s390x;
pub mod auxv;

verus! {

/// The host processor family, for the choice of probe.
#[derive(PartialEq, Eq, Structural, Clone, Copy, Debug)]
pub enum HostArch {
    X86,
    Ppc64,
    S390x,
    Other,
}

/// The levels a host supports: on x86 from its CPUID words, on POWER from
/// AT_HWCAP2 and on IBM Z from AT_HWCAP in its auxiliary vector (`auxv`, in
/// words of `wide` size and byte order `big`); none elsewhere, or when the
/// words are missing.
pub open spec fn supported_spec(arch: HostArch, cpuid: Option<x86::X86Cpuid>, auxv: Seq<u8>, wide: bool, big: bool) -> Seq<Seq<char>> {
    match arch {
        HostArch::X86 => match cpuid {
            Some(c) => x86::levels_spec(c),
            None => Seq::empty(),
        },
        HostArch::Ppc64 => match auxv::auxv_scan(auxv, auxv::AT_HWCAP2, wide, big, 0) {
            Some(h) => ppc64::levels_spec(h),
            None => Seq::empty(),
        },
        HostArch::S390x => match auxv::auxv_scan(auxv, auxv::AT_HWCAP, wide, big, 0) {
            Some(h) => s390x::levels_spec(h),
            None => Seq::empty(),
        },
        HostArch::Other => Seq::empty(),
    }
}

pub fn hwcap_supported(arch: HostArch, cpuid: &Option<x86::X86Cpuid>, auxv: &[u8], wide: bool, big: bool) -> (r: Vec<String>)
    ensures
        views(r@) == supported_spec(arch, *cpuid, auxv@, wide, big),
{
    let none: Vec<String> = Vec::new();
    assert(views(none@) =~= Seq::<Seq<char>>::empty());
    match arch {
        HostArch::X86 => match cpuid {
            Some(c) => x86::levels(c),
            None => none,
        },
        HostArch::Ppc64 => match auxv::getauxval(auxv, auxv::AT_HWCAP2, wide, big) {
            Some(h) => ppc64::supported(h),
            None => none,
        },
        HostArch::S390x => match auxv::getauxval(auxv, auxv::AT_HWCAP, wide, big) {
            Some(h) => s390x::supported(h),
            None => none,
        },
        HostArch::Other => none,
    }
}

} // verus!
