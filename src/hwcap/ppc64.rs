//! POWER levels from the AT_HWCAP2 auxiliary-vector word.
use vstd::prelude::*;
use crate::text::views;

verus! {

pub const PPC_FEATURE2_ARCH_3_00: u64 = 0x0080_0000;
pub const PPC_FEATURE2_HAS_IEEE128: u64 = 0x0040_0000;
pub const PPC_FEATURE2_ARCH_3_1: u64 = 0x0004_0000;
pub const PPC_FEATURE2_MMA: u64 = 0x0002_0000;

/// The supported levels, best first.
pub open spec fn levels_spec(hwcap2: u64) -> Seq<Seq<char>> {
    let a = if hwcap2 & PPC_FEATURE2_ARCH_3_00 != 0 && hwcap2 & PPC_FEATURE2_HAS_IEEE128 != 0 {
        seq!["power9"@]
    } else {
        Seq::empty()
    };
    let b = if hwcap2 & PPC_FEATURE2_ARCH_3_1 != 0 && hwcap2 & PPC_FEATURE2_MMA != 0 {
        seq!["power10"@]
    } else {
        Seq::empty()
    };
    b + a
}

pub fn supported(hwcap2: u64) -> (r: Vec<String>)
    ensures
        views(r@) == levels_spec(hwcap2),
{
    let mut r: Vec<String> = Vec::new();
    if hwcap2 & PPC_FEATURE2_ARCH_3_1 != 0 && hwcap2 & PPC_FEATURE2_MMA != 0 {
        r.push(String::from_str("power10"));
    }
    if hwcap2 & PPC_FEATURE2_ARCH_3_00 != 0 && hwcap2 & PPC_FEATURE2_HAS_IEEE128 != 0 {
        r.push(String::from_str("power9"));
    }
    assert(views(r@) =~= levels_spec(hwcap2));
    r
}

} // verus!
