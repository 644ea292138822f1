//! IBM Z levels from the AT_HWCAP auxiliary-vector word.
use vstd::prelude::*;
use crate::text::views;

verus! {

pub const HWCAP_S390_VX: u64 = 0x800;
pub const HWCAP_S390_VXD: u64 = 0x1000;
pub const HWCAP_S390_VXE: u64 = 0x2000;
pub const HWCAP_S390_GS: u64 = 0x4000;
pub const HWCAP_S390_VXRS_EXT2: u64 = 0x8000;
pub const HWCAP_S390_VXRS_PDE: u64 = 0x1_0000;
pub const HWCAP_S390_VXRS_PDE2: u64 = 0x8_0000;

/// The supported levels, best first.
pub open spec fn levels_spec(hwcap: u64) -> Seq<Seq<char>> {
    let a = if hwcap & HWCAP_S390_VX != 0 { seq!["z13"@] } else { Seq::empty() };
    let b = if hwcap & HWCAP_S390_VXD != 0 && hwcap & HWCAP_S390_VXE != 0 && hwcap & HWCAP_S390_GS != 0 {
        seq!["z14"@]
    } else {
        Seq::empty()
    };
    let c = if hwcap & HWCAP_S390_VXRS_EXT2 != 0 && hwcap & HWCAP_S390_VXRS_PDE != 0 {
        seq!["z15"@]
    } else {
        Seq::empty()
    };
    let d = if hwcap & HWCAP_S390_VXRS_PDE2 != 0 { seq!["z16"@] } else { Seq::empty() };
    d + c + b + a
}

pub fn supported(hwcap: u64) -> (r: Vec<String>)
    ensures
        views(r@) == levels_spec(hwcap),
{
    let mut r: Vec<String> = Vec::new();
    if hwcap & HWCAP_S390_VXRS_PDE2 != 0 {
        r.push(String::from_str("z16"));
    }
    if hwcap & HWCAP_S390_VXRS_EXT2 != 0 && hwcap & HWCAP_S390_VXRS_PDE != 0 {
        r.push(String::from_str("z15"));
    }
    if hwcap & HWCAP_S390_VXD != 0 && hwcap & HWCAP_S390_VXE != 0 && hwcap & HWCAP_S390_GS != 0 {
        r.push(String::from_str("z14"));
    }
    if hwcap & HWCAP_S390_VX != 0 {
        r.push(String::from_str("z13"));
    }
    assert(views(r@) =~= levels_spec(hwcap));
    r
}

} // verus!
