//! The value of `$PLATFORM` for a target: the kernel's AT_PLATFORM string where
//! it is fixed, and a common value where it depends on the processor.
use vstd::prelude::*;
use crate::elf_defs::{
    ELFDATA2LSB, ELFDATA2MSB, EM_386, EM_AARCH64, EM_ALPHA, EM_ARM, EM_LOONGARCH, EM_MIPS,
    EM_PARISC, EM_PPC64, EM_S390, EM_SH, EM_X86_64,
};

verus! {

pub open spec fn platform_spec(e_machine: u16, ei_data: u8) -> Seq<char> {
    if e_machine == EM_ALPHA {
        "ev67"@
    } else if e_machine == EM_ARM {
        if ei_data == ELFDATA2LSB {
            "v7l"@
        } else if ei_data == ELFDATA2MSB {
            "v7b"@
        } else {
            ""@
        }
    } else if e_machine == EM_AARCH64 {
        if ei_data == ELFDATA2LSB {
            "aarch64"@
        } else if ei_data == ELFDATA2MSB {
            "aarch64_be"@
        } else {
            ""@
        }
    } else if e_machine == EM_LOONGARCH {
        "loongarch"@
    } else if e_machine == EM_MIPS {
        "mips"@
    } else if e_machine == EM_PARISC {
        "PARISC"@
    } else if e_machine == EM_PPC64 {
        "power8"@
    } else if e_machine == EM_S390 {
        "z10"@
    } else if e_machine == EM_SH {
        "sh"@
    } else if e_machine == EM_386 {
        "i686"@
    } else if e_machine == EM_X86_64 {
        "x86_64"@
    } else {
        ""@
    }
}

/// `$PLATFORM` for a machine and data encoding.
pub fn get(e_machine: u16, ei_data: u8) -> (r: String)
    ensures
        r@ == platform_spec(e_machine, ei_data),
{
    let s = if e_machine == EM_ALPHA {
        "ev67"
    } else if e_machine == EM_ARM {
        if ei_data == ELFDATA2LSB {
            "v7l"
        } else if ei_data == ELFDATA2MSB {
            "v7b"
        } else {
            ""
        }
    } else if e_machine == EM_AARCH64 {
        if ei_data == ELFDATA2LSB {
            "aarch64"
        } else if ei_data == ELFDATA2MSB {
            "aarch64_be"
        } else {
            ""
        }
    } else if e_machine == EM_LOONGARCH {
        "loongarch"
    } else if e_machine == EM_MIPS {
        "mips"
    } else if e_machine == EM_PARISC {
        "PARISC"
    } else if e_machine == EM_PPC64 {
        "power8"
    } else if e_machine == EM_S390 {
        "z10"
    } else if e_machine == EM_SH {
        "sh"
    } else if e_machine == EM_386 {
        "i686"
    } else if e_machine == EM_X86_64 {
        "x86_64"
    } else {
        ""
    };
    String::from_str(s)
}

} // verus!
