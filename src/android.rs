//! Android releases and the per-ABI names that the Android loader uses.
use vstd::prelude::*;
use crate::elf_defs::{
    ELFCLASS32, ELFCLASS64, EM_386, EM_AARCH64, EM_ARM, EM_MIPS, EM_RISCV, EM_X86_64,
};
use crate::pathutils::{get_name, name_spec};
use crate::deptree::str_eq;

verus! {

/// The Android releases the loader model knows, by SDK level.
#[derive(PartialEq, Eq, Structural, Clone, Copy, Debug)]
pub enum AndroidRelease {
    AndroidR24,
    AndroidR25,
    AndroidR26,
    AndroidR27,
    AndroidR28,
    AndroidR29,
    AndroidR30,
    AndroidR31,
    AndroidR32,
    AndroidR33,
    AndroidR34,
}

pub open spec fn sdk_spec(r: AndroidRelease) -> u32 {
    match r {
        AndroidRelease::AndroidR24 => 24,
        AndroidRelease::AndroidR25 => 25,
        AndroidRelease::AndroidR26 => 26,
        AndroidRelease::AndroidR27 => 27,
        AndroidRelease::AndroidR28 => 28,
        AndroidRelease::AndroidR29 => 29,
        AndroidRelease::AndroidR30 => 30,
        AndroidRelease::AndroidR31 => 31,
        AndroidRelease::AndroidR32 => 32,
        AndroidRelease::AndroidR33 => 33,
        AndroidRelease::AndroidR34 => 34,
    }
}

impl AndroidRelease {
    /// The SDK level.
    pub fn sdk(&self) -> (r: u32)
        ensures
            r == sdk_spec(*self),
            24 <= r <= 34,
    {
        match self {
            AndroidRelease::AndroidR24 => 24,
            AndroidRelease::AndroidR25 => 25,
            AndroidRelease::AndroidR26 => 26,
            AndroidRelease::AndroidR27 => 27,
            AndroidRelease::AndroidR28 => 28,
            AndroidRelease::AndroidR29 => 29,
            AndroidRelease::AndroidR30 => 30,
            AndroidRelease::AndroidR31 => 31,
            AndroidRelease::AndroidR32 => 32,
            AndroidRelease::AndroidR33 => 33,
            AndroidRelease::AndroidR34 => 34,
        }
    }

    /// The SDK level as decimal text.
    pub fn to_text(&self) -> (r: String)
        ensures
            r@ == sdk_text(sdk_spec(*self)),
    {
        let s = match self {
            AndroidRelease::AndroidR24 => "24",
            AndroidRelease::AndroidR25 => "25",
            AndroidRelease::AndroidR26 => "26",
            AndroidRelease::AndroidR27 => "27",
            AndroidRelease::AndroidR28 => "28",
            AndroidRelease::AndroidR29 => "29",
            AndroidRelease::AndroidR30 => "30",
            AndroidRelease::AndroidR31 => "31",
            AndroidRelease::AndroidR32 => "32",
            AndroidRelease::AndroidR33 => "33",
            AndroidRelease::AndroidR34 => "34",
        };
        String::from_str(s)
    }
}

pub open spec fn sdk_text(n: u32) -> Seq<char> {
    if n == 24 { "24"@ } else if n == 25 { "25"@ } else if n == 26 { "26"@ } else if n == 27 { "27"@ }
    else if n == 28 { "28"@ } else if n == 29 { "29"@ } else if n == 30 { "30"@ } else if n == 31 { "31"@ }
    else if n == 32 { "32"@ } else if n == 33 { "33"@ } else if n == 34 { "34"@ } else { ""@ }
}

/// The release named by the `ro.build.version.sdk` property value `s`.
pub open spec fn release_spec(s: Seq<char>) -> Option<AndroidRelease> {
    if s == "24"@ { Some(AndroidRelease::AndroidR24) }
    else if s == "25"@ { Some(AndroidRelease::AndroidR25) }
    else if s == "26"@ { Some(AndroidRelease::AndroidR26) }
    else if s == "27"@ { Some(AndroidRelease::AndroidR27) }
    else if s == "28"@ { Some(AndroidRelease::AndroidR28) }
    else if s == "29"@ { Some(AndroidRelease::AndroidR29) }
    else if s == "30"@ { Some(AndroidRelease::AndroidR30) }
    else if s == "31"@ { Some(AndroidRelease::AndroidR31) }
    else if s == "32"@ { Some(AndroidRelease::AndroidR32) }
    else if s == "33"@ { Some(AndroidRelease::AndroidR33) }
    else if s == "34"@ { Some(AndroidRelease::AndroidR34) }
    else { None }
}

/// The error for a release outside 24..34.
#[derive(PartialEq, Eq, Structural, Clone, Copy, Debug)]
pub enum ReleaseError {
    UnsupportedRelease,
}

/// Classify the value of `ro.build.version.sdk`.
pub fn get_release(s: &str) -> (r: Result<AndroidRelease, ReleaseError>)
    ensures
        r matches Ok(v) ==> release_spec(s@) == Some(v),
        r is Err <==> release_spec(s@) is None,
{
    if str_eq(s, "24") { Ok(AndroidRelease::AndroidR24) }
    else if str_eq(s, "25") { Ok(AndroidRelease::AndroidR25) }
    else if str_eq(s, "26") { Ok(AndroidRelease::AndroidR26) }
    else if str_eq(s, "27") { Ok(AndroidRelease::AndroidR27) }
    else if str_eq(s, "28") { Ok(AndroidRelease::AndroidR28) }
    else if str_eq(s, "29") { Ok(AndroidRelease::AndroidR29) }
    else if str_eq(s, "30") { Ok(AndroidRelease::AndroidR30) }
    else if str_eq(s, "31") { Ok(AndroidRelease::AndroidR31) }
    else if str_eq(s, "32") { Ok(AndroidRelease::AndroidR32) }
    else if str_eq(s, "33") { Ok(AndroidRelease::AndroidR33) }
    else if str_eq(s, "34") { Ok(AndroidRelease::AndroidR34) }
    else { Err(ReleaseError::UnsupportedRelease) }
}

pub open spec fn property_bool_spec(s: Seq<char>, default: bool) -> bool {
    if s == "1"@ || s == "y"@ || s == "yes"@ || s == "on"@ || s == "true"@ {
        true
    } else if s == "0"@ || s == "n"@ || s == "no"@ || s == "off"@ || s == "false"@ {
        false
    } else {
        default
    }
}

/// A boolean system property from its text value.
pub fn get_property_bool(s: &str, default: bool) -> (r: bool)
    ensures
        r == property_bool_spec(s@, default),
{
    if str_eq(s, "1") || str_eq(s, "y") || str_eq(s, "yes") || str_eq(s, "on") || str_eq(s, "true") {
        true
    } else if str_eq(s, "0") || str_eq(s, "n") || str_eq(s, "no") || str_eq(s, "off") || str_eq(s, "false") {
        false
    } else {
        default
    }
}

pub open spec fn is_asan_spec(interp: Seq<char>) -> bool {
    name_spec(interp) == "linker_asan"@ || name_spec(interp) == "linker_asan64"@
}

/// Does the binary use the AddressSanitizer loader?
pub fn is_asan(interp: &str) -> (r: bool)
    ensures
        r == is_asan_spec(interp@),
{
    let n = get_name(interp);
    str_eq(n.as_str(), "linker_asan") || str_eq(n.as_str(), "linker_asan64")
}

pub open spec fn libpath_spec(e_machine: u16, ei_class: u8) -> Option<Seq<char>> {
    if e_machine == EM_AARCH64 || e_machine == EM_X86_64 {
        Some("lib64"@)
    } else if e_machine == EM_ARM || e_machine == EM_386 {
        Some("lib"@)
    } else if e_machine == EM_MIPS {
        if ei_class == ELFCLASS64 {
            Some("lib64"@)
        } else if ei_class == ELFCLASS32 {
            Some("lib"@)
        } else {
            None
        }
    } else {
        None
    }
}

/// The library directory name (`${LIB}`) for a machine and class.
pub fn libpath(e_machine: u16, ei_class: u8) -> (r: Option<String>)
    ensures
        opt_seq(r) == libpath_spec(e_machine, ei_class),
{
    if e_machine == EM_AARCH64 || e_machine == EM_X86_64 {
        Some(String::from_str("lib64"))
    } else if e_machine == EM_ARM || e_machine == EM_386 {
        Some(String::from_str("lib"))
    } else if e_machine == EM_MIPS {
        if ei_class == ELFCLASS64 {
            Some(String::from_str("lib64"))
        } else if ei_class == ELFCLASS32 {
            Some(String::from_str("lib"))
        } else {
            None
        }
    } else {
        None
    }
}

pub open spec fn opt_seq(o: Option<String>) -> Option<Seq<char>> {
    match o {
        Some(s) => Some(s@),
        None => None,
    }
}

pub open spec fn abi_string_spec(e_machine: u16, ei_class: u8) -> Option<Seq<char>> {
    if e_machine == EM_AARCH64 {
        Some("arm64"@)
    } else if e_machine == EM_ARM {
        Some("arm"@)
    } else if e_machine == EM_X86_64 {
        Some("x86_64"@)
    } else if e_machine == EM_386 {
        Some("x86"@)
    } else if e_machine == EM_RISCV && ei_class == ELFCLASS64 {
        Some("riscv64"@)
    } else {
        None
    }
}

/// The ABI name used in `ld.config.<abi>.txt`.
pub fn abi_string(e_machine: u16, ei_class: u8) -> (r: Option<String>)
    ensures
        opt_seq(r) == abi_string_spec(e_machine, ei_class),
{
    if e_machine == EM_AARCH64 {
        Some(String::from_str("arm64"))
    } else if e_machine == EM_ARM {
        Some(String::from_str("arm"))
    } else if e_machine == EM_X86_64 {
        Some(String::from_str("x86_64"))
    } else if e_machine == EM_386 {
        Some(String::from_str("x86"))
    } else if e_machine == EM_RISCV && ei_class == ELFCLASS64 {
        Some(String::from_str("riscv64"))
    } else {
        None
    }
}

} // verus!
