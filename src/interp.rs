//! Classification of program interpreters (glibc's and musl's loaders).
use vstd::prelude::*;
use crate::text::{char_len, split, split_spec, starts_with, starts_with_spec};
use crate::pathutils::{get_name, name_spec};
use crate::deptree::str_eq;

verus! {

/// The file names of glibc's dynamic loaders.
pub open spec fn is_glibc_name(n: Seq<char>) -> bool {
    ||| n == "ld-linux-aarch64.so.1"@
    ||| n == "ld-linux-aarch64_be.so.1"@
    ||| n == "ld-linux-arc.so.2"@
    ||| n == "ld-linux-arceb.so.2"@
    ||| n == "ld-linux-armhf.so.3"@
    ||| n == "ld-linux-cskyv2-hf.so.1"@
    ||| n == "ld-linux-cskyv2.so.1"@
    ||| n == "ld-linux-ia64.so.2"@
    ||| n == "ld-linux-loongarch-lp64d.so.1"@
    ||| n == "ld-linux-loongarch-lp64s.so.1"@
    ||| n == "ld-linux-mipsn8.so.1"@
    ||| n == "ld-linux-nios2.so.1"@
    ||| n == "ld-linux-or1k.so.1"@
    ||| n == "ld-linux-riscv32-ilp32.so.1"@
    ||| n == "ld-linux-riscv32-ilp32d.so.1"@
    ||| n == "ld-linux-riscv64-lp64.so.1"@
    ||| n == "ld-linux-riscv64-lp64d.so.1"@
    ||| n == "ld-linux-x32.so.2"@
    ||| n == "ld-linux-x86-64.so.2"@
    ||| n == "ld-linux.so.2"@
    ||| n == "ld-linux.so.3"@
    ||| n == "ld.so.1"@
    ||| n == "ld64.so.1"@
    ||| n == "ld64.so.2"@
}

fn is_glibc_loader_name(n: &str) -> (r: bool)
    ensures
        r == is_glibc_name(n@),
{
    str_eq(n, "ld-linux-aarch64.so.1") || str_eq(n, "ld-linux-aarch64_be.so.1")
        || str_eq(n, "ld-linux-arc.so.2") || str_eq(n, "ld-linux-arceb.so.2")
        || str_eq(n, "ld-linux-armhf.so.3") || str_eq(n, "ld-linux-cskyv2-hf.so.1")
        || str_eq(n, "ld-linux-cskyv2.so.1") || str_eq(n, "ld-linux-ia64.so.2")
        || str_eq(n, "ld-linux-loongarch-lp64d.so.1") || str_eq(n, "ld-linux-loongarch-lp64s.so.1")
        || str_eq(n, "ld-linux-mipsn8.so.1") || str_eq(n, "ld-linux-nios2.so.1")
        || str_eq(n, "ld-linux-or1k.so.1") || str_eq(n, "ld-linux-riscv32-ilp32.so.1")
        || str_eq(n, "ld-linux-riscv32-ilp32d.so.1") || str_eq(n, "ld-linux-riscv64-lp64.so.1")
        || str_eq(n, "ld-linux-riscv64-lp64d.so.1") || str_eq(n, "ld-linux-x32.so.2")
        || str_eq(n, "ld-linux-x86-64.so.2") || str_eq(n, "ld-linux.so.2")
        || str_eq(n, "ld-linux.so.3") || str_eq(n, "ld.so.1") || str_eq(n, "ld64.so.1")
        || str_eq(n, "ld64.so.2")
}

/// Is the interpreter one of glibc's loaders?
pub fn is_glibc(interp: &Option<String>) -> (r: bool)
    ensures
        r == (interp matches Some(i) && is_glibc_name(name_spec(i@))),
{
    match interp {
        Some(i) => {
            let n = get_name(i.as_str());
            is_glibc_loader_name(n.as_str())
        },
        None => false,
    }
}

pub open spec fn strs_view(v: Seq<&str>) -> Seq<Seq<char>> {
    v.map_values(|x: &str| x@)
}

/// `s` is `abi`, or `abi` followed by one of `suffixes`.
pub open spec fn suffix_ok(s: Seq<char>, abi: Seq<char>, suffixes: Seq<Seq<char>>) -> bool {
    starts_with_spec(s, abi) && (s.len() == abi.len() || suffixes.contains(s.skip(abi.len() as int)))
}

pub fn check_name_suffix(interp: &str, abi: &str, suffixes: &[&str]) -> (r: bool)
    ensures
        r == suffix_ok(interp@, abi@, strs_view(suffixes@)),
{
    if !starts_with(interp, abi) {
        return false;
    }
    let n = char_len(interp);
    let a = char_len(abi);
    if n == a {
        return true;
    }
    let rest = interp.substring_char(a, n);
    assert(rest@ =~= interp@.skip(a as int));
    let mut i: usize = 0;
    while i < suffixes.len()
        invariant
            i <= suffixes@.len(),
            rest@ == interp@.skip(a as int),
            starts_with_spec(interp@, abi@),
            a == abi@.len(),
            forall|k: int| 0 <= k < i ==> suffixes@[k]@ != rest@,
        decreases suffixes@.len() - i,
    {
        if str_eq(rest, suffixes[i]) {
            assert(strs_view(suffixes@)[i as int] == rest@);
            assert(strs_view(suffixes@).contains(rest@));
            return true;
        }
        i = i + 1;
    }
    assert(!strs_view(suffixes@).contains(rest@)) by {
        if strs_view(suffixes@).contains(rest@) {
            let k = choose|k: int| 0 <= k < strs_view(suffixes@).len() && strs_view(suffixes@)[k] == rest@;
            assert(suffixes@[k]@ == rest@);
        }
    }
    false
}

pub open spec fn mips_subarch() -> Seq<Seq<char>> {
    seq!["r6"@, "r6el"@, "el"@, "r6-sf"@, "r6el-sf"@, "el-sf"@]
}

pub open spec fn sh_subarch() -> Seq<Seq<char>> {
    seq!["eb"@, "-nofpu"@, "-fdpic"@, "eb-nofpu"@, "eb-fdpic"@, "eb-nofpu-fdpic"@]
}

/// musl's architecture names, each with the sub-architectures it accepts.
pub open spec fn is_musl_arch_spec(a: Seq<char>) -> bool {
    if starts_with_spec(a, "arm"@) {
        suffix_ok(a, "arm"@, seq!["eb"@, "hf"@, "ebhf"@])
    } else if starts_with_spec(a, "aarch64"@) {
        suffix_ok(a, "aarch64"@, seq!["_be"@])
    } else if starts_with_spec(a, "m68k"@) {
        suffix_ok(a, "m68k"@, seq!["-fp64"@, "-sf"@])
    } else if starts_with_spec(a, "mips64"@) {
        suffix_ok(a, "mips64"@, mips_subarch())
    } else if starts_with_spec(a, "mipsn32"@) {
        suffix_ok(a, "mipsn32"@, mips_subarch())
    } else if starts_with_spec(a, "mips"@) {
        suffix_ok(a, "mips"@, mips_subarch())
    } else if starts_with_spec(a, "powerpc64"@) {
        suffix_ok(a, "powerpc64"@, seq!["le"@])
    } else if starts_with_spec(a, "powerpc"@) {
        suffix_ok(a, "powerpc"@, seq!["sf"@])
    } else if starts_with_spec(a, "microblaze"@) {
        suffix_ok(a, "microblaze"@, seq!["el"@])
    } else if starts_with_spec(a, "riscv64"@) {
        suffix_ok(a, "riscv64"@, seq!["-sf"@, "-sf-sp"@, "-sp"@])
    } else if starts_with_spec(a, "sh"@) {
        suffix_ok(a, "sh"@, sh_subarch())
    } else {
        a == "nt32"@ || a == "nt64"@ || a == "or1k"@ || a == "s390x"@ || a == "x86_64"@ || a == "x32"@
            || a == "i386"@
    }
}

pub fn is_musl_arch(a: &str) -> (r: bool)
    ensures
        r == is_musl_arch_spec(a@),
{
    if starts_with(a, "arm") {
        let s = ["eb", "hf", "ebhf"];
        let r = check_name_suffix(a, "arm", s.as_slice());
        assert(strs_view(s@) =~= seq!["eb"@, "hf"@, "ebhf"@]);
        r
    } else if starts_with(a, "aarch64") {
        let s = ["_be"];
        let r = check_name_suffix(a, "aarch64", s.as_slice());
        assert(strs_view(s@) =~= seq!["_be"@]);
        r
    } else if starts_with(a, "m68k") {
        let s = ["-fp64", "-sf"];
        let r = check_name_suffix(a, "m68k", s.as_slice());
        assert(strs_view(s@) =~= seq!["-fp64"@, "-sf"@]);
        r
    } else if starts_with(a, "mips64") {
        let s = ["r6", "r6el", "el", "r6-sf", "r6el-sf", "el-sf"];
        let r = check_name_suffix(a, "mips64", s.as_slice());
        assert(strs_view(s@) =~= mips_subarch());
        r
    } else if starts_with(a, "mipsn32") {
        let s = ["r6", "r6el", "el", "r6-sf", "r6el-sf", "el-sf"];
        let r = check_name_suffix(a, "mipsn32", s.as_slice());
        assert(strs_view(s@) =~= mips_subarch());
        r
    } else if starts_with(a, "mips") {
        let s = ["r6", "r6el", "el", "r6-sf", "r6el-sf", "el-sf"];
        let r = check_name_suffix(a, "mips", s.as_slice());
        assert(strs_view(s@) =~= mips_subarch());
        r
    } else if starts_with(a, "powerpc64") {
        let s = ["le"];
        let r = check_name_suffix(a, "powerpc64", s.as_slice());
        assert(strs_view(s@) =~= seq!["le"@]);
        r
    } else if starts_with(a, "powerpc") {
        let s = ["sf"];
        let r = check_name_suffix(a, "powerpc", s.as_slice());
        assert(strs_view(s@) =~= seq!["sf"@]);
        r
    } else if starts_with(a, "microblaze") {
        let s = ["el"];
        let r = check_name_suffix(a, "microblaze", s.as_slice());
        assert(strs_view(s@) =~= seq!["el"@]);
        r
    } else if starts_with(a, "riscv64") {
        let s = ["-sf", "-sf-sp", "-sp"];
        let r = check_name_suffix(a, "riscv64", s.as_slice());
        assert(strs_view(s@) =~= seq!["-sf"@, "-sf-sp"@, "-sp"@]);
        r
    } else if starts_with(a, "sh") {
        let s = ["eb", "-nofpu", "-fdpic", "eb-nofpu", "eb-fdpic", "eb-nofpu-fdpic"];
        let r = check_name_suffix(a, "sh", s.as_slice());
        assert(strs_view(s@) =~= sh_subarch());
        r
    } else {
        str_eq(a, "nt32") || str_eq(a, "nt64") || str_eq(a, "or1k") || str_eq(a, "s390x")
            || str_eq(a, "x86_64") || str_eq(a, "x32") || str_eq(a, "i386")
    }
}

/// musl's loader is named `ld-musl-<arch><subarch>.so.1`.
pub open spec fn is_musl_name(n: Seq<char>) -> bool {
    let parts = split_spec(n, seq!['.']);
    &&& starts_with_spec(n, "ld-musl-"@)
    &&& parts.len() == 3
    &&& parts[1] == "so"@
    &&& parts[2] == "1"@
    &&& parts[0].len() >= 8
    &&& is_musl_arch_spec(parts[0].skip(8))
}

/// Is the interpreter musl's loader?
pub fn is_musl(interp: &Option<String>) -> (r: bool)
    ensures
        r == (interp matches Some(i) && is_musl_name(name_spec(i@))),
{
    match interp {
        None => false,
        Some(i) => {
            let n = get_name(i.as_str());
            if !starts_with(n.as_str(), "ld-musl-") {
                return false;
            }
            let dot = ['.'];
            let parts = split(n.as_str(), dot.as_slice());
            assert(dot@ =~= seq!['.']);
            if parts.len() != 3 {
                return false;
            }
            assert(parts@[1]@ == split_spec(n@, seq!['.'])[1]);
            assert(parts@[2]@ == split_spec(n@, seq!['.'])[2]);
            assert(parts@[0]@ == split_spec(n@, seq!['.'])[0]);
            if !str_eq(parts[1].as_str(), "so") || !str_eq(parts[2].as_str(), "1") {
                return false;
            }
            let l = char_len(parts[0].as_str());
            if l < 8 {
                return false;
            }
            let arch = parts[0].as_str().substring_char(8, l);
            assert(arch@ =~= parts@[0]@.skip(8));
            is_musl_arch(arch)
        },
    }
}

} // verus!
