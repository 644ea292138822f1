//! x86-64 micro-architecture levels from CPUID feature bits.
use vstd::prelude::*;
use crate::text::views;

verus! {

/// The CPUID words the levels depend on.
#[derive(Clone, Copy, Debug)]
pub struct X86Cpuid {
    /// Leaf 0, EAX: highest standard leaf.
    pub max_leaf: u32,
    /// Leaf 0x80000000, EAX: highest extended leaf.
    pub max_ext: u32,
    /// Leaf 1, ECX and EDX.
    pub l1_ecx: u32,
    pub l1_edx: u32,
    /// Leaf 7 sub-leaf 0, EBX.
    pub l7_ebx: u32,
    /// Leaf 0x80000001, ECX.
    pub e1_ecx: u32,
}

pub open spec fn bit(x: u32, n: u32) -> bool {
    (x >> n) & 1 == 1
}

/// CMOV, CMPXCHG8B, FPU, FXSR, MMX, SSE, SSE2.
pub open spec fn baseline(c: X86Cpuid) -> bool {
    bit(c.l1_edx, 15) && bit(c.l1_edx, 8) && bit(c.l1_edx, 0) && bit(c.l1_edx, 24) && bit(c.l1_edx, 23)
        && bit(c.l1_edx, 25) && bit(c.l1_edx, 26)
}

/// CMPXCHG16B, LAHF/SAHF, POPCNT, SSE3, SSSE3, SSE4.1, SSE4.2.
pub open spec fn v2(c: X86Cpuid) -> bool {
    bit(c.l1_ecx, 13) && bit(c.e1_ecx, 0) && bit(c.l1_ecx, 23) && bit(c.l1_ecx, 0) && bit(c.l1_ecx, 9)
        && bit(c.l1_ecx, 19) && bit(c.l1_ecx, 20)
}

/// AVX, BMI1, BMI2, F16C, FMA, LZCNT, MOVBE.
pub open spec fn v3(c: X86Cpuid) -> bool {
    bit(c.l1_ecx, 28) && bit(c.l7_ebx, 3) && bit(c.l7_ebx, 8) && bit(c.l1_ecx, 29) && bit(c.l1_ecx, 12)
        && bit(c.e1_ecx, 5) && bit(c.l1_ecx, 22)
}

/// AVX512F, AVX512BW, AVX512CD, AVX512DQ, AVX512VL.
pub open spec fn v4(c: X86Cpuid) -> bool {
    bit(c.l7_ebx, 16) && bit(c.l7_ebx, 30) && bit(c.l7_ebx, 28) && bit(c.l7_ebx, 17) && bit(c.l7_ebx, 31)
}

/// The supported levels, highest first.
pub open spec fn levels_spec(c: X86Cpuid) -> Seq<Seq<char>> {
    if c.max_leaf >= 1 && c.max_ext >= 0x8000_0001 && baseline(c) && v2(c) {
        if c.max_leaf >= 7 && v3(c) {
            if v4(c) {
                seq!["x86-64-v4"@, "x86-64-v3"@, "x86-64-v2"@]
            } else {
                seq!["x86-64-v3"@, "x86-64-v2"@]
            }
        } else {
            seq!["x86-64-v2"@]
        }
    } else {
        Seq::empty()
    }
}

fn has(x: u32, n: u32) -> (r: bool)
    requires
        n < 32,
    ensures
        r == bit(x, n),
{
    (x >> n) & 1 == 1
}

/// The levels that the feature words `c` allow.
pub fn levels(c: &X86Cpuid) -> (r: Vec<String>)
    ensures
        views(r@) == levels_spec(*c),
{
    let mut r: Vec<String> = Vec::new();
    let base = has(c.l1_edx, 15) && has(c.l1_edx, 8) && has(c.l1_edx, 0) && has(c.l1_edx, 24)
        && has(c.l1_edx, 23) && has(c.l1_edx, 25) && has(c.l1_edx, 26);
    let l2 = has(c.l1_ecx, 13) && has(c.e1_ecx, 0) && has(c.l1_ecx, 23) && has(c.l1_ecx, 0)
        && has(c.l1_ecx, 9) && has(c.l1_ecx, 19) && has(c.l1_ecx, 20);
    if c.max_leaf >= 1 && c.max_ext >= 0x8000_0001 && base && l2 {
        let l3 = has(c.l1_ecx, 28) && has(c.l7_ebx, 3) && has(c.l7_ebx, 8) && has(c.l1_ecx, 29)
            && has(c.l1_ecx, 12) && has(c.e1_ecx, 5) && has(c.l1_ecx, 22);
        if c.max_leaf >= 7 && l3 {
            let l4 = has(c.l7_ebx, 16) && has(c.l7_ebx, 30) && has(c.l7_ebx, 28) && has(c.l7_ebx, 17)
                && has(c.l7_ebx, 31);
            if l4 {
                r.push(String::from_str("x86-64-v4"));
            }
            r.push(String::from_str("x86-64-v3"));
        }
        r.push(String::from_str("x86-64-v2"));
    }
    assert(views(r@) =~= levels_spec(*c));
    r
}

} // verus!
