//! Lookup in the bytes of an auxiliary vector (`/proc/self/auxv`).
use vstd::prelude::*;
use crate::bytes::{read_u32, read_u64, u32_at, u64_at};

verus! {

pub const AT_NULL: u64 = 0;
pub const AT_HWCAP: u64 = 16;
pub const AT_HWCAP2: u64 = 26;

/// One key/value pair of the vector.
#[derive(PartialEq, Eq, Structural, Clone, Copy, Debug)]
pub struct AuxvPair {
    pub key: u64,
    pub value: u64,
}

/// Size of one word: 8 bytes on 64-bit hosts, 4 on 32-bit ones.
pub open spec fn word(wide: bool) -> int {
    if wide { 8 } else { 4 }
}

pub open spec fn word_at(b: Seq<u8>, off: int, wide: bool, big: bool) -> int {
    if wide { u64_at(b, off, big) } else { u32_at(b, off, big) }
}

/// The value for `key` from the pair at byte `o` on; the vector ends at
/// AT_NULL, and one that ends before its AT_NULL is refused.
pub open spec fn auxv_scan(b: Seq<u8>, key: u64, wide: bool, big: bool, o: int) -> Option<u64>
    decreases b.len() - o,
{
    if o < 0 || o + 2 * word(wide) > b.len() {
        None
    } else if word_at(b, o, wide, big) == AT_NULL {
        None
    } else if word_at(b, o, wide, big) == key {
        Some(word_at(b, o + word(wide), wide, big) as u64)
    } else {
        auxv_scan(b, key, wide, big, o + 2 * word(wide))
    }
}

fn read_word(b: &[u8], off: usize, wide: bool, big: bool) -> (r: u64)
    requires
        off + word(wide) <= b@.len(),
    ensures
        r == word_at(b@, off as int, wide, big),
{
    if wide {
        read_u64(b, off, big)
    } else {
        read_u32(b, off, big) as u64
    }
}

/// The value of `key` in the vector `b` (AT_HWCAP, AT_HWCAP2, ...).
pub fn getauxval(b: &[u8], key: u64, wide: bool, big: bool) -> (r: Option<u64>)
    ensures
        r == auxv_scan(b@, key, wide, big, 0),
{
    let n = b.len();
    let w: usize = if wide { 8 } else { 4 };
    let mut o: usize = 0;
    while o <= n && 2 * w <= n - o
        invariant
            w == word(wide),
            n == b@.len(),
            auxv_scan(b@, key, wide, big, 0) == auxv_scan(b@, key, wide, big, o as int),
        decreases n - o,
    {
        let k = read_word(b, o, wide, big);
        if k == AT_NULL {
            return None;
        }
        if k == key {
            return Some(read_word(b, o + w, wide, big));
        }
        o = o + 2 * w;
    }
    None
}

} // verus!
