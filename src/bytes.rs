//! Fixed-width integers read from byte buffers, in either byte order, and
//! NUL-terminated strings.
use vstd::prelude::*;
use vstd::utf8::{valid_utf8, decode_utf8};

verus! {

pub open spec fn u16_at(b: Seq<u8>, off: int, big: bool) -> int {
    if big {
        b[off] * 256 + b[off + 1]
    } else {
        b[off] + b[off + 1] * 256
    }
}

pub open spec fn u32_at(b: Seq<u8>, off: int, big: bool) -> int {
    if big {
        b[off] * 16777216 + b[off + 1] * 65536 + b[off + 2] * 256 + b[off + 3]
    } else {
        b[off] + b[off + 1] * 256 + b[off + 2] * 65536 + b[off + 3] * 16777216
    }
}

pub open spec fn u64_at(b: Seq<u8>, off: int, big: bool) -> int {
    if big {
        u32_at(b, off, true) * 4294967296 + u32_at(b, off + 4, true)
    } else {
        u32_at(b, off, false) + u32_at(b, off + 4, false) * 4294967296
    }
}

pub fn read_u16(b: &[u8], off: usize, big: bool) -> (r: u16)
    requires
        off + 2 <= b@.len(),
    ensures
        r == u16_at(b@, off as int, big),
{
    let x0 = b[off] as u16;
    let x1 = b[off + 1] as u16;
    if big {
        x0 * 256 + x1
    } else {
        x0 + x1 * 256
    }
}

pub fn read_u32(b: &[u8], off: usize, big: bool) -> (r: u32)
    requires
        off + 4 <= b@.len(),
    ensures
        r == u32_at(b@, off as int, big),
{
    let x0 = b[off] as u32;
    let x1 = b[off + 1] as u32;
    let x2 = b[off + 2] as u32;
    let x3 = b[off + 3] as u32;
    if big {
        x0 * 16777216 + x1 * 65536 + x2 * 256 + x3
    } else {
        x0 + x1 * 256 + x2 * 65536 + x3 * 16777216
    }
}

pub fn read_u64(b: &[u8], off: usize, big: bool) -> (r: u64)
    requires
        off + 8 <= b@.len(),
    ensures
        r == u64_at(b@, off as int, big),
{
    let n = b.len();
    assert(off + 8 <= n);
    let a = read_u32(b, off, big) as u64;
    let c = read_u32(b, off + 4, big) as u64;
    if big {
        a * 4294967296 + c
    } else {
        a + c * 4294967296
    }
}

/// Position of the first NUL in `b[start..end]`, or `end` if there is none.
pub open spec fn find_nul(b: Seq<u8>, start: int, end: int) -> int
    decreases end - start,
{
    if start >= end {
        end
    } else if b[start] == 0 {
        start
    } else {
        find_nul(b, start + 1, end)
    }
}

pub proof fn lemma_find_nul_range(b: Seq<u8>, start: int, end: int)
    requires
        start <= end,
    ensures
        start <= find_nul(b, start, end) <= end,
    decreases end - start,
{
    if start < end && b[start] != 0 {
        lemma_find_nul_range(b, start + 1, end);
    }
}

pub fn find_nul_exec(b: &[u8], start: usize, end: usize) -> (r: usize)
    requires
        start <= end <= b@.len(),
    ensures
        r == find_nul(b@, start as int, end as int),
        start <= r <= end,
{
    proof {
        lemma_find_nul_range(b@, start as int, end as int);
    }
    let mut i = start;
    while i < end
        invariant
            start <= i <= end,
            end <= b@.len(),
            find_nul(b@, start as int, end as int) == find_nul(b@, i as int, end as int),
        decreases end - i,
    {
        if b[i] == 0 {
            return i;
        }
        i = i + 1;
    }
    i
}

/// Relies on `std::str::from_utf8`: it accepts exactly the valid UTF-8 byte
/// sequences and then holds their decoded characters.
#[verifier::external_body]
pub fn utf8_string(b: &[u8]) -> (r: Option<String>)
    ensures
        r is Some <==> valid_utf8(b@),
        r matches Some(s) ==> s@ == decode_utf8(b@),
{
    match std::str::from_utf8(b) {
        Ok(s) => Some(s.to_string()),
        Err(_) => None,
    }
}

/// The text of `b[start..end)`, if it is valid UTF-8.
pub open spec fn text_of(b: Seq<u8>, start: int, end: int) -> Option<Seq<char>> {
    if valid_utf8(b.subrange(start, end)) {
        Some(decode_utf8(b.subrange(start, end)))
    } else {
        None
    }
}

pub fn text_exec(b: &[u8], start: usize, end: usize) -> (r: Option<String>)
    requires
        start <= end <= b@.len(),
    ensures
        match r {
            Some(s) => text_of(b@, start as int, end as int) == Some(s@),
            None => text_of(b@, start as int, end as int) is None,
        },
{
    let piece = &b[start..end];
    assert(piece@ =~= b@.subrange(start as int, end as int));
    utf8_string(piece)
}

/// The NUL-terminated string at `start + off` inside the table `b[start..end)`:
/// `None` if the offset is outside the table, no NUL ends the string inside it,
/// or the bytes are not UTF-8.
pub open spec fn cstr_in(b: Seq<u8>, start: int, end: int, off: int) -> Option<Seq<char>> {
    if off < 0 || start + off >= end || find_nul(b, start + off, end) >= end {
        None
    } else {
        text_of(b, start + off, find_nul(b, start + off, end))
    }
}

pub fn cstr_exec(b: &[u8], start: usize, end: usize, off: u64) -> (r: Option<String>)
    requires
        start <= end <= b@.len(),
    ensures
        match r {
            Some(s) => cstr_in(b@, start as int, end as int, off as int) == Some(s@),
            None => cstr_in(b@, start as int, end as int, off as int) is None,
        },
{
    if off >= (end - start) as u64 {
        return None;
    }
    let s = start + off as usize;
    let z = find_nul_exec(b, s, end);
    if z >= end {
        return None;
    }
    text_exec(b, s, z)
}

} // verus!
