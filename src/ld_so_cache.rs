//! glibc's `ld.so.cache`: the old and new binary formats, the architecture
//! filter on entries, and the glibc-hwcaps best-fit reduction to one path per
//! SONAME.
use vstd::prelude::*;
use crate::elf_defs::{
    EF_ARM_SOFT_FLOAT, EF_ARM_VFP_FLOAT, EF_MIPS_ABI_ON32, EF_MIPS_NAN2008, EF_RISCV_FLOAT_ABI_DOUBLE,
    EF_RISCV_FLOAT_ABI_SOFT, ELFCLASS32, ELFCLASS64, EM_AARCH64, EM_ARM, EM_IA_64, EM_MIPS, EM_PPC64, EM_RISCV,
    EM_S390, EM_SPARC, EM_X86_64,
};
use crate::deptree::str_eq;
use crate::bytes::{cstr_exec, cstr_in, read_u32, read_u64, u32_at, u64_at};
use crate::text::views;

verus! {

pub const FLAG_ELF_LIBC6: i32 = 0x0003;
pub const FLAG_SPARC_LIB64: i32 = 0x0100;
pub const FLAG_IA64_LIB64: i32 = 0x0200;
pub const FLAG_X8664_LIB64: i32 = 0x0300;
pub const FLAG_S390_LIB64: i32 = 0x0400;
pub const FLAG_POWERPC_LIB64: i32 = 0x0500;
pub const FLAG_MIPS64_LIBN32: i32 = 0x0600;
pub const FLAG_MIPS64_LIBN64: i32 = 0x0700;
pub const FLAG_X8664_LIBX32: i32 = 0x0800;
pub const FLAG_ARM_LIBHF: i32 = 0x0900;
pub const FLAG_AARCH64_LIB64: i32 = 0x0a00;
pub const FLAG_ARM_LIBSF: i32 = 0x0b00;
pub const FLAG_MIPS_LIB32_NAN2008: i32 = 0x0c00;
pub const FLAG_MIPS64_LIBN32_NAN2008: i32 = 0x0d00;
pub const FLAG_MIPS64_LIBN64_NAN2008: i32 = 0x0e00;
pub const FLAG_RISCV_FLOAT_ABI_SOFT: i32 = 0x0f00;
pub const FLAG_RISCV_FLOAT_ABI_DOUBLE: i32 = 0x1000;

/// Does a cache entry's ABI flag word suit a binary of this class, machine and
/// ELF flags?
pub open spec fn entry_flags_ok(flags: i32, ei_class: u8, e_machine: u16, e_flags: u32) -> bool {
    if e_machine == EM_AARCH64 {
        ei_class == ELFCLASS64 && flags == FLAG_ELF_LIBC6 | FLAG_AARCH64_LIB64
    } else if e_machine == EM_ARM {
        if e_flags & EF_ARM_VFP_FLOAT != 0 {
            flags == FLAG_ARM_LIBHF | FLAG_ELF_LIBC6 || flags == FLAG_ELF_LIBC6
        } else if e_flags & EF_ARM_SOFT_FLOAT != 0 {
            flags == FLAG_ARM_LIBSF | FLAG_ELF_LIBC6 || flags == FLAG_ELF_LIBC6
        } else {
            false
        }
    } else if e_machine == EM_IA_64 {
        ei_class == ELFCLASS64 && flags == FLAG_ELF_LIBC6 | FLAG_IA64_LIB64
    } else if e_machine == EM_MIPS {
        if ei_class == ELFCLASS32 {
            if e_flags & (EF_MIPS_NAN2008 | EF_MIPS_ABI_ON32) == EF_MIPS_NAN2008 | EF_MIPS_ABI_ON32 {
                flags == FLAG_MIPS64_LIBN32_NAN2008 | FLAG_ELF_LIBC6
            } else if e_flags & EF_MIPS_NAN2008 == EF_MIPS_NAN2008 {
                flags == FLAG_MIPS_LIB32_NAN2008 | FLAG_ELF_LIBC6
            } else if e_flags & EF_MIPS_ABI_ON32 == EF_MIPS_ABI_ON32 {
                flags == FLAG_MIPS64_LIBN32 | FLAG_ELF_LIBC6
            } else {
                flags == FLAG_ELF_LIBC6
            }
        } else if ei_class == ELFCLASS64 {
            if e_flags & EF_MIPS_NAN2008 == EF_MIPS_NAN2008 {
                flags == FLAG_MIPS64_LIBN64_NAN2008 | FLAG_ELF_LIBC6
            } else {
                flags == FLAG_MIPS64_LIBN64 | FLAG_ELF_LIBC6
            }
        } else {
            false
        }
    } else if e_machine == EM_PPC64 {
        flags == FLAG_ELF_LIBC6 | FLAG_POWERPC_LIB64
    } else if e_machine == EM_RISCV {
        if e_flags | EF_RISCV_FLOAT_ABI_SOFT == EF_RISCV_FLOAT_ABI_SOFT {
            flags == FLAG_ELF_LIBC6 | FLAG_RISCV_FLOAT_ABI_SOFT
        } else if e_flags & EF_RISCV_FLOAT_ABI_DOUBLE == EF_RISCV_FLOAT_ABI_DOUBLE {
            flags == FLAG_ELF_LIBC6 | FLAG_RISCV_FLOAT_ABI_DOUBLE
        } else {
            flags == FLAG_ELF_LIBC6
        }
    } else if e_machine == EM_S390 {
        (ei_class == ELFCLASS32 && flags == FLAG_ELF_LIBC6)
            || (ei_class == ELFCLASS64 && flags == FLAG_ELF_LIBC6 | FLAG_S390_LIB64)
    } else if e_machine == EM_SPARC {
        (ei_class == ELFCLASS32 && flags == FLAG_ELF_LIBC6)
            || (ei_class == ELFCLASS64 && flags == FLAG_ELF_LIBC6 | FLAG_SPARC_LIB64)
    } else if e_machine == EM_X86_64 {
        (ei_class == ELFCLASS32 && flags == FLAG_ELF_LIBC6 | FLAG_X8664_LIBX32)
            || (ei_class == ELFCLASS64 && flags == FLAG_ELF_LIBC6 | FLAG_X8664_LIB64)
    } else {
        flags == FLAG_ELF_LIBC6
    }
}

pub fn check_file_entry_flags(flags: i32, ei_class: u8, e_machine: u16, e_flags: u32) -> (r: bool)
    ensures
        r == entry_flags_ok(flags, ei_class, e_machine, e_flags),
{
    if e_machine == EM_AARCH64 {
        ei_class == ELFCLASS64 && flags == FLAG_ELF_LIBC6 | FLAG_AARCH64_LIB64
    } else if e_machine == EM_ARM {
        if e_flags & EF_ARM_VFP_FLOAT != 0 {
            flags == FLAG_ARM_LIBHF | FLAG_ELF_LIBC6 || flags == FLAG_ELF_LIBC6
        } else if e_flags & EF_ARM_SOFT_FLOAT != 0 {
            flags == FLAG_ARM_LIBSF | FLAG_ELF_LIBC6 || flags == FLAG_ELF_LIBC6
        } else {
            false
        }
    } else if e_machine == EM_IA_64 {
        ei_class == ELFCLASS64 && flags == FLAG_ELF_LIBC6 | FLAG_IA64_LIB64
    } else if e_machine == EM_MIPS {
        if ei_class == ELFCLASS32 {
            if e_flags & (EF_MIPS_NAN2008 | EF_MIPS_ABI_ON32) == EF_MIPS_NAN2008 | EF_MIPS_ABI_ON32 {
                flags == FLAG_MIPS64_LIBN32_NAN2008 | FLAG_ELF_LIBC6
            } else if e_flags & EF_MIPS_NAN2008 == EF_MIPS_NAN2008 {
                flags == FLAG_MIPS_LIB32_NAN2008 | FLAG_ELF_LIBC6
            } else if e_flags & EF_MIPS_ABI_ON32 == EF_MIPS_ABI_ON32 {
                flags == FLAG_MIPS64_LIBN32 | FLAG_ELF_LIBC6
            } else {
                flags == FLAG_ELF_LIBC6
            }
        } else if ei_class == ELFCLASS64 {
            if e_flags & EF_MIPS_NAN2008 == EF_MIPS_NAN2008 {
                flags == FLAG_MIPS64_LIBN64_NAN2008 | FLAG_ELF_LIBC6
            } else {
                flags == FLAG_MIPS64_LIBN64 | FLAG_ELF_LIBC6
            }
        } else {
            false
        }
    } else if e_machine == EM_PPC64 {
        flags == FLAG_ELF_LIBC6 | FLAG_POWERPC_LIB64
    } else if e_machine == EM_RISCV {
        if e_flags | EF_RISCV_FLOAT_ABI_SOFT == EF_RISCV_FLOAT_ABI_SOFT {
            flags == FLAG_ELF_LIBC6 | FLAG_RISCV_FLOAT_ABI_SOFT
        } else if e_flags & EF_RISCV_FLOAT_ABI_DOUBLE == EF_RISCV_FLOAT_ABI_DOUBLE {
            flags == FLAG_ELF_LIBC6 | FLAG_RISCV_FLOAT_ABI_DOUBLE
        } else {
            flags == FLAG_ELF_LIBC6
        }
    } else if e_machine == EM_S390 {
        (ei_class == ELFCLASS32 && flags == FLAG_ELF_LIBC6)
            || (ei_class == ELFCLASS64 && flags == FLAG_ELF_LIBC6 | FLAG_S390_LIB64)
    } else if e_machine == EM_SPARC {
        (ei_class == ELFCLASS32 && flags == FLAG_ELF_LIBC6)
            || (ei_class == ELFCLASS64 && flags == FLAG_ELF_LIBC6 | FLAG_SPARC_LIB64)
    } else if e_machine == EM_X86_64 {
        (ei_class == ELFCLASS32 && flags == FLAG_ELF_LIBC6 | FLAG_X8664_LIBX32)
            || (ei_class == ELFCLASS64 && flags == FLAG_ELF_LIBC6 | FLAG_X8664_LIB64)
    } else {
        flags == FLAG_ELF_LIBC6
    }
}

pub const DL_CACHE_HWCAP_EXTENSION: u64 = 0x4000_0000_0000_0000;
pub const DL_CACHE_HWCAP_ISA_LEVEL_MASK: u64 = 0x3ff;

/// The hwcap field refers to the glibc-hwcaps string list iff the extension
/// marker is set in the upper half (ignoring the ISA-level bits there); the
/// index is then the lower half.
pub open spec fn hwcap_index_spec(hwcap: u64) -> Option<u32> {
    if (hwcap >> 32u64) & !DL_CACHE_HWCAP_ISA_LEVEL_MASK == (DL_CACHE_HWCAP_EXTENSION >> 32u64) {
        Some((hwcap & 0xffff_ffff) as u32)
    } else {
        None
    }
}

pub fn check_cache_hwcap_extension(hwcap: u64) -> (r: Option<u32>)
    ensures
        r == hwcap_index_spec(hwcap),
{
    if (hwcap >> 32u64) & !DL_CACHE_HWCAP_ISA_LEVEL_MASK == (DL_CACHE_HWCAP_EXTENSION >> 32u64) {
        Some((hwcap & 0xffff_ffff) as u32)
    } else {
        None
    }
}

/// A cache entry that passed the architecture filter: SONAME, path, and its
/// glibc-hwcaps index if it has one.
pub type EntryView = (Seq<char>, Seq<char>, Option<u32>);

/// How an entry competes for its SONAME.
pub enum Rank {
    /// No hwcap subdirectory.
    Plain,
    /// A hwcap subdirectory the host supports, at this position of the host's
    /// priority list (0 is best).
    At(int),
    /// A hwcap subdirectory the host does not support (or an index outside the
    /// list): never chosen.
    Ignored,
}

/// First position of `x` in `s`, or -1.
pub open spec fn position_from(s: Seq<Seq<char>>, x: Seq<char>, i: int) -> int
    decreases s.len() - i,
{
    if i < 0 || i >= s.len() {
        -1
    } else if s[i] == x {
        i
    } else {
        position_from(s, x, i + 1)
    }
}

pub open spec fn rank_spec(hw: Option<u32>, hwcaps: Seq<Seq<char>>, supported: Seq<Seq<char>>) -> Rank {
    match hw {
        None => Rank::Plain,
        Some(i) => if i < hwcaps.len() && position_from(supported, hwcaps[i as int], 0) >= 0 {
            Rank::At(position_from(supported, hwcaps[i as int], 0))
        } else {
            Rank::Ignored
        },
    }
}

/// The reduction state: one row per SONAME, with the rank that put it there
/// (`None` for a plain entry).
pub type Row = (Seq<char>, Seq<char>, Option<int>);

/// First row for SONAME `k` from `i` on, or -1.
pub open spec fn row_of(s: Seq<Row>, k: Seq<char>, i: int) -> int
    decreases s.len() - i,
{
    if i < 0 || i >= s.len() {
        -1
    } else if s[i].0 == k {
        i
    } else {
        row_of(s, k, i + 1)
    }
}

/// One entry into the state: a supported hwcap entry replaces a plain row or a
/// worse-ranked one; a plain entry replaces only a plain row; an ignored entry
/// changes nothing.
pub open spec fn reduce_step(s: Seq<Row>, e: EntryView, hwcaps: Seq<Seq<char>>, supported: Seq<Seq<char>>) -> Seq<Row> {
    let j = row_of(s, e.0, 0);
    match rank_spec(e.2, hwcaps, supported) {
        Rank::Ignored => s,
        Rank::Plain => if j < 0 {
            s.push((e.0, e.1, None))
        } else if s[j].2 is Some {
            s
        } else {
            s.update(j, (e.0, e.1, None))
        },
        Rank::At(r) => if j < 0 {
            s.push((e.0, e.1, Some(r)))
        } else if s[j].2 matches Some(r0) && r0 <= r {
            s
        } else {
            s.update(j, (e.0, e.1, Some(r)))
        },
    }
}

pub open spec fn reduce_spec(es: Seq<EntryView>, n: int, hwcaps: Seq<Seq<char>>, supported: Seq<Seq<char>>) -> Seq<Row>
    decreases n,
{
    if n <= 0 {
        Seq::empty()
    } else {
        reduce_step(reduce_spec(es, n - 1, hwcaps, supported), es[n - 1], hwcaps, supported)
    }
}

/// The SONAME to path table the reduction leaves.
pub open spec fn table_of(rows: Seq<Row>) -> Seq<(Seq<char>, Seq<char>)> {
    rows.map_values(|r: Row| (r.0, r.1))
}

/// An entry of the cache, read and filtered.
#[derive(Debug)]
pub struct CacheEntry {
    pub key: String,
    pub value: String,
    pub hwcap: Option<u32>,
}

pub open spec fn entries_view(v: Seq<CacheEntry>) -> Seq<EntryView> {
    v.map_values(|e: CacheEntry| (e.key@, e.value@, e.hwcap))
}

pub struct RowExec {
    pub key: String,
    pub value: String,
    pub rank: Option<usize>,
}

pub open spec fn rows_view(v: Seq<RowExec>) -> Seq<Row> {
    v.map_values(|r: RowExec| (r.key@, r.value@, match r.rank {
        Some(x) => Some(x as int),
        None => None,
    }))
}

fn position(s: &Vec<String>, x: &str) -> (r: Option<usize>)
    ensures
        match r {
            Some(i) => position_from(views(s@), x@, 0) == i,
            None => position_from(views(s@), x@, 0) == -1,
        },
{
    let mut i: usize = 0;
    while i < s.len()
        invariant
            i <= s@.len(),
            position_from(views(s@), x@, 0) == position_from(views(s@), x@, i as int),
        decreases s@.len() - i,
    {
        if str_eq(s[i].as_str(), x) {
            return Some(i);
        }
        i = i + 1;
    }
    None
}

fn find_row(rows: &Vec<RowExec>, k: &str) -> (r: Option<usize>)
    ensures
        match r {
            Some(i) => row_of(rows_view(rows@), k@, 0) == i && i < rows@.len(),
            None => row_of(rows_view(rows@), k@, 0) == -1,
        },
{
    let mut i: usize = 0;
    while i < rows.len()
        invariant
            i <= rows@.len(),
            row_of(rows_view(rows@), k@, 0) == row_of(rows_view(rows@), k@, i as int),
        decreases rows@.len() - i,
    {
        if str_eq(rows[i].key.as_str(), k) {
            return Some(i);
        }
        i = i + 1;
    }
    None
}

/// Reduce the filtered entries to one path per SONAME, preferring the
/// glibc-hwcaps subdirectory that comes first in the host's `supported` list.
#[verifier::rlimit(30)]
pub fn reduce_entries(es: &Vec<CacheEntry>, hwcaps: &Vec<String>, supported: &Vec<String>) -> (r: Vec<(String, String)>)
    ensures
        crate::resolver::pairs_view(r@) == table_of(
            reduce_spec(entries_view(es@), es@.len() as int, views(hwcaps@), views(supported@)),
        ),
{
    let mut rows: Vec<RowExec> = Vec::new();
    let mut i: usize = 0;
    assert(rows_view(rows@) =~= Seq::<Row>::empty());
    while i < es.len()
        invariant
            i <= es@.len(),
            rows_view(rows@) == reduce_spec(entries_view(es@), i as int, views(hwcaps@), views(supported@)),
        decreases es@.len() - i,
    {
        let e = &es[i];
        let ghost s = rows_view(rows@);
        let ghost ev = entries_view(es@)[i as int];
        let rank: Option<Option<usize>> = match e.hwcap {
            None => Some(None),
            Some(h) => {
                if (h as usize) < hwcaps.len() {
                    match position(supported, hwcaps[h as usize].as_str()) {
                        Some(p) => Some(Some(p)),
                        None => None,
                    }
                } else {
                    None
                }
            },
        };
        match rank {
            None => {},
            Some(rk) => {
                match find_row(&rows, e.key.as_str()) {
                    None => {
                        rows.push(RowExec { key: e.key.clone(), value: e.value.clone(), rank: rk });
                        assert(rows_view(rows@) =~= reduce_step(s, ev, views(hwcaps@), views(supported@)));
                    },
                    Some(j) => {
                        let replace = match (rows[j].rank, rk) {
                            (Some(_), None) => false,
                            (None, _) => true,
                            (Some(r0), Some(r1)) => r1 < r0,
                        };
                        if replace {
                            rows.set(j, RowExec { key: e.key.clone(), value: e.value.clone(), rank: rk });
                            assert(rows_view(rows@) =~= reduce_step(s, ev, views(hwcaps@), views(supported@)));
                        }
                    },
                }
            },
        }
        i = i + 1;
    }
    let mut out: Vec<(String, String)> = Vec::new();
    let mut k: usize = 0;
    while k < rows.len()
        invariant
            k <= rows@.len(),
            crate::resolver::pairs_view(out@) == table_of(rows_view(rows@)).take(k as int),
        decreases rows@.len() - k,
    {
        let ghost before = crate::resolver::pairs_view(out@);
        let a = rows[k].key.clone();
        let b = rows[k].value.clone();
        out.push((a, b));
        assert(crate::resolver::pairs_view(out@) =~= before.push((a@, b@)));
        assert(table_of(rows_view(rows@))[k as int] == (a@, b@));
        assert(crate::resolver::pairs_view(out@) =~= table_of(rows_view(rows@)).take(k + 1));
        k = k + 1;
    }
    assert(table_of(rows_view(rows@)).take(k as int) =~= table_of(rows_view(rows@)));
    out
}


/// Why a cache file was refused.
#[derive(PartialEq, Eq, Structural, Clone, Copy, Debug)]
pub enum CacheError {
    /// A header or table runs past the end of the file.
    Truncated,
    BadMagic,
    BadVersion,
    BadEndian,
    /// A string offset that does not lead to a NUL-terminated UTF-8 string.
    BadString,
    BadExtension,
}

pub open spec fn prepend<T>(acc: Seq<T>, o: Option<Seq<T>>) -> Option<Seq<T>> {
    match o {
        Some(r) => Some(acc + r),
        None => None,
    }
}

pub open spec fn bytes_eq(b: Seq<u8>, off: int, lit: Seq<u8>) -> bool {
    off + lit.len() <= b.len() && b.subrange(off, off + lit.len()) == lit
}

pub open spec fn old_magic() -> Seq<u8> {
    seq![0x6cu8, 0x64, 0x2e, 0x73, 0x6f, 0x2d, 0x31, 0x2e, 0x37, 0x2e, 0x30]
}

pub open spec fn new_magic() -> Seq<u8> {
    seq![0x67u8, 0x6c, 0x69, 0x62, 0x63, 0x2d, 0x6c, 0x64, 0x2e, 0x73, 0x6f, 0x2e, 0x63, 0x61, 0x63, 0x68, 0x65]
}

pub open spec fn new_version() -> Seq<u8> {
    seq![0x31u8, 0x2e, 0x31]
}

/// Host-order flag in `cache_file_new.flags`: 2 little, 3 big, 0 either.
pub open spec fn endian_ok(flags: u8, big: bool) -> bool {
    flags == 0 || (flags & 3) == (if big { 3u8 } else { 2u8 })
}

/// The filter a binary applies to entries.
pub struct Target {
    pub ei_class: u8,
    pub e_machine: u16,
    pub e_flags: u32,
}

pub open spec fn keeps(t: Target, flags: int) -> bool {
    entry_flags_ok(flags as i32, t.ei_class, t.e_machine, t.e_flags)
}

/// Old-format entries from `i` on: those that pass the filter, with their
/// strings read from the table at `strs`.
pub open spec fn old_entries(b: Seq<u8>, big: bool, t: Target, nlibs: int, strs: int, i: int) -> Option<Seq<EntryView>>
    decreases nlibs - i,
{
    if i < 0 || i >= nlibs {
        Some(Seq::empty())
    } else {
        let o = 16 + 12 * i;
        let rest = old_entries(b, big, t, nlibs, strs, i + 1);
        if !keeps(t, u32_at(b, o, big)) {
            rest
        } else {
            let k = cstr_in(b, strs, b.len() as int, u32_at(b, o + 4, big));
            let v = cstr_in(b, strs, b.len() as int, u32_at(b, o + 8, big));
            if k is None || v is None {
                None
            } else {
                prepend(seq![(k->0, v->0, None::<u32>)], rest)
            }
        }
    }
}

/// New-format entries from `i` on, for a header at `base`.
pub open spec fn new_entries(b: Seq<u8>, big: bool, t: Target, base: int, nlibs: int, i: int) -> Option<Seq<EntryView>>
    decreases nlibs - i,
{
    if i < 0 || i >= nlibs {
        Some(Seq::empty())
    } else {
        let o = base + 48 + 24 * i;
        let rest = new_entries(b, big, t, base, nlibs, i + 1);
        if !keeps(t, u32_at(b, o, big)) {
            rest
        } else {
            let k = cstr_in(b, base, b.len() as int, u32_at(b, o + 4, big));
            let v = cstr_in(b, base, b.len() as int, u32_at(b, o + 8, big));
            if k is None || v is None {
                None
            } else {
                prepend(seq![(k->0, v->0, hwcap_index_spec(u64_at(b, o + 16, big) as u64))], rest)
            }
        }
    }
}

/// The names listed by one GLIBC_HWCAPS section: `n` string offsets at `at`.
pub open spec fn hw_names(b: Seq<u8>, big: bool, base: int, at: int, n: int, i: int) -> Option<Seq<Seq<char>>>
    decreases n - i,
{
    if i < 0 || i >= n {
        Some(Seq::empty())
    } else if at + 4 * i + 4 > b.len() {
        None
    } else {
        match cstr_in(b, base, b.len() as int, u32_at(b, at + 4 * i, big)) {
            None => None,
            Some(s) => prepend(seq![s], hw_names(b, big, base, at, n, i + 1)),
        }
    }
}

/// The names of all GLIBC_HWCAPS sections from section `j` on.
pub open spec fn hw_sections(b: Seq<u8>, big: bool, base: int, e: int, count: int, j: int) -> Option<Seq<Seq<char>>>
    decreases count - j,
{
    if j < 0 || j >= count {
        Some(Seq::empty())
    } else {
        let s = e + 8 + 16 * j;
        if s + 16 > b.len() {
            None
        } else if u32_at(b, s, big) == 1 {
            match hw_names(b, big, base, base + u32_at(b, s + 8, big), u32_at(b, s + 12, big) / 4, 0) {
                None => None,
                Some(names) => prepend(names, hw_sections(b, big, base, e, count, j + 1)),
            }
        } else {
            hw_sections(b, big, base, e, count, j + 1)
        }
    }
}

pub open spec fn hwcap_names_spec(b: Seq<u8>, big: bool, base: int, ext: int) -> Option<Seq<Seq<char>>> {
    if ext == 0 {
        Some(Seq::empty())
    } else if base + ext + 8 > b.len() || u32_at(b, base + ext, big) != 0xeaa42174 {
        None
    } else {
        hw_sections(b, big, base, base + ext, u32_at(b, base + ext + 4, big), 0)
    }
}

/// The table a new-format cache at `base` yields, or why it is refused.
#[verifier::opaque]
pub open spec fn parse_new_spec(b: Seq<u8>, big: bool, t: Target, base: int, supported: Seq<Seq<char>>)
    -> Result<Seq<(Seq<char>, Seq<char>)>, CacheError>
{
    if base + 48 > b.len() {
        Err(CacheError::Truncated)
    } else if !bytes_eq(b, base, new_magic()) {
        Err(CacheError::BadMagic)
    } else if !bytes_eq(b, base + 17, new_version()) {
        Err(CacheError::BadVersion)
    } else if !endian_ok(b[base + 28], big) {
        Err(CacheError::BadEndian)
    } else if base + 48 + 24 * u32_at(b, base + 20, big) > b.len() {
        Err(CacheError::Truncated)
    } else {
        let es = new_entries(b, big, t, base, u32_at(b, base + 20, big), 0);
        let hw = hwcap_names_spec(b, big, base, u32_at(b, base + 32, big));
        if es is None {
            Err(CacheError::BadString)
        } else if hw is None {
            Err(CacheError::BadExtension)
        } else {
            Ok(table_of(reduce_spec(es->0, es->0.len() as int, hw->0, supported)))
        }
    }
}

pub open spec fn align4(v: int) -> int {
    ((v + 3) / 4) * 4
}

pub open spec fn parse_spec(b: Seq<u8>, big: bool, t: Target, supported: Seq<Seq<char>>)
    -> Result<Seq<(Seq<char>, Seq<char>)>, CacheError>
{
    if !bytes_eq(b, 0, old_magic()) {
        parse_new_spec(b, big, t, 0, supported)
    } else if b.len() < 16 {
        Err(CacheError::Truncated)
    } else {
        let nlibs = u32_at(b, 12, big);
        let strs = 16 + 12 * nlibs;
        if strs > b.len() {
            Err(CacheError::Truncated)
        } else if b.len() > align4(strs) + 48 {
            parse_new_spec(b, big, t, align4(strs), supported)
        } else {
            parse_old_spec(b, big, t, nlibs, strs, supported)
        }
    }
}

fn bytes_eq_exec(b: &[u8], off: usize, lit: &[u8]) -> (r: bool)
    ensures
        r == bytes_eq(b@, off as int, lit@),
{
    let n = b.len();
    let m = lit.len();
    if off > n || m > n - off {
        return false;
    }
    let mut i: usize = 0;
    while i < m
        invariant
            i <= m,
            m == lit@.len(),
            n == b@.len(),
            off + m <= n,
            forall|k: int| 0 <= k < i ==> b@[off + k] == lit@[k],
        decreases m - i,
    {
        if b[off + i] != lit[i] {
            assert(b@.subrange(off as int, off + m)[i as int] != lit@[i as int]);
            return false;
        }
        i = i + 1;
    }
    assert(b@.subrange(off as int, off + m) =~= lit@);
    true
}

#[verifier::rlimit(30)]
fn old_entries_exec(b: &[u8], big: bool, t: &Target, nlibs: u64, strs: usize) -> (r: Option<Vec<CacheEntry>>)
    requires
        16 + 12 * nlibs <= b@.len(),
        strs <= b@.len(),
    ensures
        match r {
            Some(v) => old_entries(b@, big, *t, nlibs as int, strs as int, 0) == Some(entries_view(v@)),
            None => old_entries(b@, big, *t, nlibs as int, strs as int, 0) is None,
        },
{
    let n = b.len();
    let mut out: Vec<CacheEntry> = Vec::new();
    let mut i: u64 = 0;
    assert(entries_view(out@) =~= Seq::<EntryView>::empty());
    while i < nlibs
        invariant
            i <= nlibs,
            n == b@.len(),
            16 + 12 * nlibs <= n,
            strs <= n,
            old_entries(b@, big, *t, nlibs as int, strs as int, 0)
                == prepend(entries_view(out@), old_entries(b@, big, *t, nlibs as int, strs as int, i as int)),
        decreases nlibs - i,
    {
        let o = (16 + 12 * i) as usize;
        let flags = read_u32(b, o, big);
        let ghost rest = old_entries(b@, big, *t, nlibs as int, strs as int, i + 1);
        if check_file_entry_flags(flags as i32, t.ei_class, t.e_machine, t.e_flags) {
            let k = cstr_exec(b, strs, n, read_u32(b, o + 4, big) as u64);
            let v = cstr_exec(b, strs, n, read_u32(b, o + 8, big) as u64);
            match (k, v) {
                (Some(k), Some(v)) => {
                    let ghost before = entries_view(out@);
                    out.push(CacheEntry { key: k, value: v, hwcap: None });
                    assert(entries_view(out@) =~= before + seq![(k@, v@, None::<u32>)]);
                    assert(prepend(before, prepend(seq![(k@, v@, None::<u32>)], rest)) == prepend(entries_view(out@), rest)) by {
                        if rest is Some {
                            assert(before + (seq![(k@, v@, None::<u32>)] + rest->0) =~= entries_view(out@) + rest->0);
                        }
                    }
                },
                _ => {
                    return None;
                },
            }
        }
        i = i + 1;
    }
    assert(entries_view(out@) + Seq::<EntryView>::empty() =~= entries_view(out@));
    Some(out)
}

#[verifier::rlimit(30)]
fn new_entries_exec(b: &[u8], big: bool, t: &Target, base: usize, nlibs: u64) -> (r: Option<Vec<CacheEntry>>)
    requires
        base + 48 + 24 * nlibs <= b@.len(),
    ensures
        match r {
            Some(v) => new_entries(b@, big, *t, base as int, nlibs as int, 0) == Some(entries_view(v@)),
            None => new_entries(b@, big, *t, base as int, nlibs as int, 0) is None,
        },
{
    let n = b.len();
    let mut out: Vec<CacheEntry> = Vec::new();
    let mut i: u64 = 0;
    assert(entries_view(out@) =~= Seq::<EntryView>::empty());
    while i < nlibs
        invariant
            i <= nlibs,
            n == b@.len(),
            base + 48 + 24 * nlibs <= n,
            new_entries(b@, big, *t, base as int, nlibs as int, 0)
                == prepend(entries_view(out@), new_entries(b@, big, *t, base as int, nlibs as int, i as int)),
        decreases nlibs - i,
    {
        let o = (base as u64 + 48 + 24 * i) as usize;
        let flags = read_u32(b, o, big);
        let ghost rest = new_entries(b@, big, *t, base as int, nlibs as int, i + 1);
        if check_file_entry_flags(flags as i32, t.ei_class, t.e_machine, t.e_flags) {
            let k = cstr_exec(b, base, n, read_u32(b, o + 4, big) as u64);
            let v = cstr_exec(b, base, n, read_u32(b, o + 8, big) as u64);
            let hw = check_cache_hwcap_extension(read_u64(b, o + 16, big));
            match (k, v) {
                (Some(k), Some(v)) => {
                    let ghost before = entries_view(out@);
                    out.push(CacheEntry { key: k, value: v, hwcap: hw });
                    assert(entries_view(out@) =~= before + seq![(k@, v@, hw)]);
                    assert(prepend(before, prepend(seq![(k@, v@, hw)], rest)) == prepend(entries_view(out@), rest)) by {
                        if rest is Some {
                            assert(before + (seq![(k@, v@, hw)] + rest->0) =~= entries_view(out@) + rest->0);
                        }
                    }
                },
                _ => {
                    return None;
                },
            }
        }
        i = i + 1;
    }
    assert(entries_view(out@) + Seq::<EntryView>::empty() =~= entries_view(out@));
    Some(out)
}

fn hw_names_exec(b: &[u8], big: bool, base: usize, at: u64, cnt: u64, out: &mut Vec<String>) -> (ok: bool)
    requires
        base <= b@.len(),
    ensures
        ok ==> hw_names(b@, big, base as int, at as int, cnt as int, 0) == Some(views(final(out)@).skip(old(out)@.len() as int))
            && views(final(out)@).take(old(out)@.len() as int) == views(old(out)@)
            && final(out)@.len() >= old(out)@.len(),
        !ok ==> hw_names(b@, big, base as int, at as int, cnt as int, 0) is None,
{
    let n = b.len();
    let ghost start = views(out@);
    let mut i: u64 = 0;
    assert(views(out@).skip(start.len() as int) =~= Seq::<Seq<char>>::empty());
    while i < cnt
        invariant
            i <= cnt,
            n == b@.len(),
            base <= n,
            views(out@).take(start.len() as int) == start,
            views(out@).len() >= start.len(),
            hw_names(b@, big, base as int, at as int, cnt as int, 0)
                == prepend(views(out@).skip(start.len() as int), hw_names(b@, big, base as int, at as int, cnt as int, i as int)),
        decreases cnt - i,
    {
        if at > n as u64 {
            return false;
        }
        let room = n as u64 - at;
        if i >= room / 4 {
            assert(at + 4 * i + 4 > n) by (nonlinear_arith)
                requires i >= room / 4, room == n - at;
            return false;
        }
        assert(4 * i + 4 <= room) by (nonlinear_arith)
            requires i < room / 4;
        let p = (at + 4 * i) as usize;
        match cstr_exec(b, base, n, read_u32(b, p, big) as u64) {
            None => {
                return false;
            },
            Some(s) => {
                let ghost before = views(out@);
                let ghost rest = hw_names(b@, big, base as int, at as int, cnt as int, i + 1);
                out.push(s);
                assert(views(out@) =~= before.push(s@));
                assert(views(out@).take(start.len() as int) =~= before.take(start.len() as int));
                assert(prepend(before.skip(start.len() as int), prepend(seq![s@], rest))
                    == prepend(views(out@).skip(start.len() as int), rest)) by {
                    if rest is Some {
                        assert(before.skip(start.len() as int) + (seq![s@] + rest->0) =~= views(out@).skip(start.len() as int) + rest->0);
                    }
                }
            },
        }
        i = i + 1;
    }
    assert(views(out@).skip(start.len() as int) + Seq::<Seq<char>>::empty() =~= views(out@).skip(start.len() as int));
    true
}

/// Section `j` of the extension: append its names, if it is a GLIBC_HWCAPS
/// section, to `out`.
#[verifier::rlimit(40)]
fn hw_section_exec(b: &[u8], big: bool, base: usize, e: u64, count: u64, j: u64, out: &mut Vec<String>) -> (ok: bool)
    requires
        base <= b@.len(),
        e + 8 <= b@.len(),
        j < count,
    ensures
        ok ==> prepend(views(old(out)@), hw_sections(b@, big, base as int, e as int, count as int, j as int))
            == prepend(views(final(out)@), hw_sections(b@, big, base as int, e as int, count as int, j + 1)),
        !ok ==> hw_sections(b@, big, base as int, e as int, count as int, j as int) is None,
{
    let n = b.len() as u64;
    let room = n - e - 8;
    let ghost rest = hw_sections(b@, big, base as int, e as int, count as int, j + 1);
    if j >= room / 16 {
        assert(e + 8 + 16 * j + 16 > n) by (nonlinear_arith)
            requires j >= room / 16, room == n - e - 8;
        return false;
    }
    assert(16 * j + 16 <= room) by (nonlinear_arith)
        requires j < room / 16;
    let s = (e + 8 + 16 * j) as usize;
    if read_u32(b, s, big) == 1 {
        let off = read_u32(b, s + 8, big) as u64;
        let size = read_u32(b, s + 12, big) as u64;
        let ghost before = views(out@);
        if off > n - base as u64 {
            if size / 4 == 0 {
                assert(hw_names(b@, big, base as int, base + off, (size / 4) as int, 0) == Some(Seq::<Seq<char>>::empty()));
                assert(views(out@) + rest->0 =~= views(out@) + (Seq::<Seq<char>>::empty() + rest->0)) by {
                    if rest is Some {}
                };
                assert(views(out@).skip(before.len() as int) =~= Seq::<Seq<char>>::empty());
            } else {
                assert(hw_names(b@, big, base as int, base + off, (size / 4) as int, 0) is None);
                return false;
            }
        } else if !hw_names_exec(b, big, base, base as u64 + off, size / 4, out) {
            return false;
        }
        proof {
            let names = views(out@).skip(before.len() as int);
            assert(views(out@) =~= before + names);
            if rest is Some {
                assert(before + (names + rest->0) =~= views(out@) + rest->0);
            }
        }
    }
    true
}

#[verifier::rlimit(40)]
fn hwcap_names_exec(b: &[u8], big: bool, base: usize, ext: u64) -> (r: Option<Vec<String>>)
    requires
        base <= b@.len(),
    ensures
        match r {
            Some(v) => hwcap_names_spec(b@, big, base as int, ext as int) == Some(views(v@)),
            None => hwcap_names_spec(b@, big, base as int, ext as int) is None,
        },
{
    let n = b.len() as u64;
    let mut out: Vec<String> = Vec::new();
    assert(views(out@) =~= Seq::<Seq<char>>::empty());
    if ext == 0 {
        return Some(out);
    }
    if ext > n - base as u64 || 8 > n - base as u64 - ext {
        return None;
    }
    let e = base as u64 + ext;
    if read_u32(b, e as usize, big) != 0xeaa42174 {
        return None;
    }
    let count = read_u32(b, (e + 4) as usize, big) as u64;
    assert(hwcap_names_spec(b@, big, base as int, ext as int) == hw_sections(b@, big, base as int, e as int, count as int, 0));
    let mut j: u64 = 0;
    while j < count
        invariant
            j <= count,
            n == b@.len(),
            base <= n,
            e + 8 <= n,
            e == base + ext,
            count == u32_at(b@, e as int + 4, big),
            hwcap_names_spec(b@, big, base as int, ext as int) == hw_sections(b@, big, base as int, e as int, count as int, 0),
            hw_sections(b@, big, base as int, e as int, count as int, 0)
                == prepend(views(out@), hw_sections(b@, big, base as int, e as int, count as int, j as int)),
        decreases count - j,
    {
        if !hw_section_exec(b, big, base, e, count, j, &mut out) {
            return None;
        }
        j = j + 1;
    }
    assert(views(out@) + Seq::<Seq<char>>::empty() =~= views(out@));
    Some(out)
}

#[verifier::rlimit(30)]
fn parse_new(b: &[u8], big: bool, t: &Target, base: usize, supported: &Vec<String>) -> (r: Result<Vec<(String, String)>, CacheError>)
    requires
        base <= b@.len(),
    ensures
        match r {
            Ok(m) => parse_new_spec(b@, big, *t, base as int, views(supported@)) == Ok::<Seq<(Seq<char>, Seq<char>)>, CacheError>(crate::resolver::pairs_view(m@)),
            Err(e) => parse_new_spec(b@, big, *t, base as int, views(supported@)) == Err::<Seq<(Seq<char>, Seq<char>)>, CacheError>(e),
        },
{
    reveal(parse_new_spec);
    let n = b.len();
    if n - base < 48 {
        return Err(CacheError::Truncated);
    }
    let magic: [u8; 17] = [0x67, 0x6c, 0x69, 0x62, 0x63, 0x2d, 0x6c, 0x64, 0x2e, 0x73, 0x6f, 0x2e, 0x63, 0x61, 0x63, 0x68, 0x65];
    assert(magic@ =~= new_magic());
    if !bytes_eq_exec(b, base, magic.as_slice()) {
        return Err(CacheError::BadMagic);
    }
    let version: [u8; 3] = [0x31, 0x2e, 0x31];
    assert(version@ =~= new_version());
    if !bytes_eq_exec(b, base + 17, version.as_slice()) {
        return Err(CacheError::BadVersion);
    }
    let flags = b[base + 28];
    let cur: u8 = if big { 3 } else { 2 };
    if !(flags == 0 || (flags & 3) == cur) {
        return Err(CacheError::BadEndian);
    }
    let nlibs = read_u32(b, base + 20, big) as u64;
    if 24 * nlibs > (n - base - 48) as u64 {
        return Err(CacheError::Truncated);
    }
    let es = new_entries_exec(b, big, t, base, nlibs);
    let ext = read_u32(b, base + 32, big) as u64;
    let hw = hwcap_names_exec(b, big, base, ext);
    match (es, hw) {
        (None, _) => Err(CacheError::BadString),
        (Some(_), None) => Err(CacheError::BadExtension),
        (Some(es), Some(hw)) => Ok(reduce_entries(&es, &hw, supported)),
    }
}

/// Read a cache file (old format, old followed by new, or new) into a table
/// from SONAME to path for the binary described by `t`, on a host of byte
/// order `big` whose supported glibc-hwcaps subdirectories are `supported`,
/// best first.
#[verifier::rlimit(40)]
pub fn parse_ld_so_cache(b: &[u8], big: bool, t: &Target, supported: &Vec<String>) -> (r: Result<Vec<(String, String)>, CacheError>)
    ensures
        match r {
            Ok(m) => parse_spec(b@, big, *t, views(supported@)) == Ok::<Seq<(Seq<char>, Seq<char>)>, CacheError>(crate::resolver::pairs_view(m@)),
            Err(e) => parse_spec(b@, big, *t, views(supported@)) == Err::<Seq<(Seq<char>, Seq<char>)>, CacheError>(e),
        },
{
    let n = b.len();
    let magic: [u8; 11] = [0x6c, 0x64, 0x2e, 0x73, 0x6f, 0x2d, 0x31, 0x2e, 0x37, 0x2e, 0x30];
    assert(magic@ =~= old_magic());
    if !bytes_eq_exec(b, 0, magic.as_slice()) {
        return parse_new(b, big, t, 0, supported);
    }
    if n < 16 {
        return Err(CacheError::Truncated);
    }
    let nlibs = read_u32(b, 12, big) as u64;
    if 12 * nlibs > (n - 16) as u64 {
        return Err(CacheError::Truncated);
    }
    let strs = (16 + 12 * nlibs) as usize;
    let aligned = (strs + 3) / 4 * 4;
    assert(aligned == align4(strs as int));
    assert(aligned <= strs + 3) by (nonlinear_arith)
        requires aligned == (strs + 3) / 4 * 4;
    if aligned <= n && n - aligned > 48 {
        return parse_new(b, big, t, aligned, supported);
    }
    assert(!(b@.len() > align4(strs as int) + 48));
    parse_old(b, big, t, nlibs, strs, supported)
}

pub open spec fn parse_old_spec(b: Seq<u8>, big: bool, t: Target, nlibs: int, strs: int, supported: Seq<Seq<char>>)
    -> Result<Seq<(Seq<char>, Seq<char>)>, CacheError>
{
    match old_entries(b, big, t, nlibs, strs, 0) {
        None => Err(CacheError::BadString),
        Some(es) => Ok(table_of(reduce_spec(es, es.len() as int, Seq::empty(), supported))),
    }
}

fn parse_old(b: &[u8], big: bool, t: &Target, nlibs: u64, strs: usize, supported: &Vec<String>) -> (r: Result<Vec<(String, String)>, CacheError>)
    requires
        16 + 12 * nlibs <= b@.len(),
        strs <= b@.len(),
    ensures
        match r {
            Ok(m) => parse_old_spec(b@, big, *t, nlibs as int, strs as int, views(supported@)) == Ok::<Seq<(Seq<char>, Seq<char>)>, CacheError>(crate::resolver::pairs_view(m@)),
            Err(e) => parse_old_spec(b@, big, *t, nlibs as int, strs as int, views(supported@)) == Err::<Seq<(Seq<char>, Seq<char>)>, CacheError>(e),
        },
{
    match old_entries_exec(b, big, t, nlibs, strs) {
        None => Err(CacheError::BadString),
        Some(es) => {
            let hw: Vec<String> = Vec::new();
            assert(views(hw@) =~= Seq::<Seq<char>>::empty());
            Ok(reduce_entries(&es, &hw, supported))
        },
    }
}

/// A file that starts with the old format and has room for a new-format
/// header after the old entry table, at the 4-byte aligned offset, is read as
/// the new format found there.
pub proof fn lemma_old_then_new(b: Seq<u8>, big: bool, t: Target, supported: Seq<Seq<char>>)
    requires
        bytes_eq(b, 0, old_magic()),
        b.len() >= 16,
        16 + 12 * u32_at(b, 12, big) <= b.len(),
        b.len() > align4(16 + 12 * u32_at(b, 12, big)) + 48,
    ensures
        parse_spec(b, big, t, supported) == parse_new_spec(b, big, t, align4(16 + 12 * u32_at(b, 12, big)), supported),
{
}

proof fn lemma_row_of_absent(s: Seq<Row>, k: Seq<char>, i: int)
    requires
        0 <= i,
        forall|j: int| i <= j < s.len() ==> s[j].0 != k,
    ensures
        row_of(s, k, i) == -1,
    decreases s.len() - i,
{
    if i < s.len() {
        lemma_row_of_absent(s, k, i + 1);
    }
}

pub open spec fn plain_rows(es: Seq<EntryView>, n: int) -> Seq<Row> {
    es.take(n).map_values(|e: EntryView| (e.0, e.1, None::<int>))
}

/// Entries without hwcap subdirectories and with distinct SONAMEs come out
/// as exactly their (SONAME, path) pairs, in order.
pub proof fn lemma_distinct_plain_round_trip(es: Seq<EntryView>, hwcaps: Seq<Seq<char>>, supported: Seq<Seq<char>>)
    requires
        forall|i: int| 0 <= i < es.len() ==> (#[trigger] es[i]).2 is None,
        forall|i: int, j: int| 0 <= i < j < es.len() ==> es[i].0 != es[j].0,
    ensures
        table_of(reduce_spec(es, es.len() as int, hwcaps, supported)) == es.map_values(|e: EntryView| (e.0, e.1)),
{
    lemma_plain_prefix(es, es.len() as int, hwcaps, supported);
    assert(table_of(plain_rows(es, es.len() as int)) =~= es.map_values(|e: EntryView| (e.0, e.1)));
}

proof fn lemma_plain_prefix(es: Seq<EntryView>, n: int, hwcaps: Seq<Seq<char>>, supported: Seq<Seq<char>>)
    requires
        0 <= n <= es.len(),
        forall|i: int| 0 <= i < es.len() ==> (#[trigger] es[i]).2 is None,
        forall|i: int, j: int| 0 <= i < j < es.len() ==> es[i].0 != es[j].0,
    ensures
        reduce_spec(es, n, hwcaps, supported) == plain_rows(es, n),
    decreases n,
{
    if n > 0 {
        lemma_plain_prefix(es, n - 1, hwcaps, supported);
        let s = plain_rows(es, n - 1);
        lemma_row_of_absent(s, es[n - 1].0, 0);
        assert(plain_rows(es, n) =~= s.push((es[n - 1].0, es[n - 1].1, None::<int>)));
    } else {
        assert(plain_rows(es, 0) =~= Seq::<Row>::empty());
    }
}

/// Two entries for one SONAME, a plain one and one in a glibc-hwcaps
/// subdirectory: in either order, the hwcap entry wins when the host supports
/// its subdirectory, and the plain entry wins when it does not.
pub proof fn lemma_hwcap_tie_break(k: Seq<char>, plain: Seq<char>, opt: Seq<char>, h: u32, hwcaps: Seq<Seq<char>>, supported: Seq<Seq<char>>)
    requires
        h < hwcaps.len(),
    ensures
        position_from(supported, hwcaps[h as int], 0) >= 0 ==> {
            &&& table_of(reduce_spec(seq![(k, plain, None), (k, opt, Some(h))], 2, hwcaps, supported)) == seq![(k, opt)]
            &&& table_of(reduce_spec(seq![(k, opt, Some(h)), (k, plain, None)], 2, hwcaps, supported)) == seq![(k, opt)]
        },
        position_from(supported, hwcaps[h as int], 0) < 0 ==> {
            &&& table_of(reduce_spec(seq![(k, plain, None), (k, opt, Some(h))], 2, hwcaps, supported)) == seq![(k, plain)]
            &&& table_of(reduce_spec(seq![(k, opt, Some(h)), (k, plain, None)], 2, hwcaps, supported)) == seq![(k, plain)]
        },
{
    let e1: Seq<EntryView> = seq![(k, plain, None), (k, opt, Some(h))];
    let e2: Seq<EntryView> = seq![(k, opt, Some(h)), (k, plain, None)];
    let r1 = reduce_spec(e1, 1, hwcaps, supported);
    let r2 = reduce_spec(e2, 1, hwcaps, supported);
    assert(reduce_spec(e1, 0, hwcaps, supported) == Seq::<Row>::empty());
    assert(reduce_spec(e2, 0, hwcaps, supported) == Seq::<Row>::empty());
    assert(row_of(Seq::<Row>::empty(), k, 0) == -1);
    if r1.len() > 0 {
        assert(row_of(r1, k, 0) == 0);
    }
    if r2.len() > 0 {
        assert(row_of(r2, k, 0) == 0);
    } else {
        assert(row_of(r2, k, 0) == -1);
    }
    assert(table_of(reduce_spec(e1, 2, hwcaps, supported)) =~= (if position_from(supported, hwcaps[h as int], 0) >= 0 { seq![(k, opt)] } else { seq![(k, plain)] }));
    assert(table_of(reduce_spec(e2, 2, hwcaps, supported)) =~= (if position_from(supported, hwcaps[h as int], 0) >= 0 { seq![(k, opt)] } else { seq![(k, plain)] }));
}

} // verus!
