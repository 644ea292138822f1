//! The ELF reader: the header fields and dynamic-table entries that the loader
//! uses, read from the bytes of a file.
use vstd::prelude::*;
use crate::bytes::{
    cstr_exec, cstr_in, find_nul, find_nul_exec, read_u16, read_u32, read_u64, text_exec, text_of,
    u16_at, u32_at, u64_at,
};
use crate::elf_defs::{
    DF_1_NODEFLIB, DT_FLAGS_1, DT_NEEDED, DT_NULL, DT_RPATH, DT_RUNPATH, DT_SONAME, DT_STRSZ,
    DT_STRTAB, ELFCLASS64, ELFDATA2MSB, ET_DYN, ET_EXEC, PT_DYNAMIC, PT_INTERP, PT_LOAD,
};
use crate::text::views;

verus! {

/// What an ELF file says about itself, as read from its bytes; the rpath and
/// runpath strings are not expanded yet.
#[derive(Debug)]
pub struct ElfFile {
    pub ei_class: u8,
    pub ei_data: u8,
    pub ei_osabi: u8,
    pub e_machine: u16,
    pub e_flags: u32,
    pub interp: Option<String>,
    pub soname: Option<String>,
    pub rpath: Option<String>,
    pub runpath: Option<String>,
    pub nodeflibs: bool,
    pub needed: Vec<String>,
}

#[derive(PartialEq, Eq, Structural, Clone, Copy, Debug)]
pub enum MalformedReason {
    /// The header or the program-header table runs past the end of the file.
    Truncated,
    /// No PT_DYNAMIC segment.
    NoDynamic,
    /// The PT_DYNAMIC segment is not a whole array of entries inside the file.
    BadDynamic,
    /// No PT_LOAD segment holds `[DT_STRTAB, DT_STRTAB + DT_STRSZ)`.
    MissingDynamicStringTable,
}

#[derive(PartialEq, Eq, Structural, Clone, Copy, Debug)]
pub enum ParseError {
    /// Not an ELF32 or ELF64 file in a known byte order.
    NotAnObject,
    /// An ELF file that is neither ET_EXEC nor ET_DYN.
    UnsupportedObject,
    MalformedObject(MalformedReason),
}

// ---- the layout of the file, as functions of its bytes ----

pub open spec fn magic_ok(b: Seq<u8>) -> bool {
    &&& b.len() >= 16
    &&& b[0] == 0x7f && b[1] == 0x45 && b[2] == 0x4c && b[3] == 0x46
    &&& b[4] == 1 || b[4] == 2
    &&& b[5] == 1 || b[5] == 2
}

pub open spec fn is64(b: Seq<u8>) -> bool {
    b[4] == ELFCLASS64
}

pub open spec fn big(b: Seq<u8>) -> bool {
    b[5] == ELFDATA2MSB
}

pub open spec fn ehsize(b: Seq<u8>) -> int {
    if is64(b) { 64 } else { 52 }
}

pub open spec fn e_type(b: Seq<u8>) -> int {
    u16_at(b, 16, big(b))
}

pub open spec fn e_machine(b: Seq<u8>) -> int {
    u16_at(b, 18, big(b))
}

pub open spec fn e_flags(b: Seq<u8>) -> int {
    if is64(b) { u32_at(b, 48, big(b)) } else { u32_at(b, 36, big(b)) }
}

pub open spec fn e_phoff(b: Seq<u8>) -> int {
    if is64(b) { u64_at(b, 32, big(b)) } else { u32_at(b, 28, big(b)) }
}

pub open spec fn e_phentsize(b: Seq<u8>) -> int {
    if is64(b) { u16_at(b, 54, big(b)) } else { u16_at(b, 42, big(b)) }
}

pub open spec fn e_phnum(b: Seq<u8>) -> int {
    if is64(b) { u16_at(b, 56, big(b)) } else { u16_at(b, 44, big(b)) }
}

/// Size of one program header.
pub open spec fn phsz(b: Seq<u8>) -> int {
    if is64(b) { 56 } else { 32 }
}

/// The program-header table is whole and inside the file.
pub open spec fn ph_table_ok(b: Seq<u8>) -> bool {
    e_phentsize(b) == phsz(b) && e_phoff(b) + e_phnum(b) * phsz(b) <= b.len()
}

pub open spec fn ph_at(b: Seq<u8>, i: int) -> int {
    e_phoff(b) + i * phsz(b)
}

pub open spec fn p_type(b: Seq<u8>, i: int) -> int {
    u32_at(b, ph_at(b, i), big(b))
}

pub open spec fn p_offset(b: Seq<u8>, i: int) -> int {
    if is64(b) { u64_at(b, ph_at(b, i) + 8, big(b)) } else { u32_at(b, ph_at(b, i) + 4, big(b)) }
}

pub open spec fn p_vaddr(b: Seq<u8>, i: int) -> int {
    if is64(b) { u64_at(b, ph_at(b, i) + 16, big(b)) } else { u32_at(b, ph_at(b, i) + 8, big(b)) }
}

pub open spec fn p_filesz(b: Seq<u8>, i: int) -> int {
    if is64(b) { u64_at(b, ph_at(b, i) + 32, big(b)) } else { u32_at(b, ph_at(b, i) + 16, big(b)) }
}

/// The first program header from `k` on with type `t`, or -1.
pub open spec fn first_ph(b: Seq<u8>, t: int, k: int) -> int
    decreases e_phnum(b) - k,
{
    if k < 0 || k >= e_phnum(b) {
        -1
    } else if p_type(b, k) == t {
        k
    } else {
        first_ph(b, t, k + 1)
    }
}

/// Program header `i` is a PT_LOAD segment, inside the file, whose addresses
/// cover `[addr, addr + size)`.
pub open spec fn load_covers(b: Seq<u8>, i: int, addr: int, size: int) -> bool {
    &&& p_type(b, i) == PT_LOAD
    &&& p_offset(b, i) + p_filesz(b, i) <= b.len()
    &&& p_vaddr(b, i) <= addr
    &&& addr + size <= p_vaddr(b, i) + p_filesz(b, i)
}

pub open spec fn first_load(b: Seq<u8>, addr: int, size: int, k: int) -> int
    decreases e_phnum(b) - k,
{
    if k < 0 || k >= e_phnum(b) {
        -1
    } else if load_covers(b, k, addr, size) {
        k
    } else {
        first_load(b, addr, size, k + 1)
    }
}

pub open spec fn dynsz(b: Seq<u8>) -> int {
    if is64(b) { 16 } else { 8 }
}

pub open spec fn dyn_seg(b: Seq<u8>) -> int {
    first_ph(b, PT_DYNAMIC as int, 0)
}

/// The dynamic segment is a whole array of entries inside the file.
pub open spec fn dyn_ok(b: Seq<u8>) -> bool {
    let i = dyn_seg(b);
    p_offset(b, i) + p_filesz(b, i) <= b.len() && p_filesz(b, i) % dynsz(b) == 0
}

pub open spec fn dyn_count(b: Seq<u8>) -> int {
    p_filesz(b, dyn_seg(b)) / dynsz(b)
}

pub open spec fn dyn_tag(b: Seq<u8>, k: int) -> int {
    let o = p_offset(b, dyn_seg(b)) + k * dynsz(b);
    if is64(b) { u64_at(b, o, big(b)) } else { u32_at(b, o, big(b)) }
}

pub open spec fn dyn_val(b: Seq<u8>, k: int) -> int {
    let o = p_offset(b, dyn_seg(b)) + k * dynsz(b);
    if is64(b) { u64_at(b, o + 8, big(b)) } else { u32_at(b, o + 4, big(b)) }
}

/// The value of the first entry from `k` on with tag `t`, before DT_NULL.
pub open spec fn dyn_scan(b: Seq<u8>, t: int, k: int) -> Option<int>
    decreases dyn_count(b) - k,
{
    if k < 0 || k >= dyn_count(b) || dyn_tag(b, k) == DT_NULL {
        None
    } else if dyn_tag(b, k) == t {
        Some(dyn_val(b, k))
    } else {
        dyn_scan(b, t, k + 1)
    }
}

pub open spec fn strtab_addr(b: Seq<u8>) -> int {
    match dyn_scan(b, DT_STRTAB as int, 0) {
        Some(v) => v,
        None => 0,
    }
}

pub open spec fn strtab_size(b: Seq<u8>) -> int {
    match dyn_scan(b, DT_STRSZ as int, 0) {
        Some(v) => v,
        None => 0,
    }
}

pub open spec fn strtab_seg(b: Seq<u8>) -> int {
    first_load(b, strtab_addr(b), strtab_size(b), 0)
}

/// File offset of the dynamic string table.
pub open spec fn strtab_start(b: Seq<u8>) -> int {
    let i = strtab_seg(b);
    p_offset(b, i) + (strtab_addr(b) - p_vaddr(b, i))
}

pub open spec fn strtab_end(b: Seq<u8>) -> int {
    strtab_start(b) + strtab_size(b)
}

pub open spec fn dyn_string(b: Seq<u8>, k: int) -> Option<Seq<char>> {
    cstr_in(b, strtab_start(b), strtab_end(b), dyn_val(b, k))
}

/// The string of the first entry from `k` on with tag `t` whose string reads,
/// before DT_NULL.
pub open spec fn dyn_str_scan(b: Seq<u8>, t: int, k: int) -> Option<Seq<char>>
    decreases dyn_count(b) - k,
{
    if k < 0 || k >= dyn_count(b) || dyn_tag(b, k) == DT_NULL {
        None
    } else if dyn_tag(b, k) == t && dyn_string(b, k) is Some {
        dyn_string(b, k)
    } else {
        dyn_str_scan(b, t, k + 1)
    }
}

/// The DT_NEEDED strings from entry `k` on, in order, before DT_NULL; entries
/// whose string does not read are left out.
pub open spec fn needed_scan(b: Seq<u8>, k: int) -> Seq<Seq<char>>
    decreases dyn_count(b) - k,
{
    if k < 0 || k >= dyn_count(b) || dyn_tag(b, k) == DT_NULL {
        Seq::empty()
    } else if dyn_tag(b, k) == DT_NEEDED && dyn_string(b, k) is Some {
        seq![dyn_string(b, k)->0] + needed_scan(b, k + 1)
    } else {
        needed_scan(b, k + 1)
    }
}

/// The interpreter path: the bytes of the first PT_INTERP segment up to its
/// first NUL.
pub open spec fn interp_spec(b: Seq<u8>) -> Option<Seq<char>> {
    let i = first_ph(b, PT_INTERP as int, 0);
    if i < 0 || p_offset(b, i) + p_filesz(b, i) > b.len() {
        None
    } else {
        text_of(b, p_offset(b, i), find_nul(b, p_offset(b, i), p_offset(b, i) + p_filesz(b, i)))
    }
}

pub open spec fn nodeflibs_spec(b: Seq<u8>) -> bool {
    match dyn_scan(b, DT_FLAGS_1 as int, 0) {
        Some(v) => (v as u64) & DF_1_NODEFLIB != 0,
        None => false,
    }
}

/// The outcome of reading `b`, error by error.
pub open spec fn parse_error_spec(b: Seq<u8>) -> Option<ParseError> {
    if !magic_ok(b) {
        Some(ParseError::NotAnObject)
    } else if b.len() < ehsize(b) {
        Some(ParseError::MalformedObject(MalformedReason::Truncated))
    } else if e_type(b) != ET_EXEC && e_type(b) != ET_DYN {
        Some(ParseError::UnsupportedObject)
    } else if !ph_table_ok(b) {
        Some(ParseError::MalformedObject(MalformedReason::Truncated))
    } else if dyn_seg(b) < 0 {
        Some(ParseError::MalformedObject(MalformedReason::NoDynamic))
    } else if !dyn_ok(b) {
        Some(ParseError::MalformedObject(MalformedReason::BadDynamic))
    } else if strtab_seg(b) < 0 {
        Some(ParseError::MalformedObject(MalformedReason::MissingDynamicStringTable))
    } else {
        None
    }
}

pub open spec fn opt_view(o: Option<String>) -> Option<Seq<char>> {
    match o {
        Some(s) => Some(s@),
        None => None,
    }
}

/// The fields of a successfully read file.
pub open spec fn parsed_from(f: ElfFile, b: Seq<u8>) -> bool {
    &&& f.ei_class == b[4]
    &&& f.ei_data == b[5]
    &&& f.ei_osabi == b[7]
    &&& f.e_machine == e_machine(b)
    &&& f.e_flags == e_flags(b)
    &&& opt_view(f.interp) == interp_spec(b)
    &&& opt_view(f.soname) == dyn_str_scan(b, DT_SONAME as int, 0)
    &&& opt_view(f.rpath) == dyn_str_scan(b, DT_RPATH as int, 0)
    &&& opt_view(f.runpath) == dyn_str_scan(b, DT_RUNPATH as int, 0)
    &&& f.nodeflibs == nodeflibs_spec(b)
    &&& views(f.needed@) == needed_scan(b, 0)
}

// ---- reading ----

fn ph_base(b: &[u8], phoff: u64, i: u64) -> (r: usize)
    requires
        magic_ok(b@),
        ph_table_ok(b@),
        phoff == e_phoff(b@),
        0 <= i < e_phnum(b@),
    ensures
        r == ph_at(b@, i as int),
        r + phsz(b@) <= b@.len(),
{
    let n = b.len();
    if b[4] == ELFCLASS64 {
        assert(ph_at(b@, i as int) + 56 <= e_phoff(b@) + e_phnum(b@) * 56) by (nonlinear_arith)
            requires i < e_phnum(b@), ph_at(b@, i as int) == e_phoff(b@) + i * 56;
        (phoff + i * 56) as usize
    } else {
        assert(ph_at(b@, i as int) + 32 <= e_phoff(b@) + e_phnum(b@) * 32) by (nonlinear_arith)
            requires i < e_phnum(b@), ph_at(b@, i as int) == e_phoff(b@) + i * 32;
        (phoff + i * 32) as usize
    }
}

/// Fields of program header `i`: type, file offset, address, file size.
fn read_ph(b: &[u8], phoff: u64, i: u64) -> (r: (u32, u64, u64, u64))
    requires
        magic_ok(b@),
        ph_table_ok(b@),
        phoff == e_phoff(b@),
        0 <= i < e_phnum(b@),
    ensures
        r.0 == p_type(b@, i as int),
        r.1 == p_offset(b@, i as int),
        r.2 == p_vaddr(b@, i as int),
        r.3 == p_filesz(b@, i as int),
{
    let big = b[5] == ELFDATA2MSB;
    let o = ph_base(b, phoff, i);
    let t = read_u32(b, o, big);
    if b[4] == ELFCLASS64 {
        (t, read_u64(b, o + 8, big), read_u64(b, o + 16, big), read_u64(b, o + 32, big))
    } else {
        (t, read_u32(b, o + 4, big) as u64, read_u32(b, o + 8, big) as u64, read_u32(b, o + 16, big) as u64)
    }
}

/// The first program header of type `t`.
fn find_ph(b: &[u8], phoff: u64, phnum: u64, t: u32) -> (r: Option<u64>)
    requires
        magic_ok(b@),
        ph_table_ok(b@),
        phoff == e_phoff(b@),
        phnum == e_phnum(b@),
    ensures
        match r {
            Some(i) => first_ph(b@, t as int, 0) == i && i < phnum,
            None => first_ph(b@, t as int, 0) == -1,
        },
{
    let mut i: u64 = 0;
    while i < phnum
        invariant
            magic_ok(b@),
            ph_table_ok(b@),
            phoff == e_phoff(b@),
            phnum == e_phnum(b@),
            i <= phnum,
            first_ph(b@, t as int, 0) == first_ph(b@, t as int, i as int),
        decreases phnum - i,
    {
        let (ty, _, _, _) = read_ph(b, phoff, i);
        if ty == t {
            return Some(i);
        }
        i = i + 1;
    }
    None
}

/// The first PT_LOAD segment that covers `[addr, addr + size)`.
fn find_load(b: &[u8], phoff: u64, phnum: u64, addr: u64, size: u64) -> (r: Option<u64>)
    requires
        magic_ok(b@),
        ph_table_ok(b@),
        phoff == e_phoff(b@),
        phnum == e_phnum(b@),
    ensures
        match r {
            Some(i) => first_load(b@, addr as int, size as int, 0) == i && i < phnum
                && load_covers(b@, i as int, addr as int, size as int),
            None => first_load(b@, addr as int, size as int, 0) == -1,
        },
{
    let n = b.len() as u64;
    let mut i: u64 = 0;
    while i < phnum
        invariant
            magic_ok(b@),
            ph_table_ok(b@),
            phoff == e_phoff(b@),
            phnum == e_phnum(b@),
            n == b@.len(),
            i <= phnum,
            first_load(b@, addr as int, size as int, 0) == first_load(b@, addr as int, size as int, i as int),
        decreases phnum - i,
    {
        let (ty, off, vaddr, filesz) = read_ph(b, phoff, i);
        if ty == PT_LOAD && off <= n && filesz <= n - off && vaddr <= addr && addr - vaddr <= filesz
            && size <= filesz - (addr - vaddr) {
            return Some(i);
        }
        i = i + 1;
    }
    None
}

/// Where the dynamic array lies, once the header checks have passed.
pub struct DynInfo {
    pub off: u64,
    pub count: u64,
    pub str_start: usize,
    pub str_end: usize,
}

/// The dynamic array is located: `d` gives its offset and length.
pub open spec fn dyn_loc_ok(b: Seq<u8>, d: DynInfo) -> bool {
    &&& magic_ok(b)
    &&& ph_table_ok(b)
    &&& dyn_seg(b) >= 0
    &&& dyn_ok(b)
    &&& d.off == p_offset(b, dyn_seg(b))
    &&& d.count == dyn_count(b)
    &&& d.off + d.count * dynsz(b) <= b.len()
}

pub open spec fn dyn_info_ok(b: Seq<u8>, d: DynInfo) -> bool {
    &&& dyn_loc_ok(b, d)
    &&& parse_error_spec(b) is None
    &&& d.str_start == strtab_start(b)
    &&& d.str_end == strtab_end(b)
    &&& d.str_start <= d.str_end <= b.len()
}

fn read_dyn(b: &[u8], d: &DynInfo, k: u64) -> (r: (u64, u64))
    requires
        dyn_loc_ok(b@, *d),
        k < d.count,
    ensures
        r.0 == dyn_tag(b@, k as int),
        r.1 == dyn_val(b@, k as int),
{
    let big = b[5] == ELFDATA2MSB;
    if b[4] == ELFCLASS64 {
        assert(dynsz(b@) == 16);
        assert(d.off + k * 16 + 16 <= d.off + d.count * 16) by (nonlinear_arith)
            requires k < d.count;
        let o = (d.off + k * 16) as usize;
        (read_u64(b, o, big), read_u64(b, o + 8, big))
    } else {
        assert(dynsz(b@) == 8);
        assert(d.off + k * 8 + 8 <= d.off + d.count * 8) by (nonlinear_arith)
            requires k < d.count;
        let o = (d.off + k * 8) as usize;
        (read_u32(b, o, big) as u64, read_u32(b, o + 4, big) as u64)
    }
}

fn scan_dyn(b: &[u8], d: &DynInfo, t: u64) -> (r: Option<u64>)
    requires
        dyn_info_ok(b@, *d),
    ensures
        match r {
            Some(v) => dyn_scan(b@, t as int, 0) == Some(v as int),
            None => dyn_scan(b@, t as int, 0) is None,
        },
{
    let mut k: u64 = 0;
    while k < d.count
        invariant
            dyn_info_ok(b@, *d),
            k <= d.count,
            dyn_scan(b@, t as int, 0) == dyn_scan(b@, t as int, k as int),
        decreases d.count - k,
    {
        let (tag, val) = read_dyn(b, d, k);
        if tag == DT_NULL {
            return None;
        }
        if tag == t {
            return Some(val);
        }
        k = k + 1;
    }
    None
}

fn scan_dyn_str(b: &[u8], d: &DynInfo, t: u64) -> (r: Option<String>)
    requires
        dyn_info_ok(b@, *d),
    ensures
        opt_view(r) == dyn_str_scan(b@, t as int, 0),
{
    let mut k: u64 = 0;
    while k < d.count
        invariant
            dyn_info_ok(b@, *d),
            k <= d.count,
            dyn_str_scan(b@, t as int, 0) == dyn_str_scan(b@, t as int, k as int),
        decreases d.count - k,
    {
        let (tag, val) = read_dyn(b, d, k);
        if tag == DT_NULL {
            return None;
        }
        if tag == t {
            let s = cstr_exec(b, d.str_start, d.str_end, val);
            if s.is_some() {
                return s;
            }
        }
        k = k + 1;
    }
    None
}

fn scan_needed(b: &[u8], d: &DynInfo) -> (r: Vec<String>)
    requires
        dyn_info_ok(b@, *d),
    ensures
        views(r@) == needed_scan(b@, 0),
{
    let mut out: Vec<String> = Vec::new();
    let mut k: u64 = 0;
    assert(views(out@) =~= Seq::<Seq<char>>::empty());
    while k < d.count
        invariant
            dyn_info_ok(b@, *d),
            k <= d.count,
            needed_scan(b@, 0) == views(out@) + needed_scan(b@, k as int),
        decreases d.count - k,
    {
        let (tag, val) = read_dyn(b, d, k);
        if tag == DT_NULL {
            assert(views(out@) + needed_scan(b@, k as int) =~= views(out@));
            return out;
        }
        if tag == DT_NEEDED {
            let s = cstr_exec(b, d.str_start, d.str_end, val);
            match s {
                Some(s) => {
                    let ghost before = views(out@);
                    out.push(s);
                    assert(views(out@) =~= before.push(s@));
                    assert(before + needed_scan(b@, k as int) =~= views(out@) + needed_scan(b@, k as int + 1));
                },
                None => {},
            }
        }
        k = k + 1;
    }
    assert(views(out@) + needed_scan(b@, k as int) =~= views(out@));
    out
}

/// Read the fields the loader uses from the bytes of an ELF file.
#[verifier::rlimit(30)]
pub fn parse_elf(b: &[u8]) -> (r: Result<ElfFile, ParseError>)
    ensures
        match r {
            Ok(f) => parse_error_spec(b@) is None && parsed_from(f, b@),
            Err(e) => parse_error_spec(b@) == Some(e),
        },
{
    let n = b.len();
    if n < 16 || b[0] != 0x7f || b[1] != 0x45 || b[2] != 0x4c || b[3] != 0x46 || (b[4] != 1 && b[4] != 2)
        || (b[5] != 1 && b[5] != 2) {
        return Err(ParseError::NotAnObject);
    }
    let is64 = b[4] == ELFCLASS64;
    let big = b[5] == ELFDATA2MSB;
    if (is64 && n < 64) || (!is64 && n < 52) {
        return Err(ParseError::MalformedObject(MalformedReason::Truncated));
    }
    let etype = read_u16(b, 16, big);
    if etype != ET_EXEC && etype != ET_DYN {
        return Err(ParseError::UnsupportedObject);
    }
    let machine = read_u16(b, 18, big);
    let (flags, phoff, phentsize, phnum) = if is64 {
        (read_u32(b, 48, big), read_u64(b, 32, big), read_u16(b, 54, big) as u64, read_u16(b, 56, big) as u64)
    } else {
        (read_u32(b, 36, big), read_u32(b, 28, big) as u64, read_u16(b, 42, big) as u64, read_u16(b, 44, big) as u64)
    };
    let phsz: u64 = if is64 { 56 } else { 32 };
    let tabsz: u64 = if is64 { phnum * 56 } else { phnum * 32 };
    if phentsize != phsz || phoff > n as u64 || tabsz > n as u64 - phoff {
        return Err(ParseError::MalformedObject(MalformedReason::Truncated));
    }
    let dseg = match find_ph(b, phoff, phnum, PT_DYNAMIC) {
        Some(i) => i,
        None => {
            return Err(ParseError::MalformedObject(MalformedReason::NoDynamic));
        },
    };
    let (_, doff, _, dsize) = read_ph(b, phoff, dseg);
    let dsz: u64 = if is64 { 16 } else { 8 };
    if doff > n as u64 || dsize > n as u64 - doff || dsize % dsz != 0 {
        return Err(ParseError::MalformedObject(MalformedReason::BadDynamic));
    }
    let count = dsize / dsz;
    assert(count * dsz == dsize) by (nonlinear_arith)
        requires count == dsize / dsz, dsize % dsz == 0, dsz > 0;
    let pre = DynInfo { off: doff, count, str_start: 0, str_end: 0 };
    proof {
        assert(count == dyn_count(b@));
    }
    let (strtab, strsz) = scan_pair(b, &pre);
    let sseg = match find_load(b, phoff, phnum, strtab, strsz) {
        Some(i) => i,
        None => {
            return Err(ParseError::MalformedObject(MalformedReason::MissingDynamicStringTable));
        },
    };
    let (_, soff, svaddr, _) = read_ph(b, phoff, sseg);
    let str_start = (soff + (strtab - svaddr)) as usize;
    let str_end = str_start + strsz as usize;
    let d = DynInfo { off: doff, count, str_start, str_end };
    let nodeflags = scan_dyn(b, &d, DT_FLAGS_1);
    let nodeflibs = match nodeflags {
        Some(v) => v & DF_1_NODEFLIB != 0,
        None => false,
    };
    let interp = read_interp(b, phoff, phnum);
    Ok(ElfFile {
        ei_class: b[4],
        ei_data: b[5],
        ei_osabi: b[7],
        e_machine: machine,
        e_flags: flags,
        interp,
        soname: scan_dyn_str(b, &d, DT_SONAME),
        rpath: scan_dyn_str(b, &d, DT_RPATH),
        runpath: scan_dyn_str(b, &d, DT_RUNPATH),
        nodeflibs,
        needed: scan_needed(b, &d),
    })
}

/// DT_STRTAB and DT_STRSZ, 0 where absent.
fn scan_pair(b: &[u8], d: &DynInfo) -> (r: (u64, u64))
    requires
        dyn_loc_ok(b@, *d),
    ensures
        r.0 == strtab_addr(b@),
        r.1 == strtab_size(b@),
{
    let mut k: u64 = 0;
    let mut tab: Option<u64> = None;
    let mut sz: Option<u64> = None;
    while k < d.count
        invariant
            dyn_loc_ok(b@, *d),
            k <= d.count,
            dyn_scan(b@, DT_STRTAB as int, 0) == (match tab {
                Some(v) => Some(v as int),
                None => dyn_scan(b@, DT_STRTAB as int, k as int),
            }),
            dyn_scan(b@, DT_STRSZ as int, 0) == (match sz {
                Some(v) => Some(v as int),
                None => dyn_scan(b@, DT_STRSZ as int, k as int),
            }),
        decreases d.count - k,
    {
        let (tag, val) = read_dyn(b, d, k);
        if tag == DT_NULL {
            assert(dyn_scan(b@, DT_STRTAB as int, k as int) is None);
            assert(dyn_scan(b@, DT_STRSZ as int, k as int) is None);
            assert(dyn_scan(b@, DT_STRTAB as int, d.count as int) is None);
            assert(dyn_scan(b@, DT_STRSZ as int, d.count as int) is None);
            k = d.count;
        } else {
            if tag == DT_STRTAB && tab.is_none() {
                tab = Some(val);
            }
            if tag == DT_STRSZ && sz.is_none() {
                sz = Some(val);
            }
            k = k + 1;
        }
    }
    assert(dyn_scan(b@, DT_STRTAB as int, k as int) is None);
    assert(dyn_scan(b@, DT_STRSZ as int, k as int) is None);
    let t = match tab {
        Some(v) => v,
        None => 0,
    };
    let s = match sz {
        Some(v) => v,
        None => 0,
    };
    (t, s)
}

/// The interpreter path (see `interp_spec`).
fn read_interp(b: &[u8], phoff: u64, phnum: u64) -> (r: Option<String>)
    requires
        magic_ok(b@),
        ph_table_ok(b@),
        phoff == e_phoff(b@),
        phnum == e_phnum(b@),
    ensures
        opt_view(r) == interp_spec(b@),
{
    match find_ph(b, phoff, phnum, PT_INTERP) {
        None => None,
        Some(i) => {
            let (_, off, _, size) = read_ph(b, phoff, i);
            let n = b.len() as u64;
            if off > n || size > n - off {
                return None;
            }
            let end = (off + size) as usize;
            let z = find_nul_exec(b, off as usize, end);
            text_exec(b, off as usize, z)
        },
    }
}

proof fn lemma_first_load_none(b: Seq<u8>, addr: int, size: int, k: int)
    requires
        0 <= k,
        forall|i: int| k <= i < e_phnum(b) ==> !load_covers(b, i, addr, size),
    ensures
        first_load(b, addr, size, k) == -1,
    decreases e_phnum(b) - k,
{
    if k < e_phnum(b) {
        lemma_first_load_none(b, addr, size, k + 1);
    }
}

/// A file whose headers are sound but whose DT_STRTAB range lies outside every
/// PT_LOAD segment is refused as malformed, for want of a string table.
pub proof fn lemma_strtab_outside_loads(b: Seq<u8>)
    requires
        magic_ok(b),
        b.len() >= ehsize(b),
        e_type(b) == ET_EXEC || e_type(b) == ET_DYN,
        ph_table_ok(b),
        dyn_seg(b) >= 0,
        dyn_ok(b),
        forall|i: int| 0 <= i < e_phnum(b) && p_type(b, i) == PT_LOAD ==> !(p_vaddr(b, i) <= strtab_addr(b)
            && strtab_addr(b) + strtab_size(b) <= p_vaddr(b, i) + p_filesz(b, i)),
    ensures
        parse_error_spec(b) == Some(ParseError::MalformedObject(MalformedReason::MissingDynamicStringTable)),
{
    lemma_first_load_none(b, strtab_addr(b), strtab_size(b), 0);
}

} // verus!
