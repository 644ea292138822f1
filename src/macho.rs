//! The Mach-O reader: thin 32/64-bit objects and fat archives, and the load
//! commands the loader uses (LC_LOAD_DYLIB and its kin, LC_ID_DYLIB, LC_RPATH).
use vstd::prelude::*;
use crate::bytes::{cstr_exec, cstr_in, read_u32, read_u64, u32_at, u64_at};
use crate::text::views;
use crate::deptree::opt_view;

verus! {

pub const MH_MAGIC: u32 = 0xfeed_face;
pub const MH_MAGIC_64: u32 = 0xfeed_facf;
pub const FAT_MAGIC: u32 = 0xcafe_babe;
pub const FAT_MAGIC_64: u32 = 0xcafe_babf;
pub const LC_REQ_DYLD: u32 = 0x8000_0000;
pub const LC_LOAD_DYLIB: u32 = 0xc;
pub const LC_ID_DYLIB: u32 = 0xd;
pub const LC_LOAD_WEAK_DYLIB: u32 = 0x18 | LC_REQ_DYLD;
pub const LC_RPATH: u32 = 0x1c | LC_REQ_DYLD;
pub const LC_REEXPORT_DYLIB: u32 = 0x1f | LC_REQ_DYLD;
pub const LC_LAZY_LOAD_DYLIB: u32 = 0x20;
pub const LC_LOAD_UPWARD_DYLIB: u32 = 0x23 | LC_REQ_DYLD;

pub const CPU_TYPE_X86: u32 = 7;
pub const CPU_TYPE_X86_64: u32 = 0x0100_0007;
pub const CPU_TYPE_ARM: u32 = 12;
pub const CPU_TYPE_ARM64: u32 = 0x0100_000c;
pub const CPU_TYPE_POWERPC: u32 = 18;
pub const CPU_TYPE_POWERPC64: u32 = 0x0100_0012;

/// What a Mach-O object says about itself; the rpaths are as written.
#[derive(Debug)]
pub struct MachOFile {
    pub soname: Option<String>,
    pub rpath: Vec<String>,
    pub deps: Vec<String>,
}

#[derive(PartialEq, Eq, Structural, Clone, Copy, Debug)]
pub enum MachOError {
    /// Neither a thin Mach-O object nor a fat archive.
    NotAnObject,
    /// A header or the fat table runs past the end of the data.
    Truncated,
    /// A fat archive without a usable slice for the host.
    NoSlice,
}

pub open spec fn is_dylib_cmd(c: int) -> bool {
    c == LC_LOAD_DYLIB || c == LC_LOAD_WEAK_DYLIB || c == LC_REEXPORT_DYLIB || c == LC_LAZY_LOAD_DYLIB
        || c == LC_LOAD_UPWARD_DYLIB
}

/// A thin object's byte order, word size and header size, from its magic.
pub open spec fn thin_kind(b: Seq<u8>) -> Option<(bool, int)> {
    if b.len() < 4 {
        None
    } else if u32_at(b, 0, false) == MH_MAGIC {
        Some((false, 28))
    } else if u32_at(b, 0, false) == MH_MAGIC_64 {
        Some((false, 32))
    } else if u32_at(b, 0, true) == MH_MAGIC {
        Some((true, 28))
    } else if u32_at(b, 0, true) == MH_MAGIC_64 {
        Some((true, 32))
    } else {
        None
    }
}

/// The parsed content of the load commands, from the command at `off` on,
/// with `n` commands left before `end`; iteration stops at the first command
/// that does not fit.
pub struct Cmds {
    pub soname: Option<Seq<char>>,
    pub rpath: Seq<Seq<char>>,
    pub deps: Seq<Seq<char>>,
}

/// The string a command holds at the offset in its word 2.
pub open spec fn cmd_str(b: Seq<u8>, big: bool, off: int, size: int) -> Option<Seq<char>> {
    cstr_in(b, off, off + size, u32_at(b, off + 8, big))
}

pub open spec fn cmds_spec(b: Seq<u8>, big: bool, off: int, end: int, n: int, acc: Cmds) -> Cmds
    decreases n,
{
    if n <= 0 || off + 8 > end || end > b.len() || off < 0 {
        acc
    } else {
        let c = u32_at(b, off, big);
        let size = u32_at(b, off + 4, big);
        if size < 8 || off + size > end {
            acc
        } else {
            let s = cmd_str(b, big, off, size);
            let next = if is_dylib_cmd(c) && size >= 24 && s is Some {
                Cmds { deps: acc.deps.push(s->0), ..acc }
            } else if c == LC_ID_DYLIB && size >= 24 && s is Some {
                Cmds { soname: s, ..acc }
            } else if c == LC_RPATH && size >= 12 && s is Some {
                Cmds { rpath: acc.rpath.push(s->0), ..acc }
            } else {
                acc
            };
            cmds_spec(b, big, off + size, end, n - 1, next)
        }
    }
}

pub open spec fn empty_cmds() -> Cmds {
    Cmds { soname: None, rpath: Seq::empty(), deps: Seq::empty() }
}

/// What a thin object at the start of `b` yields.
pub open spec fn thin_spec(b: Seq<u8>) -> Result<Cmds, MachOError> {
    match thin_kind(b) {
        None => Err(MachOError::NotAnObject),
        Some((big, hdr)) => if b.len() < hdr {
            Err(MachOError::Truncated)
        } else if hdr + u32_at(b, 20, big) > b.len() {
            Ok(empty_cmds())
        } else {
            Ok(cmds_spec(b, big, hdr, hdr + u32_at(b, 20, big), u32_at(b, 16, big), empty_cmds()))
        },
    }
}

pub open spec fn file_view(f: MachOFile) -> Cmds {
    Cmds { soname: opt_view(f.soname), rpath: views(f.rpath@), deps: views(f.deps@) }
}

fn read_cmds(b: &[u8], big: bool, hdr: usize, end: usize, ncmds: u32) -> (r: MachOFile)
    requires
        hdr <= end <= b@.len(),
    ensures
        file_view(r) == cmds_spec(b@, big, hdr as int, end as int, ncmds as int, empty_cmds()),
{
    let mut f = MachOFile { soname: None, rpath: Vec::new(), deps: Vec::new() };
    assert(file_view(f) =~= empty_cmds()) by {
        assert(views(f.rpath@) =~= Seq::<Seq<char>>::empty());
        assert(views(f.deps@) =~= Seq::<Seq<char>>::empty());
    }
    let mut off = hdr;
    let mut n = ncmds;
    while n > 0
        invariant
            hdr <= off,
            end <= b@.len(),
            cmds_spec(b@, big, hdr as int, end as int, ncmds as int, empty_cmds())
                == cmds_spec(b@, big, off as int, end as int, n as int, file_view(f)),
        decreases n,
    {
        if off > end || 8 > end - off {
            return f;
        }
        let c = read_u32(b, off, big);
        let size = read_u32(b, off + 4, big) as usize;
        if size < 8 || size > end - off {
            return f;
        }
        let ghost acc = file_view(f);
        let is_dylib = c == LC_LOAD_DYLIB || c == LC_LOAD_WEAK_DYLIB || c == LC_REEXPORT_DYLIB || c == LC_LAZY_LOAD_DYLIB
            || c == LC_LOAD_UPWARD_DYLIB;
        if size >= 12 {
            let s = cstr_exec(b, off, off + size, read_u32(b, off + 8, big) as u64);
            match s {
                Some(s) => {
                    if is_dylib && size >= 24 {
                        f.deps.push(s);
                        assert(views(f.deps@) =~= acc.deps.push(s@));
                    } else if c == LC_ID_DYLIB && size >= 24 {
                        f.soname = Some(s);
                    } else if c == LC_RPATH {
                        f.rpath.push(s);
                        assert(views(f.rpath@) =~= acc.rpath.push(s@));
                    }
                },
                None => {},
            }
        }
        off = off + size;
        n = n - 1;
    }
    f
}

/// Read a thin Mach-O object.
pub fn parse_thin(b: &[u8]) -> (r: Result<MachOFile, MachOError>)
    ensures
        match r {
            Ok(f) => thin_spec(b@) == Ok::<Cmds, MachOError>(file_view(f)),
            Err(e) => thin_spec(b@) == Err::<Cmds, MachOError>(e),
        },
{
    let n = b.len();
    if n < 4 {
        return Err(MachOError::NotAnObject);
    }
    let (big, hdr): (bool, usize) = if read_u32(b, 0, false) == MH_MAGIC {
        (false, 28)
    } else if read_u32(b, 0, false) == MH_MAGIC_64 {
        (false, 32)
    } else if read_u32(b, 0, true) == MH_MAGIC {
        (true, 28)
    } else if read_u32(b, 0, true) == MH_MAGIC_64 {
        (true, 32)
    } else {
        return Err(MachOError::NotAnObject);
    };
    if n < hdr {
        return Err(MachOError::Truncated);
    }
    let sizeofcmds = read_u32(b, 20, big) as usize;
    if sizeofcmds > n - hdr {
        let f = MachOFile { soname: None, rpath: Vec::new(), deps: Vec::new() };
        assert(file_view(f) =~= empty_cmds()) by {
            assert(views(f.rpath@) =~= Seq::<Seq<char>>::empty());
            assert(views(f.deps@) =~= Seq::<Seq<char>>::empty());
        }
        return Ok(f);
    }
    let ncmds = read_u32(b, 16, big);
    Ok(read_cmds(b, big, hdr, hdr + sizeofcmds, ncmds))
}

/// The slice `(offset, size)` of the first fat entry from `i` on whose CPU
/// type is `cpu` and whose data lies inside the file.
pub open spec fn fat_slice(b: Seq<u8>, wide: bool, cpu: u32, n: int, i: int) -> Option<(int, int)>
    decreases n - i,
{
    if i < 0 || i >= n {
        None
    } else {
        let e = if wide { 8 + 32 * i } else { 8 + 20 * i };
        let off = if wide { u64_at(b, e + 8, true) } else { u32_at(b, e + 8, true) };
        let size = if wide { u64_at(b, e + 16, true) } else { u32_at(b, e + 12, true) };
        if u32_at(b, e, true) == cpu && off + size <= b.len() {
            Some((off, size))
        } else {
            fat_slice(b, wide, cpu, n, i + 1)
        }
    }
}

/// What an object or fat archive yields on a host whose CPU type is `cpu`.
pub open spec fn macho_spec(b: Seq<u8>, cpu: u32) -> Result<Cmds, MachOError> {
    if b.len() >= 8 && (u32_at(b, 0, true) == FAT_MAGIC || u32_at(b, 0, true) == FAT_MAGIC_64) {
        let wide = u32_at(b, 0, true) == FAT_MAGIC_64;
        let n = u32_at(b, 4, true);
        if (wide && 8 + 32 * n > b.len()) || (!wide && 8 + 20 * n > b.len()) {
            Err(MachOError::Truncated)
        } else {
            match fat_slice(b, wide, cpu, n, 0) {
                None => Err(MachOError::NoSlice),
                Some((off, size)) => thin_spec(b.subrange(off, off + size)),
            }
        }
    } else {
        thin_spec(b)
    }
}

#[verifier::rlimit(40)]
fn find_slice(b: &[u8], wide: bool, cpu: u32, n: u64) -> (r: Option<(u64, u64)>)
    requires
        if wide { 8 + 32 * n <= b@.len() } else { 8 + 20 * n <= b@.len() },
    ensures
        match r {
            Some((off, size)) => fat_slice(b@, wide, cpu, n as int, 0) == Some((off as int, size as int))
                && off + size <= b@.len(),
            None => fat_slice(b@, wide, cpu, n as int, 0) is None,
        },
{
    let ulen = b.len();
    let len = ulen as u64;
    let mut i: u64 = 0;
    while i < n
        invariant
            i <= n,
            len == b@.len(),
            ulen == b@.len(),
            if wide { 8 + 32 * n <= len } else { 8 + 20 * n <= len },
            fat_slice(b@, wide, cpu, n as int, 0) == fat_slice(b@, wide, cpu, n as int, i as int),
        decreases n - i,
    {
        let (c, off, size) = if wide {
            assert(8 + 32 * i + 32 <= 8 + 32 * n);
            let e = (8 + 32 * i) as usize;
            (read_u32(b, e, true), read_u64(b, e + 8, true), read_u64(b, e + 16, true))
        } else {
            assert(8 + 20 * i + 20 <= 8 + 20 * n);
            let e = (8 + 20 * i) as usize;
            (read_u32(b, e, true), read_u32(b, e + 8, true) as u64, read_u32(b, e + 12, true) as u64)
        };
        if c == cpu && off <= len && size <= len - off {
            return Some((off, size));
        }
        i = i + 1;
    }
    None
}

/// Read a Mach-O object, or the slice of a fat archive for the host CPU type
/// `cpu`.
pub fn parse_macho(b: &[u8], cpu: u32) -> (r: Result<MachOFile, MachOError>)
    ensures
        match r {
            Ok(f) => macho_spec(b@, cpu) == Ok::<Cmds, MachOError>(file_view(f)),
            Err(e) => macho_spec(b@, cpu) == Err::<Cmds, MachOError>(e),
        },
{
    let len = b.len();
    if len >= 8 {
        let magic = read_u32(b, 0, true);
        if magic == FAT_MAGIC || magic == FAT_MAGIC_64 {
            let wide = magic == FAT_MAGIC_64;
            let n = read_u32(b, 4, true) as u64;
            let tab: u64 = if wide { n * 32 } else { n * 20 };
            if tab > (len - 8) as u64 {
                return Err(MachOError::Truncated);
            }
            match find_slice(b, wide, cpu, n) {
                Some((off, size)) => {
                    let slice = &b[off as usize..(off + size) as usize];
                    assert(slice@ =~= b@.subrange(off as int, off + size));
                    return parse_thin(slice);
                },
                None => {},
            }
            return Err(MachOError::NoSlice);
        }
    }
    parse_thin(b)
}

} // verus!
