//! The BSD hint files: FreeBSD's `elfhints_hdr` and OpenBSD's `hints_header`,
//! each followed by a list of directories.
use vstd::prelude::*;
use crate::bytes::{find_nul, find_nul_exec, read_u32, read_u64, text_exec, text_of, u32_at, u64_at};
use crate::text::{split, split_spec, views};

verus! {

pub const ELFHINTS_MAGIC: u32 = 0x746e6845;
pub const ELFHINTS_VERSION: u32 = 1;
pub const ELFHINTS_MAXFILESIZE: u64 = 16 * 1024;
pub const ELFHINTS_HDR_LEN: u64 = 128;

pub const HH_MAGIC: u64 = 0o11421044151;
pub const LD_HINTS_VERSION_2: u64 = 2;
pub const HINTS_MAXFILESIZE: u64 = 0x7fff_ffff;
pub const HINTS_HDR_LEN: u64 = 64;

#[derive(PartialEq, Eq, Structural, Clone, Copy, Debug)]
pub enum HintsError {
    /// The file is larger than the format allows.
    TooLarge,
    /// The header or the directory list runs past the end of the file.
    Truncated,
    BadMagic,
    BadVersion,
    /// The directory list is not UTF-8.
    BadDirList,
}

/// May a FreeBSD hint file of this size be read at all?
pub fn freebsd_size_ok(len: u64) -> (r: bool)
    ensures
        r == (len <= ELFHINTS_MAXFILESIZE),
{
    len <= ELFHINTS_MAXFILESIZE
}

/// The directory list text of `b[start..start+len)`, up to a NUL inside it.
pub open spec fn dirlist_text(b: Seq<u8>, start: int, len: int) -> Option<Seq<char>> {
    text_of(b, start, find_nul(b, start, start + len))
}

/// The outcome of reading a FreeBSD hint file: its directories, in order.
pub open spec fn freebsd_spec(b: Seq<u8>) -> Result<Seq<Seq<char>>, HintsError> {
    if b.len() > ELFHINTS_MAXFILESIZE {
        Err(HintsError::TooLarge)
    } else if b.len() < ELFHINTS_HDR_LEN {
        Err(HintsError::Truncated)
    } else if u32_at(b, 0, false) != ELFHINTS_MAGIC {
        Err(HintsError::BadMagic)
    } else if u32_at(b, 4, false) != ELFHINTS_VERSION {
        Err(HintsError::BadVersion)
    } else {
        let start = u32_at(b, 8, false) + u32_at(b, 16, false);
        let len = u32_at(b, 20, false);
        if start + len > b.len() {
            Err(HintsError::Truncated)
        } else {
            match dirlist_text(b, start, len) {
                None => Err(HintsError::BadDirList),
                Some(t) => Ok(split_spec(t, seq![':', ';'])),
            }
        }
    }
}

/// Read a FreeBSD `ld-elf.so.hints` file (little-endian fields).
pub fn parse_ld_so_hints_freebsd(b: &[u8]) -> (r: Result<Vec<String>, HintsError>)
    ensures
        match r {
            Ok(v) => freebsd_spec(b@) == Ok::<Seq<Seq<char>>, HintsError>(views(v@)),
            Err(e) => freebsd_spec(b@) == Err::<Seq<Seq<char>>, HintsError>(e),
        },
{
    let n = b.len() as u64;
    if n > ELFHINTS_MAXFILESIZE {
        return Err(HintsError::TooLarge);
    }
    if n < ELFHINTS_HDR_LEN {
        return Err(HintsError::Truncated);
    }
    if read_u32(b, 0, false) != ELFHINTS_MAGIC {
        return Err(HintsError::BadMagic);
    }
    if read_u32(b, 4, false) != ELFHINTS_VERSION {
        return Err(HintsError::BadVersion);
    }
    let start = read_u32(b, 8, false) as u64 + read_u32(b, 16, false) as u64;
    let len = read_u32(b, 20, false) as u64;
    if start > n || len > n - start {
        return Err(HintsError::Truncated);
    }
    let z = find_nul_exec(b, start as usize, (start + len) as usize);
    match text_exec(b, start as usize, z) {
        None => Err(HintsError::BadDirList),
        Some(t) => {
            let d = [':', ';'];
            assert(d@ =~= seq![':', ';']);
            Ok(split(t.as_str(), d.as_slice()))
        },
    }
}

/// The outcome of reading an OpenBSD hint file (fields in the host's order
/// `big`): the directory list is the NUL-terminated string at
/// `hh_strtab + hh_dirlist`.
pub open spec fn openbsd_spec(b: Seq<u8>, big: bool) -> Result<Seq<Seq<char>>, HintsError> {
    if b.len() > HINTS_MAXFILESIZE {
        Err(HintsError::TooLarge)
    } else if b.len() < HINTS_HDR_LEN {
        Err(HintsError::Truncated)
    } else if u64_at(b, 0, big) != HH_MAGIC || u64_at(b, 48, big) > b.len() {
        Err(HintsError::BadMagic)
    } else if u64_at(b, 8, big) != LD_HINTS_VERSION_2 {
        Err(HintsError::BadVersion)
    } else {
        let start = u64_at(b, 32, big) + u64_at(b, 56, big);
        if start > b.len() {
            Err(HintsError::Truncated)
        } else {
            match text_of(b, start, find_nul(b, start, b.len() as int)) {
                None => Err(HintsError::BadDirList),
                Some(t) => Ok(split_spec(t, seq![':', ';'])),
            }
        }
    }
}

/// Read an OpenBSD `ld.so.hints` file.
pub fn parse_ld_so_hints_openbsd(b: &[u8], big: bool) -> (r: Result<Vec<String>, HintsError>)
    ensures
        match r {
            Ok(v) => openbsd_spec(b@, big) == Ok::<Seq<Seq<char>>, HintsError>(views(v@)),
            Err(e) => openbsd_spec(b@, big) == Err::<Seq<Seq<char>>, HintsError>(e),
        },
{
    let n = b.len() as u64;
    if n > HINTS_MAXFILESIZE {
        return Err(HintsError::TooLarge);
    }
    if n < HINTS_HDR_LEN {
        return Err(HintsError::Truncated);
    }
    if read_u64(b, 0, big) != HH_MAGIC || read_u64(b, 48, big) > n {
        return Err(HintsError::BadMagic);
    }
    if read_u64(b, 8, big) != LD_HINTS_VERSION_2 {
        return Err(HintsError::BadVersion);
    }
    let strtab = read_u64(b, 32, big);
    let dirlist = read_u64(b, 56, big);
    if strtab > n || dirlist > n - strtab {
        return Err(HintsError::Truncated);
    }
    let start = (strtab + dirlist) as usize;
    let z = find_nul_exec(b, start, b.len());
    match text_exec(b, start, z) {
        None => Err(HintsError::BadDirList),
        Some(t) => {
            let d = [':', ';'];
            assert(d@ =~= seq![':', ';']);
            Ok(split(t.as_str(), d.as_slice()))
        },
    }
}

/// A FreeBSD hint file over 16 KiB is refused for its size, before any of
/// its contents is looked at.
pub proof fn lemma_freebsd_too_large(b: Seq<u8>)
    requires
        b.len() > ELFHINTS_MAXFILESIZE,
    ensures
        freebsd_spec(b) == Err::<Seq<Seq<char>>, HintsError>(HintsError::TooLarge),
{
}

} // verus!
