//! Where the dyld shared cache lives, by macOS release and CPU.
use vstd::prelude::*;
use crate::text::{char_len, split, split_spec};
use crate::deptree::str_eq;
use vstd::utf8::{decode_utf8, valid_utf8};

verus! {

#[derive(PartialEq, Eq, Structural, Clone, Copy, Debug)]
pub enum MacOsRelease {
    Ventura,
    Monterey,
    BigSur,
    Catalina,
}

/// The value of the decimal digits among the first `n` characters.
pub open spec fn dec_value(s: Seq<char>, n: int) -> int
    decreases n,
{
    if n <= 0 {
        0
    } else {
        dec_value(s, n - 1) * 10 + (s[n - 1] as int - '0' as int)
    }
}

pub open spec fn all_digits(s: Seq<char>) -> bool {
    forall|i: int| 0 <= i < s.len() ==> '0' <= #[trigger] s[i] <= '9'
}

/// The Darwin major version: the part of `kern.osrelease` before the first
/// `.`, when it is a decimal number.
pub open spec fn major_spec(s: Seq<char>) -> Option<int> {
    let p = split_spec(s, seq!['.'])[0];
    if 1 <= p.len() && all_digits(p) {
        Some(dec_value(p, p.len() as int))
    } else {
        None
    }
}

pub open spec fn release_spec(s: Seq<char>) -> Option<MacOsRelease> {
    match major_spec(s) {
        Some(m) => if m == 19 {
            Some(MacOsRelease::Catalina)
        } else if m == 20 {
            Some(MacOsRelease::BigSur)
        } else if m == 21 {
            Some(MacOsRelease::Monterey)
        } else if m >= 22 {
            Some(MacOsRelease::Ventura)
        } else {
            None
        },
        None => None,
    }
}

pub const CAP: u64 = 1_000_000_000;

/// Classify `kern.osrelease`.
pub fn osrelease(s: &str) -> (r: Option<MacOsRelease>)
    ensures
        r == release_spec(s@),
{
    let dot = ['.'];
    assert(dot@ =~= seq!['.']);
    let parts = split(s, dot.as_slice());
    proof {
        assert(parts@.len() >= 1) by {
            assert(crate::text::views(parts@).len() == parts@.len());
            lemma_split_nonempty(s@);
        }
    }
    let p = parts[0].as_str();
    assert(crate::text::views(parts@)[0] == parts@[0]@);
    assert(p@ == split_spec(s@, seq!['.'])[0]);
    let n = char_len(p);
    if n < 1 {
        return None;
    }
    // the value, held at CAP once it reaches it: every release from 22 on
    // is Ventura, so larger values need not be told apart
    let mut v: u64 = 0;
    let mut i: usize = 0;
    while i < n
        invariant
            i <= n,
            n == p@.len(),
            forall|k: int| 0 <= k < i ==> '0' <= #[trigger] p@[k] <= '9',
            v == (if dec_value(p@, i as int) < CAP { dec_value(p@, i as int) } else { CAP as int }),
            0 <= dec_value(p@, i as int),
            p@ == split_spec(s@, seq!['.'])[0],
        decreases n - i,
    {
        let c = p.get_char(i);
        if c < '0' || c > '9' {
            return None;
        }
        let d = c as u64 - '0' as u64;
        if v < CAP {
            v = v * 10 + d;
            if v > CAP {
                v = CAP;
            }
        }
        i = i + 1;
    }
    if v == 19 {
        Some(MacOsRelease::Catalina)
    } else if v == 20 {
        Some(MacOsRelease::BigSur)
    } else if v == 21 {
        Some(MacOsRelease::Monterey)
    } else if v >= 22 {
        Some(MacOsRelease::Ventura)
    } else {
        None
    }
}

proof fn lemma_split_nonempty(s: Seq<char>)
    ensures
        split_spec(s, seq!['.']).len() >= 1,
{
    lemma_split_len(s, seq!['.'], s.len() as int);
}

proof fn lemma_split_len(s: Seq<char>, d: Seq<char>, n: int)
    ensures
        crate::text::split_upto(s, d, n).len() >= 1,
    decreases n,
{
    if n > 0 {
        lemma_split_len(s, d, n - 1);
    }
}

pub open spec fn path_spec(r: MacOsRelease, arch: Seq<char>) -> Option<Seq<char>> {
    match r {
        MacOsRelease::Ventura => if arch == "aarch64"@ {
            Some("/System/Volumes/Preboot/Cryptexes/OS/System/Library/dyld/dyld_shared_cache_arm64e"@)
        } else if arch == "x86_64"@ {
            Some("/System/Volumes/Preboot/Cryptexes/OS/System/Library/dyld/dyld_shared_cache_x86_64"@)
        } else {
            None
        },
        MacOsRelease::Monterey | MacOsRelease::BigSur => if arch == "aarch64"@ {
            Some("/System/Library/dyld/dyld_shared_cache_arm64e"@)
        } else if arch == "x86_64"@ {
            Some("/System/Library/dyld/dyld_shared_cache_x86_64"@)
        } else {
            None
        },
        MacOsRelease::Catalina => if arch == "x86_64"@ {
            Some("/var/db/dyld/dyld_shared_cache_x86_64h"@)
        } else {
            None
        },
    }
}

/// The cache file for a release on a CPU (`std::env::consts::ARCH` naming).
pub fn path(r: MacOsRelease, arch: &str) -> (p: Option<&'static str>)
    ensures
        match p {
            Some(x) => path_spec(r, arch@) == Some(x@),
            None => path_spec(r, arch@) is None,
        },
{
    match r {
        MacOsRelease::Ventura => if str_eq(arch, "aarch64") {
            Some("/System/Volumes/Preboot/Cryptexes/OS/System/Library/dyld/dyld_shared_cache_arm64e")
        } else if str_eq(arch, "x86_64") {
            Some("/System/Volumes/Preboot/Cryptexes/OS/System/Library/dyld/dyld_shared_cache_x86_64")
        } else {
            None
        },
        MacOsRelease::Monterey | MacOsRelease::BigSur => if str_eq(arch, "aarch64") {
            Some("/System/Library/dyld/dyld_shared_cache_arm64e")
        } else if str_eq(arch, "x86_64") {
            Some("/System/Library/dyld/dyld_shared_cache_x86_64")
        } else {
            None
        },
        MacOsRelease::Catalina => if str_eq(arch, "x86_64") {
            Some("/var/db/dyld/dyld_shared_cache_x86_64h")
        } else {
            None
        },
    }
}


/// The image table of a dyld shared cache as `object` reads it: `None` when
/// the header, its magic or the table does not read, else one entry per image
/// with the bytes of its path when they read, and its address.
pub uninterp spec fn dyld_images_of(b: Seq<u8>) -> Option<Seq<(Option<Seq<u8>>, u64)>>;

/// The mapping table of a dyld shared cache as `object` reads it: the
/// address, size and file offset of each mapping; `None` when it does not
/// read.
pub uninterp spec fn dyld_mappings_of(b: Seq<u8>) -> Option<Seq<(u64, u64, u64)>>;

pub open spec fn images_view(v: Seq<(Option<Vec<u8>>, u64)>) -> Seq<(Option<Seq<u8>>, u64)> {
    v.map_values(|e: (Option<Vec<u8>>, u64)| (match e.0 {
        Some(x) => Some(x@),
        None => None,
    }, e.1))
}

/// Relies on `object::macho::DyldCacheHeader::{parse, parse_magic, images}`,
/// `DyldCacheImageInfo::path` and its `address` field to walk the image
/// table of the cache.
#[verifier::external_body]
fn image_table(b: &[u8]) -> (r: Option<Vec<(Option<Vec<u8>>, u64)>>)
    ensures
        match r {
            Some(v) => dyld_images_of(b@) == Some(images_view(v@)),
            None => dyld_images_of(b@) is None,
        },
{
    let header = object::macho::DyldCacheHeader::<object::Endianness>::parse(b).ok()?;
    let (_, endian) = header.parse_magic().ok()?;
    let images = header.images(endian, b).ok()?;
    Some(images.iter().map(|i| (i.path(endian, b).ok().map(|p| p.to_vec()), i.address.get(endian))).collect())
}

/// Relies on `object::macho::DyldCacheHeader::{parse, parse_magic, mappings}`
/// and the `address`, `size` and `file_offset` fields of either mapping
/// record version (a record version `object` adds later reads as no table).
#[verifier::external_body]
fn mapping_table(b: &[u8]) -> (r: Option<Vec<(u64, u64, u64)>>)
    ensures
        match r {
            Some(v) => dyld_mappings_of(b@) == Some(v@),
            None => dyld_mappings_of(b@) is None,
        },
{
    let header = object::macho::DyldCacheHeader::<object::Endianness>::parse(b).ok()?;
    let (_, endian) = header.parse_magic().ok()?;
    Some(match header.mappings(endian, b).ok()? {
        object::read::macho::DyldCacheMappingSlice::V1(m) => {
            m.iter().map(|x| (x.address.get(endian), x.size.get(endian), x.file_offset.get(endian))).collect()
        },
        object::read::macho::DyldCacheMappingSlice::V2(m) => {
            m.iter().map(|x| (x.address.get(endian), x.size.get(endian), x.file_offset.get(endian))).collect()
        },
        _ => return None,
    })
}

/// The file offset of address `a`: through the first mapping from `i` on
/// that holds it, when the sum fits.
pub open spec fn offset_from(m: Seq<(u64, u64, u64)>, a: u64, i: int) -> Option<u64>
    decreases m.len() - i,
{
    if i < 0 || i >= m.len() {
        None
    } else if m[i].0 <= a && a - m[i].0 < m[i].1 {
        if m[i].2 + (a - m[i].0) <= u64::MAX {
            Some((m[i].2 + (a - m[i].0)) as u64)
        } else {
            None
        }
    } else {
        offset_from(m, a, i + 1)
    }
}

fn file_offset(m: &Vec<(u64, u64, u64)>, a: u64) -> (r: Option<u64>)
    ensures
        r == offset_from(m@, a, 0),
{
    let mut i: usize = 0;
    while i < m.len()
        invariant
            i <= m@.len(),
            offset_from(m@, a, 0) == offset_from(m@, a, i as int),
        decreases m@.len() - i,
    {
        let (addr, size, off) = m[i];
        if addr <= a && a - addr < size {
            if off <= u64::MAX - (a - addr) {
                return Some(off + (a - addr));
            }
            return None;
        }
        i = i + 1;
    }
    None
}

/// The images with a UTF-8 path among the first `n` entries, each with its
/// file offset when the mappings give one.
pub open spec fn present(t: Seq<(Option<Seq<u8>>, u64)>, m: Seq<(u64, u64, u64)>, n: int) -> Seq<(Seq<char>, Option<u64>)>
    decreases n,
{
    if n <= 0 {
        Seq::empty()
    } else {
        match t[n - 1].0 {
            Some(p) => if valid_utf8(p) {
                present(t, m, n - 1).push((decode_utf8(p), offset_from(m, t[n - 1].1, 0)))
            } else {
                present(t, m, n - 1)
            },
            None => present(t, m, n - 1),
        }
    }
}

pub open spec fn entries_view(v: Seq<(String, Option<u64>)>) -> Seq<(Seq<char>, Option<u64>)> {
    v.map_values(|e: (String, Option<u64>)| (e.0@, e.1))
}

/// The images of a dyld shared cache, in table order, each with its file
/// offset inside the cache where the mapping table gives one (an unreadable
/// mapping table gives none); images whose path does not read as UTF-8 are
/// left out.
pub fn cache_images(b: &[u8]) -> (r: Option<Vec<(String, Option<u64>)>>)
    ensures
        match r {
            Some(v) => dyld_images_of(b@) matches Some(t) && entries_view(v@) == present(
                t,
                match dyld_mappings_of(b@) {
                    Some(m) => m,
                    None => Seq::empty(),
                },
                t.len() as int,
            ),
            None => dyld_images_of(b@) is None,
        },
{
    let t = image_table(b)?;
    let maps = match mapping_table(b) {
        Some(m) => m,
        None => Vec::new(),
    };
    let ghost mv = maps@;
    let ghost tv = images_view(t@);
    let mut out: Vec<(String, Option<u64>)> = Vec::new();
    let mut i: usize = 0;
    assert(entries_view(out@) =~= Seq::<(Seq<char>, Option<u64>)>::empty());
    while i < t.len()
        invariant
            i <= t@.len(),
            tv == images_view(t@),
            mv == maps@,
            entries_view(out@) == present(tv, mv, i as int),
        decreases t@.len() - i,
    {
        match &t[i].0 {
            Some(p) => {
                match crate::bytes::utf8_string(p.as_slice()) {
                    Some(text) => {
                        let off = file_offset(&maps, t[i].1);
                        let ghost before = entries_view(out@);
                        out.push((text, off));
                        assert(entries_view(out@) =~= before.push((decode_utf8(p@), off)));
                    },
                    None => {},
                }
            },
            None => {},
        }
        i = i + 1;
    }
    Some(out)
}

} // verus!
