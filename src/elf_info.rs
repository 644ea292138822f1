//! Per-binary information for the resolver: rpath/runpath token expansion and
//! the compatibility check between a parent and a candidate.
use vstd::prelude::*;
use crate::elf::{ElfFile, opt_view};
use crate::elf_defs::{
    ELFOSABI_FREEBSD, ELFOSABI_GNU, ELFOSABI_NETBSD, ELFOSABI_OPENBSD, ELFOSABI_SOLARIS,
    ELFOSABI_SYSV,
};
use crate::interp::{is_musl, is_musl_name};
use crate::pathutils::{is_absolute, is_absolute_spec, name_spec, normalize, normalize_spec};
use crate::platform;
use crate::search_path::SearchPathVec;
use crate::system_dirs::{Os, get_slibdir, slibdir_spec};
use crate::text::{occurs_at, replace, replace_spec, split, split_spec, views};
use crate::deptree::str_eq;

verus! {

/// Replace `$NAME` and then `${NAME}` by `v`.
pub open spec fn expand_one(s: Seq<char>, dollar: Seq<char>, braced: Seq<char>, v: Seq<char>) -> Seq<char> {
    replace_spec(replace_spec(s, dollar, v), braced, v)
}

/// `s` with `$ORIGIN`, `$LIB` (when `lib` is given) and `$PLATFORM`, in both
/// sigil forms, replaced by their values.
pub open spec fn expand_spec(s: Seq<char>, origin: Seq<char>, lib: Option<Seq<char>>, plat: Seq<char>) -> Seq<char> {
    let a = expand_one(s, "$ORIGIN"@, "${ORIGIN}"@, origin);
    let b = match lib {
        Some(l) => expand_one(a, "$LIB"@, "${LIB}"@, l),
        None => a,
    };
    expand_one(b, "$PLATFORM"@, "${PLATFORM}"@, plat)
}

/// Expand the tokens of an rpath or runpath string.
pub fn expand_tokens(s: &str, origin: &str, lib: Option<&str>, plat: &str) -> (r: String)
    ensures
        r@ == expand_spec(
            s@,
            origin@,
            match lib {
                Some(l) => Some(l@),
                None => None,
            },
            plat@,
        ),
{
    proof {
        reveal_strlit("$ORIGIN");
        reveal_strlit("${ORIGIN}");
        reveal_strlit("$LIB");
        reveal_strlit("${LIB}");
        reveal_strlit("$PLATFORM");
        reveal_strlit("${PLATFORM}");
    }
    let a1 = replace(s, "$ORIGIN", origin);
    let a = replace(a1.as_str(), "${ORIGIN}", origin);
    let b = match lib {
        Some(l) => {
            let b1 = replace(a.as_str(), "$LIB", l);
            replace(b1.as_str(), "${LIB}", l)
        },
        None => a,
    };
    let c1 = replace(b.as_str(), "$PLATFORM", plat);
    replace(c1.as_str(), "${PLATFORM}", plat)
}

/// `$LIB` is expanded on Linux only.
pub open spec fn lib_for(os: Os, e_machine: u16, ei_class: u8) -> Option<Seq<char>> {
    if os == Os::Linux { slibdir_spec(e_machine, ei_class) } else { None }
}

pub open spec fn platform_for(f: ElfFile, over: Option<Seq<char>>) -> Seq<char> {
    match over {
        Some(p) => p,
        None => platform::platform_spec(f.e_machine, f.ei_data),
    }
}

/// The directories of an rpath or runpath string after expansion, each
/// absolute one normalized.
pub open spec fn dirs_of(raw: Option<Seq<char>>, f: ElfFile, origin: Seq<char>, os: Os, over: Option<Seq<char>>) -> Seq<Seq<char>> {
    match raw {
        None => Seq::empty(),
        Some(s) => split_spec(
            expand_spec(s, origin, lib_for(os, f.e_machine, f.ei_class), platform_for(f, over)),
            seq![':'],
        ).map_values(|d: Seq<char>| normalize_spec(d)),
    }
}

fn dirs_exec(raw: &Option<String>, f: &ElfFile, origin: &str, os: Os, over: &Option<String>) -> (r: Vec<String>)
    ensures
        views(r@) == dirs_of(opt_view(*raw), *f, origin@, os, opt_view(*over)),
{
    match raw {
        None => {
            let r: Vec<String> = Vec::new();
            assert(views(r@) =~= Seq::<Seq<char>>::empty());
            r
        },
        Some(s) => {
            let lib = if os == Os::Linux { get_slibdir(f.e_machine, f.ei_class) } else { None };
            let plat = match over {
                Some(p) => p.clone(),
                None => platform::get(f.e_machine, f.ei_data),
            };
            let e = expand_tokens(s.as_str(), origin, lib, plat.as_str());
            let colon = [':'];
            assert(colon@ =~= seq![':']);
            let pieces = split(e.as_str(), colon.as_slice());
            let ghost pv = views(pieces@);
            let mut out: Vec<String> = Vec::new();
            let mut i: usize = 0;
            assert(views(out@) =~= pv.take(0).map_values(|d: Seq<char>| normalize_spec(d)));
            while i < pieces.len()
                invariant
                    i <= pieces@.len(),
                    pv == views(pieces@),
                    views(out@) == pv.take(i as int).map_values(|d: Seq<char>| normalize_spec(d)),
                decreases pieces@.len() - i,
            {
                let ghost before = views(out@);
                let x = normalize(pieces[i].as_str());
                out.push(x);
                assert(views(out@) =~= before.push(x@));
                assert(pv.take(i + 1) =~= pv.take(i as int).push(pv[i as int]));
                assert(views(out@) =~= pv.take(i + 1).map_values(|d: Seq<char>| normalize_spec(d)));
                i = i + 1;
            }
            assert(pv.take(i as int) =~= pv);
            out
        },
    }
}

/// The rpath and runpath directories of a file, expanded against its origin
/// directory, for the caller to probe.
pub fn search_dirs(f: &ElfFile, origin: &str, os: Os, over: &Option<String>) -> (r: (Vec<String>, Vec<String>))
    ensures
        views(r.0@) == dirs_of(opt_view(f.rpath), *f, origin@, os, opt_view(*over)),
        views(r.1@) == dirs_of(opt_view(f.runpath), *f, origin@, os, opt_view(*over)),
{
    (dirs_exec(&f.rpath, f, origin, os, over), dirs_exec(&f.runpath, f, origin, os, over))
}

/// A binary as the resolver sees it.
#[derive(Debug)]
pub struct ElfInfo {
    pub ei_class: u8,
    pub ei_data: u8,
    pub ei_osabi: u8,
    pub e_machine: u16,
    pub e_flags: u32,
    pub interp: Option<String>,
    pub soname: Option<String>,
    pub rpath: SearchPathVec,
    pub runpath: SearchPathVec,
    pub nodeflibs: bool,
    pub is_musl: bool,
    pub deps: Vec<String>,
}

/// Combine what the file says with its probed search directories.
pub fn elf_info(f: ElfFile, rpath: SearchPathVec, runpath: SearchPathVec) -> (r: ElfInfo)
    ensures
        r.ei_class == f.ei_class,
        r.ei_data == f.ei_data,
        r.ei_osabi == f.ei_osabi,
        r.e_machine == f.e_machine,
        r.e_flags == f.e_flags,
        opt_view(r.interp) == opt_view(f.interp),
        opt_view(r.soname) == opt_view(f.soname),
        r.rpath == rpath,
        r.runpath == runpath,
        r.nodeflibs == f.nodeflibs,
        r.is_musl == (f.interp matches Some(i) && is_musl_name(name_spec(i@))),
        r.deps == f.needed,
{
    let m = is_musl(&f.interp);
    ElfInfo {
        ei_class: f.ei_class,
        ei_data: f.ei_data,
        ei_osabi: f.ei_osabi,
        e_machine: f.e_machine,
        e_flags: f.e_flags,
        interp: f.interp,
        soname: f.soname,
        rpath,
        runpath,
        nodeflibs: f.nodeflibs,
        is_musl: m,
        deps: f.needed,
    }
}

/// The OS-ABI values the host's loader accepts.
pub open spec fn osabi_ok(os: Os, abi: u8) -> bool {
    match os {
        Os::Linux | Os::Android(_) => abi == ELFOSABI_SYSV || abi == ELFOSABI_GNU,
        Os::FreeBsd => abi == ELFOSABI_FREEBSD,
        Os::OpenBsd => abi == ELFOSABI_SYSV || abi == ELFOSABI_OPENBSD,
        Os::NetBsd => abi == ELFOSABI_SYSV || abi == ELFOSABI_NETBSD,
        Os::Illumos => abi == ELFOSABI_SYSV || abi == ELFOSABI_SOLARIS,
        Os::MacOs => false,
    }
}

/// A candidate found for `needed` under `parent` is accepted: acceptable
/// OS-ABI, the parent's class, data encoding and machine, and, when `needed`
/// is a SONAME rather than a path, no SONAME or that one.
pub open spec fn compatible_spec(os: Os, parent: ElfInfo, child: ElfInfo, needed: Seq<char>) -> bool {
    &&& osabi_ok(os, child.ei_osabi)
    &&& child.ei_class == parent.ei_class
    &&& child.ei_data == parent.ei_data
    &&& child.e_machine == parent.e_machine
    &&& (is_absolute_spec(needed) || child.soname is None || opt_view(child.soname) == Some(needed))
}

pub fn compatible(os: Os, parent: &ElfInfo, child: &ElfInfo, needed: &str) -> (r: bool)
    ensures
        r == compatible_spec(os, *parent, *child, needed@),
{
    let abi = child.ei_osabi;
    let abi_ok = match os {
        Os::Linux | Os::Android(_) => abi == ELFOSABI_SYSV || abi == ELFOSABI_GNU,
        Os::FreeBsd => abi == ELFOSABI_FREEBSD,
        Os::OpenBsd => abi == ELFOSABI_SYSV || abi == ELFOSABI_OPENBSD,
        Os::NetBsd => abi == ELFOSABI_SYSV || abi == ELFOSABI_NETBSD,
        Os::Illumos => abi == ELFOSABI_SYSV || abi == ELFOSABI_SOLARIS,
        Os::MacOs => false,
    };
    if !abi_ok || child.ei_class != parent.ei_class || child.ei_data != parent.ei_data
        || child.e_machine != parent.e_machine {
        return false;
    }
    if is_absolute(needed) {
        return true;
    }
    match &child.soname {
        None => true,
        Some(s) => str_eq(s.as_str(), needed),
    }
}


/// Every `$` of `s` starts an occurrence of one of the tokens `ts`.
pub open spec fn dollars_start_tokens(s: Seq<char>, ts: Seq<Seq<char>>) -> bool {
    forall|i: int| 0 <= i < s.len() && s[i] == '$' ==> exists|k: int| 0 <= k < ts.len() && occurs_at(s, ts[k], i)
}

pub open spec fn no_dollar(s: Seq<char>) -> bool {
    forall|i: int| 0 <= i < s.len() ==> s[i] != '$'
}

/// A token: `$` first and nowhere else.
pub open spec fn token_shape(t: Seq<char>) -> bool {
    t.len() >= 2 && t[0] == '$' && no_dollar(t.skip(1))
}

/// Two tokens that cannot both start at one position.
pub open spec fn clash_free(a: Seq<char>, b: Seq<char>) -> bool {
    exists|k: int| 0 <= k < a.len() && k < b.len() && a[k] != b[k]
}

proof fn lemma_occurs_skip(s: Seq<char>, t: Seq<char>, i: int, n: int)
    requires
        0 <= n <= i,
        occurs_at(s, t, i),
    ensures
        occurs_at(s.skip(n), t, i - n),
{
    assert(s.skip(n).subrange(i - n, i - n + t.len()) =~= s.subrange(i, i + t.len()));
}

proof fn lemma_good_skip(s: Seq<char>, ts: Seq<Seq<char>>, n: int)
    requires
        0 <= n <= s.len(),
        dollars_start_tokens(s, ts),
    ensures
        dollars_start_tokens(s.skip(n), ts),
{
    assert forall|i: int| 0 <= i < s.skip(n).len() && s.skip(n)[i] == '$' implies
        exists|k: int| 0 <= k < ts.len() && occurs_at(s.skip(n), ts[k], i) by {
        assert(s[i + n] == '$');
        let k = choose|k: int| 0 <= k < ts.len() && occurs_at(s, ts[k], i + n);
        lemma_occurs_skip(s, ts[k], i + n, n);
    }
}

/// Replacing a `$`-token keeps a `$`-free prefix of the rest in front.
proof fn lemma_replace_keeps_prefix(s: Seq<char>, u: Seq<char>, p: Seq<char>, v: Seq<char>)
    requires
        p.len() > 0,
        p[0] == '$',
        no_dollar(u),
        u.len() <= s.len(),
        s.take(u.len() as int) == u,
    ensures
        replace_spec(s, p, v).len() >= u.len(),
        replace_spec(s, p, v).take(u.len() as int) == u,
    decreases u.len(),
{
    if u.len() > 0 {
        assert(s[0] == u[0]);
        assert(s[0] != '$');
        if s.len() >= p.len() {
            assert(s.take(p.len() as int)[0] != p[0]);
        }
        let u1 = u.skip(1);
        assert(s.skip(1).take(u1.len() as int) =~= u1);
        lemma_replace_keeps_prefix(s.skip(1), u1, p, v);
        let r1 = replace_spec(s.skip(1), p, v);
        assert(replace_spec(s, p, v) == seq![s[0]] + r1);
        assert forall|j: int| 0 <= j < u.len() implies (seq![s[0]] + r1)[j] == u[j] by {
            if j > 0 {
                assert(r1.take(u1.len() as int)[j - 1] == u1[j - 1]);
            }
        }
        assert((seq![s[0]] + r1).take(u.len() as int) =~= u);
    }
}

/// Replacing the first token of `ts` by a `$`-free value leaves every `$`
/// at the start of one of the other tokens.
proof fn lemma_replace_token(s: Seq<char>, ts: Seq<Seq<char>>, v: Seq<char>)
    requires
        ts.len() >= 1,
        forall|k: int| 0 <= k < ts.len() ==> token_shape(#[trigger] ts[k]),
        forall|k: int| 1 <= k < ts.len() ==> clash_free(ts[0], #[trigger] ts[k]),
        no_dollar(v),
        dollars_start_tokens(s, ts),
    ensures
        dollars_start_tokens(replace_spec(s, ts[0], v), ts.skip(1)),
    decreases s.len(),
{
    let p = ts[0];
    let rest = ts.skip(1);
    let r = replace_spec(s, p, v);
    assert(token_shape(p));
    if s.len() < p.len() {
        assert forall|i: int| 0 <= i < r.len() && r[i] == '$' implies
            exists|k: int| 0 <= k < rest.len() && occurs_at(r, rest[k], i) by {
            let k = choose|k: int| 0 <= k < ts.len() && occurs_at(s, ts[k], i);
            assert(k != 0);
            assert(rest[k - 1] == ts[k]);
        }
    } else if s.take(p.len() as int) == p {
        let s1 = s.skip(p.len() as int);
        lemma_good_skip(s, ts, p.len() as int);
        lemma_replace_token(s1, ts, v);
        let r1 = replace_spec(s1, p, v);
        assert(r == v + r1);
        assert forall|i: int| 0 <= i < r.len() && r[i] == '$' implies
            exists|k: int| 0 <= k < rest.len() && occurs_at(r, rest[k], i) by {
            if i < v.len() {
                assert(r[i] == v[i]);
            } else {
                assert(r1[i - v.len()] == '$');
                let k = choose|k: int| 0 <= k < rest.len() && occurs_at(r1, rest[k], i - v.len());
                assert(r.subrange(i, i + rest[k].len()) =~= r1.subrange(i - v.len(), i - v.len() + rest[k].len()));
            }
        }
    } else {
        let s1 = s.skip(1);
        lemma_good_skip(s, ts, 1);
        lemma_replace_token(s1, ts, v);
        let r1 = replace_spec(s1, p, v);
        assert(r == seq![s[0]] + r1);
        assert forall|i: int| 0 <= i < r.len() && r[i] == '$' implies
            exists|k: int| 0 <= k < rest.len() && occurs_at(r, rest[k], i) by {
            if i == 0 {
                let k = choose|k: int| 0 <= k < ts.len() && occurs_at(s, ts[k], 0);
                let t = ts[k];
                if k == 0 {
                    assert(s.subrange(0, p.len() as int) =~= s.take(p.len() as int));
                }
                assert(k != 0);
                assert(token_shape(t));
                let u = t.skip(1);
                assert(s1.take(u.len() as int) =~= u) by {
                    assert forall|j: int| 0 <= j < u.len() implies s1[j] == u[j] by {
                        assert(s.subrange(0, t.len() as int)[j + 1] == t[j + 1]);
                    }
                }
                lemma_replace_keeps_prefix(s1, u, p, v);
                assert(r.subrange(0, t.len() as int) =~= t) by {
                    assert forall|j: int| 0 <= j < t.len() implies r.subrange(0, t.len() as int)[j] == t[j] by {
                        if j == 0 {
                            assert(s.subrange(0, t.len() as int)[0] == t[0]);
                        } else {
                            assert(r1.take(u.len() as int)[j - 1] == u[j - 1]);
                        }
                    }
                }
                assert(rest[k - 1] == t);
                assert(occurs_at(r, rest[k - 1], 0));
            } else {
                assert(r1[i - 1] == '$');
                let k = choose|k: int| 0 <= k < rest.len() && occurs_at(r1, rest[k], i - 1);
                assert(r.subrange(i, i + rest[k].len()) =~= r1.subrange(i - 1, i - 1 + rest[k].len()));
            }
        }
    }
}


/// The tokens the ELF loader substitutes, in the order `expand_spec` takes them.
pub open spec fn elf_tokens() -> Seq<Seq<char>> {
    seq!["$ORIGIN"@, "${ORIGIN}"@, "$LIB"@, "${LIB}"@, "$PLATFORM"@, "${PLATFORM}"@]
}

proof fn lemma_token_facts()
    ensures
        forall|k: int| 0 <= k < 6 ==> token_shape(#[trigger] elf_tokens()[k]),
        forall|j: int, k: int| 0 <= j < k < 6 ==> clash_free(elf_tokens()[j], elf_tokens()[k]),
{
    reveal_strlit("$ORIGIN");
    reveal_strlit("${ORIGIN}");
    reveal_strlit("$LIB");
    reveal_strlit("${LIB}");
    reveal_strlit("$PLATFORM");
    reveal_strlit("${PLATFORM}");
    let t = elf_tokens();
    assert(t[0] =~= seq!['$', 'O', 'R', 'I', 'G', 'I', 'N']);
    assert(t[1] =~= seq!['$', '{', 'O', 'R', 'I', 'G', 'I', 'N', '}']);
    assert(t[2] =~= seq!['$', 'L', 'I', 'B']);
    assert(t[3] =~= seq!['$', '{', 'L', 'I', 'B', '}']);
    assert(t[4] =~= seq!['$', 'P', 'L', 'A', 'T', 'F', 'O', 'R', 'M']);
    assert(t[5] =~= seq!['$', '{', 'P', 'L', 'A', 'T', 'F', 'O', 'R', 'M', '}']);
    assert forall|k: int| 0 <= k < 6 implies token_shape(#[trigger] t[k]) by {
        assert forall|i: int| 0 <= i < t[k].skip(1).len() implies t[k].skip(1)[i] != '$' by {
            assert(t[k].skip(1)[i] == t[k][i + 1]);
        }
    }
    assert forall|j: int, k: int| 0 <= j < k < 6 implies clash_free(t[j], t[k]) by {
        if t[j][1] != t[k][1] {
            assert(t[j][1] != t[k][1]);
        } else {
            assert(t[j][2] != t[k][2]);
        }
    }
}

proof fn lemma_step(s: Seq<char>, n: int, v: Seq<char>)
    requires
        0 <= n < 6,
        no_dollar(v),
        dollars_start_tokens(s, elf_tokens().skip(n)),
    ensures
        dollars_start_tokens(replace_spec(s, elf_tokens()[n], v), elf_tokens().skip(n + 1)),
{
    lemma_token_facts();
    let ts = elf_tokens().skip(n);
    assert forall|k: int| 0 <= k < ts.len() implies token_shape(#[trigger] ts[k]) by {
        assert(ts[k] == elf_tokens()[k + n]);
    }
    assert forall|k: int| 1 <= k < ts.len() implies clash_free(ts[0], #[trigger] ts[k]) by {
        assert(ts[k] == elf_tokens()[k + n]);
        assert(ts[0] == elf_tokens()[n]);
    }
    lemma_replace_token(s, ts, v);
    assert(ts.skip(1) =~= elf_tokens().skip(n + 1));
}

/// Token closure: when every `$` of an rpath string begins one of `$ORIGIN`,
/// `${ORIGIN}`, `$LIB`, `${LIB}`, `$PLATFORM` and `${PLATFORM}`, and the
/// values put in their place hold no `$`, the expansion holds no `$` at all,
/// so no token is left.
pub proof fn lemma_token_closure(s: Seq<char>, origin: Seq<char>, lib: Seq<char>, plat: Seq<char>)
    requires
        dollars_start_tokens(s, elf_tokens()),
        no_dollar(origin),
        no_dollar(lib),
        no_dollar(plat),
    ensures
        no_dollar(expand_spec(s, origin, Some(lib), plat)),
{
    reveal_strlit("$ORIGIN");
    reveal_strlit("${ORIGIN}");
    reveal_strlit("$LIB");
    reveal_strlit("${LIB}");
    reveal_strlit("$PLATFORM");
    reveal_strlit("${PLATFORM}");
    assert(elf_tokens().skip(0) =~= elf_tokens());
    let a = replace_spec(s, elf_tokens()[0], origin);
    lemma_step(s, 0, origin);
    let b = replace_spec(a, elf_tokens()[1], origin);
    lemma_step(a, 1, origin);
    let c = replace_spec(b, elf_tokens()[2], lib);
    lemma_step(b, 2, lib);
    let d = replace_spec(c, elf_tokens()[3], lib);
    lemma_step(c, 3, lib);
    let e = replace_spec(d, elf_tokens()[4], plat);
    lemma_step(d, 4, plat);
    let f = replace_spec(e, elf_tokens()[5], plat);
    lemma_step(e, 5, plat);
    assert(elf_tokens().skip(6).len() == 0);
    assert(f == expand_spec(s, origin, Some(lib), plat));
}

} // verus!
