//! The resolver: the loader's search order for one dependency, and a step
//! machine that walks the NEEDED graph and builds the dependency tree. The
//! caller performs each file open the machine asks for and hands back what it
//! read.
use vstd::prelude::*;
use crate::deptree::{
    ArenaTree, DepMode, DepNode, DepTree, Node, copy_opt, opt_view, str_eq, first_named, lemma_first_named,
    unique_live,
};
use crate::elf_info::{ElfInfo, compatible, compatible_spec};
use crate::pathutils::{
    get_name, get_path, is_absolute, is_absolute_spec, join, join_spec, name_spec, parent_spec,
};
use crate::search_path::{SearchPath, SearchPathVec};
use crate::text::views;
use crate::system_dirs::{Os, dirs_view};
use crate::ld_config_txt::NamespaceConfig;

verus! {

/// The platform's loader cache, as the resolver consults it.
#[derive(Debug)]
pub enum LoaderCache {
    /// No cache for this binary.
    Empty,
    /// glibc's `ld.so.cache`: SONAME to absolute path, keys unique.
    Sonames(Vec<(String, String)>),
    /// BSD hint files and NetBSD's `ld.so.conf`: directories to scan.
    Dirs(SearchPathVec),
    /// Android's linker namespaces; a binary starts in `default`.
    Namespaces(Vec<NamespaceConfig>),
}

/// Everything a resolution of one binary depends on besides the files.
#[derive(Debug)]
pub struct Config {
    pub os: Os,
    pub preload: SearchPathVec,
    pub library_path: SearchPathVec,
    pub cache: LoaderCache,
    pub system_dirs: SearchPathVec,
    pub all: bool,
}

/// A file to try for a dependency, the rule that names it, and the directory
/// that the tree records if it is accepted.
#[derive(Debug)]
pub struct Candidate {
    pub file: String,
    pub mode: DepMode,
    pub dir: Option<String>,
}

pub struct CandView {
    pub file: Seq<char>,
    pub mode: DepMode,
    pub dir: Option<Seq<char>>,
}

impl View for Candidate {
    type V = CandView;

    open spec fn view(&self) -> CandView {
        CandView { file: self.file@, mode: self.mode, dir: opt_view(self.dir) }
    }
}

pub open spec fn cands_view(v: Seq<Candidate>) -> Seq<CandView> {
    v.map_values(|c: Candidate| c@)
}

pub open spec fn dir_cands(dirs: Seq<Seq<char>>, d: Seq<char>, mode: DepMode) -> Seq<CandView> {
    dirs.map_values(|x: Seq<char>| CandView { file: join_spec(x, d), mode, dir: Some(x) })
}

pub open spec fn pairs_view(m: Seq<(String, String)>) -> Seq<(Seq<char>, Seq<char>)> {
    m.map_values(|p: (String, String)| (p.0@, p.1@))
}

/// The value of the first entry from `i` on whose key is `k`.
pub open spec fn lookup_from(m: Seq<(Seq<char>, Seq<char>)>, k: Seq<char>, i: int) -> Option<Seq<char>>
    decreases m.len() - i,
{
    if i < 0 || i >= m.len() {
        None
    } else if m[i].0 == k {
        Some(m[i].1)
    } else {
        lookup_from(m, k, i + 1)
    }
}

/// May `d` be loaded in namespace `n`?
pub open spec fn ns_accessible(n: NamespaceConfig, d: Seq<char>) -> bool {
    !n.isolated || n.allowed_libs@.len() == 0 || views(n.allowed_libs@).contains(d)
}

/// The first namespace from `i` on named `name`, or -1.
pub open spec fn ns_index(v: Seq<NamespaceConfig>, name: Seq<char>, i: int) -> int
    decreases v.len() - i,
{
    if i < 0 || i >= v.len() {
        -1
    } else if v[i].name@ == name {
        i
    } else {
        ns_index(v, name, i + 1)
    }
}

/// The directories of a namespace, when `d` may be loaded there.
pub open spec fn ns_cands(n: NamespaceConfig, d: Seq<char>) -> Seq<CandView> {
    if ns_accessible(n, d) {
        dir_cands(dirs_view(n.search_paths@), d, DepMode::LdCache)
    } else {
        Seq::empty()
    }
}

/// The directories of the namespaces linked from `n`, from link `j` on, for
/// the links that let `d` through.
pub open spec fn linked_cands(v: Seq<NamespaceConfig>, n: NamespaceConfig, d: Seq<char>, j: int) -> Seq<CandView>
    decreases n.namespaces@.len() - j,
{
    if j < 0 || j >= n.namespaces@.len() || j >= n.link_rules@.len() {
        Seq::empty()
    } else {
        let k = ns_index(v, n.namespaces@[j]@, 0);
        let r = n.link_rules@[j];
        let here = if k >= 0 && (r.allow_all || views(r.shared_libs@).contains(d)) {
            ns_cands(v[k], d)
        } else {
            Seq::empty()
        };
        here + linked_cands(v, n, d, j + 1)
    }
}

/// Android: the `default` namespace, then the namespaces it links to.
pub open spec fn android_cands(v: Seq<NamespaceConfig>, d: Seq<char>) -> Seq<CandView> {
    let k = ns_index(v, "default"@, 0);
    if k < 0 {
        Seq::empty()
    } else {
        ns_cands(v[k], d) + linked_cands(v, v[k], d, 0)
    }
}

pub open spec fn cache_cands(c: LoaderCache, d: Seq<char>) -> Seq<CandView> {
    match c {
        LoaderCache::Namespaces(v) => android_cands(v@, d),
        LoaderCache::Empty => Seq::empty(),
        LoaderCache::Sonames(m) => match lookup_from(pairs_view(m@), d, 0) {
            Some(p) => seq![CandView { file: p, mode: DepMode::LdCache, dir: parent_spec(p) }],
            None => Seq::empty(),
        },
        LoaderCache::Dirs(v) => dir_cands(dirs_view(v@), d, DepMode::LdCache),
    }
}

/// The search order for the NEEDED string `d` of `parent`, first to last: an
/// absolute path alone; else rpath (only when the parent has no runpath),
/// the library path, runpath, and, unless the parent sets nodeflibs, the
/// loader cache and the default directories.
pub open spec fn candidates_spec(d: Seq<char>, parent: ElfInfo, cfg: Config, preload: bool) -> Seq<CandView> {
    if is_absolute_spec(d) {
        seq![CandView {
            file: d,
            mode: if preload { DepMode::Preload } else { DepMode::Direct },
            dir: parent_spec(d),
        }]
    } else {
        let a = if parent.runpath@.len() == 0 {
            dir_cands(dirs_view(parent.rpath@), d, DepMode::DtRpath)
        } else {
            Seq::empty()
        };
        let b = dir_cands(dirs_view(cfg.library_path@), d, DepMode::LdLibraryPath);
        let c = dir_cands(dirs_view(parent.runpath@), d, DepMode::DtRunpath);
        if parent.nodeflibs {
            a + b + c
        } else {
            a + b + c + cache_cands(cfg.cache, d) + dir_cands(dirs_view(cfg.system_dirs@), d, DepMode::SystemDirs)
        }
    }
}

fn push_dirs(out: &mut Vec<Candidate>, dirs: &SearchPathVec, d: &str, mode: DepMode)
    ensures
        cands_view(final(out)@) == cands_view(old(out)@) + dir_cands(dirs_view(dirs@), d@, mode),
{
    let ghost start = cands_view(out@);
    let mut i: usize = 0;
    assert(dir_cands(dirs_view(dirs@).take(0), d@, mode) =~= Seq::<CandView>::empty());
    assert(cands_view(out@) =~= start + dir_cands(dirs_view(dirs@).take(0), d@, mode));
    while i < dirs.len()
        invariant
            i <= dirs@.len(),
            cands_view(out@) == start + dir_cands(dirs_view(dirs@).take(i as int), d@, mode),
        decreases dirs@.len() - i,
    {
        let ghost before = cands_view(out@);
        let dir = &dirs[i];
        let file = join(dir.path.as_str(), d);
        out.push(Candidate { file, mode, dir: Some(dir.path.clone()) });
        assert(dirs_view(dirs@).take(i + 1) =~= dirs_view(dirs@).take(i as int).push(dirs@[i as int].path@));
        assert(cands_view(out@) =~= before.push(CandView { file: join_spec(dirs@[i as int].path@, d@), mode, dir: Some(dirs@[i as int].path@) }));
        assert(cands_view(out@) =~= start + dir_cands(dirs_view(dirs@).take(i + 1), d@, mode));
        i = i + 1;
    }
    assert(dirs_view(dirs@).take(i as int) =~= dirs_view(dirs@));
}

fn lookup(m: &Vec<(String, String)>, k: &str) -> (r: Option<String>)
    ensures
        opt_view(r) == lookup_from(pairs_view(m@), k@, 0),
{
    let mut i: usize = 0;
    while i < m.len()
        invariant
            i <= m@.len(),
            lookup_from(pairs_view(m@), k@, 0) == lookup_from(pairs_view(m@), k@, i as int),
        decreases m@.len() - i,
    {
        if str_eq(m[i].0.as_str(), k) {
            return Some(m[i].1.clone());
        }
        i = i + 1;
    }
    None
}

fn find_ns(v: &Vec<NamespaceConfig>, name: &str) -> (r: Option<usize>)
    ensures
        match r {
            Some(k) => ns_index(v@, name@, 0) == k && k < v@.len(),
            None => ns_index(v@, name@, 0) == -1,
        },
{
    let mut i: usize = 0;
    while i < v.len()
        invariant
            i <= v@.len(),
            ns_index(v@, name@, 0) == ns_index(v@, name@, i as int),
        decreases v@.len() - i,
    {
        if str_eq(v[i].name.as_str(), name) {
            return Some(i);
        }
        i = i + 1;
    }
    None
}

fn push_ns(out: &mut Vec<Candidate>, n: &NamespaceConfig, d: &str)
    ensures
        cands_view(final(out)@) == cands_view(old(out)@) + ns_cands(*n, d@),
{
    if n.is_accessible(d) {
        push_dirs(out, &n.search_paths, d, DepMode::LdCache);
    } else {
        assert(cands_view(out@) =~= cands_view(old(out)@) + ns_cands(*n, d@));
    }
}

fn push_android(out: &mut Vec<Candidate>, v: &Vec<NamespaceConfig>, d: &str)
    ensures
        cands_view(final(out)@) == cands_view(old(out)@) + android_cands(v@, d@),
{
    proof {
        reveal_strlit("default");
    }
    let ghost start = cands_view(out@);
    match find_ns(v, "default") {
        None => {
            assert(cands_view(out@) =~= start + android_cands(v@, d@));
        },
        Some(k) => {
            let n = &v[k];
            push_ns(out, n, d);
            let mut j: usize = 0;
            assert(cands_view(out@) + linked_cands(v@, *n, d@, 0) =~= start + android_cands(v@, d@));
            while j < n.namespaces.len() && j < n.link_rules.len()
                invariant
                    j <= n.namespaces@.len(),
                    *n == v@[k as int],
                    cands_view(out@) + linked_cands(v@, *n, d@, j as int) == start + android_cands(v@, d@),
                decreases n.namespaces@.len() - j,
            {
                let ghost before = cands_view(out@);
                let ghost rest = linked_cands(v@, *n, d@, j + 1);
                match find_ns(v, n.namespaces[j].as_str()) {
                    Some(m) => {
                        if n.link_rules[j].allows(d) {
                            push_ns(out, &v[m], d);
                        }
                    },
                    None => {},
                }
                assert(before + (linked_cands(v@, *n, d@, j as int)) =~= cands_view(out@) + rest);
                j = j + 1;
            }
            assert(linked_cands(v@, *n, d@, j as int) == Seq::<CandView>::empty());
            assert(cands_view(out@) + Seq::<CandView>::empty() =~= cands_view(out@));
        },
    }
}

/// The candidates for `d` in search order (see `candidates_spec`).
pub fn candidates(d: &str, parent: &ElfInfo, cfg: &Config, preload: bool) -> (r: Vec<Candidate>)
    ensures
        cands_view(r@) == candidates_spec(d@, *parent, *cfg, preload),
{
    let mut out: Vec<Candidate> = Vec::new();
    assert(cands_view(out@) =~= Seq::<CandView>::empty());
    if is_absolute(d) {
        let mode = if preload { DepMode::Preload } else { DepMode::Direct };
        out.push(Candidate { file: String::from_str(d), mode, dir: get_path(d) });
        assert(cands_view(out@) =~= candidates_spec(d@, *parent, *cfg, preload));
        return out;
    }
    if parent.runpath.len() == 0 {
        push_dirs(&mut out, &parent.rpath, d, DepMode::DtRpath);
    }
    let ghost a = cands_view(out@);
    push_dirs(&mut out, &cfg.library_path, d, DepMode::LdLibraryPath);
    push_dirs(&mut out, &parent.runpath, d, DepMode::DtRunpath);
    if parent.nodeflibs {
        assert(cands_view(out@) =~= candidates_spec(d@, *parent, *cfg, preload));
        return out;
    }
    let ghost abc = cands_view(out@);
    match &cfg.cache {
        LoaderCache::Empty => {},
        LoaderCache::Sonames(m) => {
            match lookup(m, d) {
                Some(p) => {
                    let dir = get_path(p.as_str());
                    out.push(Candidate { file: p, mode: DepMode::LdCache, dir });
                },
                None => {},
            }
        },
        LoaderCache::Dirs(v) => {
            push_dirs(&mut out, v, d, DepMode::LdCache);
        },
        LoaderCache::Namespaces(v) => {
            push_android(&mut out, v, d);
        },
    }
    assert(cands_view(out@) =~= abc + cache_cands(cfg.cache, d@));
    push_dirs(&mut out, &cfg.system_dirs, d, DepMode::SystemDirs);
    assert(cands_view(out@) =~= candidates_spec(d@, *parent, *cfg, preload));
    out
}


/// What the machine asks of its caller.
#[derive(Debug)]
pub enum Action {
    /// Open and read this file, then call `feed` with what was read.
    Open(String),
    /// Call `step` again.
    Continue,
    /// The tree is complete.
    Done,
}

/// A binary whose NEEDED entries are being resolved: its node in the tree, the
/// entries, and how far the walk has come.
#[derive(Debug)]
pub struct Frame {
    pub info: ElfInfo,
    pub node: usize,
    pub deps: Vec<String>,
    pub next: usize,
    pub preload: bool,
}

/// The search for one dependency: its candidates and the one being tried.
#[derive(Debug)]
pub struct Lookup {
    pub needed: String,
    pub preload: bool,
    pub cands: Vec<Candidate>,
    pub next: usize,
}

pub struct Resolver {
    pub tree: DepTree,
    pub cfg: Config,
    pub stack: Vec<Frame>,
    pub pending: Option<Lookup>,
}

pub fn copy_paths(v: &SearchPathVec) -> (r: SearchPathVec)
    ensures
        r@.len() == v@.len(),
        forall|i: int| 0 <= i < v@.len() ==> r@[i].path@ == v@[i].path@ && r@[i].dev == v@[i].dev && r@[i].ino == v@[i].ino,
        dirs_view(r@) == dirs_view(v@),
{
    let mut r: SearchPathVec = Vec::new();
    let mut i: usize = 0;
    while i < v.len()
        invariant
            i <= v@.len(),
            r@.len() == i,
            forall|k: int| 0 <= k < i ==> r@[k].path@ == v@[k].path@ && r@[k].dev == v@[k].dev && r@[k].ino == v@[k].ino,
        decreases v@.len() - i,
    {
        r.push(v[i].copy());
        i = i + 1;
    }
    assert(dirs_view(r@) =~= dirs_view(v@));
    r
}

pub fn copy_strings(v: &Vec<String>) -> (r: Vec<String>)
    ensures
        views(r@) == views(v@),
{
    let mut r: Vec<String> = Vec::new();
    let mut i: usize = 0;
    while i < v.len()
        invariant
            i <= v@.len(),
            r@.len() == i,
            forall|k: int| 0 <= k < i ==> r@[k]@ == v@[k]@,
        decreases v@.len() - i,
    {
        r.push(v[i].clone());
        i = i + 1;
    }
    assert(views(r@) =~= views(v@));
    r
}

/// The same binary, with the dependency list moved out.
pub open spec fn same_info(a: ElfInfo, b: ElfInfo) -> bool {
    &&& a.ei_class == b.ei_class
    &&& a.ei_data == b.ei_data
    &&& a.ei_osabi == b.ei_osabi
    &&& a.e_machine == b.e_machine
    &&& a.e_flags == b.e_flags
    &&& opt_view(a.interp) == opt_view(b.interp)
    &&& opt_view(a.soname) == opt_view(b.soname)
    &&& dirs_view(a.rpath@) == dirs_view(b.rpath@)
    &&& dirs_view(a.runpath@) == dirs_view(b.runpath@)
    &&& a.rpath@.len() == b.rpath@.len()
    &&& a.runpath@.len() == b.runpath@.len()
    &&& a.nodeflibs == b.nodeflibs
    &&& a.is_musl == b.is_musl
}

fn copy_info(e: &ElfInfo) -> (r: ElfInfo)
    ensures
        same_info(r, *e),
        r.deps@.len() == 0,
{
    ElfInfo {
        ei_class: e.ei_class,
        ei_data: e.ei_data,
        ei_osabi: e.ei_osabi,
        e_machine: e.e_machine,
        e_flags: e.e_flags,
        interp: copy_opt(&e.interp),
        soname: copy_opt(&e.soname),
        rpath: copy_paths(&e.rpath),
        runpath: copy_paths(&e.runpath),
        nodeflibs: e.nodeflibs,
        is_musl: e.is_musl,
        deps: Vec::new(),
    }
}

proof fn lemma_dir_cand_modes(dirs: Seq<Seq<char>>, d: Seq<char>, m: DepMode)
    ensures
        forall|i: int| 0 <= i < dir_cands(dirs, d, m).len() ==> (#[trigger] dir_cands(dirs, d, m)[i]).mode == m,
{
}

proof fn lemma_linked_modes(v: Seq<NamespaceConfig>, n: NamespaceConfig, d: Seq<char>, j: int)
    ensures
        forall|i: int| 0 <= i < linked_cands(v, n, d, j).len() ==> (#[trigger] linked_cands(v, n, d, j)[i]).mode == DepMode::LdCache,
    decreases n.namespaces@.len() - j,
{
    if !(j < 0 || j >= n.namespaces@.len() || j >= n.link_rules@.len()) {
        lemma_linked_modes(v, n, d, j + 1);
        let k = ns_index(v, n.namespaces@[j]@, 0);
        if k >= 0 {
            lemma_dir_cand_modes(dirs_view(v[k].search_paths@), d, DepMode::LdCache);
        }
    }
}

/// Every loader-cache candidate carries the cache's mode.
proof fn lemma_cache_modes(c: LoaderCache, d: Seq<char>)
    ensures
        forall|i: int| 0 <= i < cache_cands(c, d).len() ==> (#[trigger] cache_cands(c, d)[i]).mode == DepMode::LdCache,
{
    match c {
        LoaderCache::Dirs(v) => lemma_dir_cand_modes(dirs_view(v@), d, DepMode::LdCache),
        LoaderCache::Namespaces(v) => {
            let k = ns_index(v@, "default"@, 0);
            if k >= 0 {
                lemma_dir_cand_modes(dirs_view(v@[k].search_paths@), d, DepMode::LdCache);
                lemma_linked_modes(v@, v@[k], d, 0);
            }
        },
        _ => {},
    }
}

/// No candidate carries the mode of a miss.
pub proof fn lemma_cand_modes(d: Seq<char>, parent: ElfInfo, cfg: Config, preload: bool)
    ensures
        forall|i: int| 0 <= i < candidates_spec(d, parent, cfg, preload).len()
            ==> (#[trigger] candidates_spec(d, parent, cfg, preload)[i]).mode != DepMode::NotFound,
{
    lemma_dir_cand_modes(dirs_view(parent.rpath@), d, DepMode::DtRpath);
    lemma_dir_cand_modes(dirs_view(cfg.library_path@), d, DepMode::LdLibraryPath);
    lemma_dir_cand_modes(dirs_view(parent.runpath@), d, DepMode::DtRunpath);
    lemma_dir_cand_modes(dirs_view(cfg.system_dirs@), d, DepMode::SystemDirs);
    lemma_cache_modes(cfg.cache, d);
}

/// For a NEEDED string that is not a path, every rpath candidate comes before
/// every library-path candidate, which come before every runpath, cache and
/// default-directory candidate: the library path is reached only once each
/// rpath directory has been tried.
pub proof fn lemma_search_order(d: Seq<char>, parent: ElfInfo, cfg: Config, preload: bool, i: int, j: int)
    requires
        !is_absolute_spec(d),
        0 <= i < candidates_spec(d, parent, cfg, preload).len(),
        0 <= j < candidates_spec(d, parent, cfg, preload).len(),
        candidates_spec(d, parent, cfg, preload)[j].mode == DepMode::DtRpath,
        candidates_spec(d, parent, cfg, preload)[i].mode != DepMode::DtRpath,
    ensures
        j < i,
        parent.runpath@.len() == 0,
{
    let a = if parent.runpath@.len() == 0 {
        dir_cands(dirs_view(parent.rpath@), d, DepMode::DtRpath)
    } else {
        Seq::empty()
    };
    let b = dir_cands(dirs_view(cfg.library_path@), d, DepMode::LdLibraryPath);
    let c = dir_cands(dirs_view(parent.runpath@), d, DepMode::DtRunpath);
    let e = cache_cands(cfg.cache, d);
    let f = dir_cands(dirs_view(cfg.system_dirs@), d, DepMode::SystemDirs);
    lemma_dir_cand_modes(dirs_view(parent.rpath@), d, DepMode::DtRpath);
    lemma_dir_cand_modes(dirs_view(cfg.library_path@), d, DepMode::LdLibraryPath);
    lemma_dir_cand_modes(dirs_view(parent.runpath@), d, DepMode::DtRunpath);
    lemma_dir_cand_modes(dirs_view(cfg.system_dirs@), d, DepMode::SystemDirs);
    lemma_cache_modes(cfg.cache, d);
    let all = candidates_spec(d, parent, cfg, preload);
    if parent.nodeflibs {
        assert(all == a + b + c);
    } else {
        assert(all == a + b + c + e + f);
    }
    assert(forall|k: int| 0 <= k < e.len() ==> e[k].mode == DepMode::LdCache);
    if j >= a.len() {
        assert(all[j].mode != DepMode::DtRpath);
    }
    if i < a.len() {
        assert(all[i] == a[i]);
    }
}

/// A parent that sets nodeflibs gets no loader-cache and no default-directory
/// candidate; a parent that does not gets the default directories last, for
/// any NEEDED string that is not a path. Only the immediate parent's flag is
/// consulted.
pub proof fn lemma_nodeflibs_scope(d: Seq<char>, parent: ElfInfo, cfg: Config, preload: bool)
    ensures
        parent.nodeflibs ==> forall|i: int| 0 <= i < candidates_spec(d, parent, cfg, preload).len() ==> {
            let m = (#[trigger] candidates_spec(d, parent, cfg, preload)[i]).mode;
            m != DepMode::SystemDirs && m != DepMode::LdCache
        },
        !parent.nodeflibs && !is_absolute_spec(d) ==> {
            let all = candidates_spec(d, parent, cfg, preload);
            let sys = dir_cands(dirs_view(cfg.system_dirs@), d, DepMode::SystemDirs);
            all.len() >= sys.len() && all.skip(all.len() - sys.len()) == sys
        },
{
    lemma_dir_cand_modes(dirs_view(parent.rpath@), d, DepMode::DtRpath);
    lemma_dir_cand_modes(dirs_view(cfg.library_path@), d, DepMode::LdLibraryPath);
    lemma_dir_cand_modes(dirs_view(parent.runpath@), d, DepMode::DtRunpath);
    let all = candidates_spec(d, parent, cfg, preload);
    if !is_absolute_spec(d) {
        let a = if parent.runpath@.len() == 0 {
            dir_cands(dirs_view(parent.rpath@), d, DepMode::DtRpath)
        } else {
            Seq::empty()
        };
        let b = dir_cands(dirs_view(cfg.library_path@), d, DepMode::LdLibraryPath);
        let c = dir_cands(dirs_view(parent.runpath@), d, DepMode::DtRunpath);
        let e = cache_cands(cfg.cache, d);
        let f = dir_cands(dirs_view(cfg.system_dirs@), d, DepMode::SystemDirs);
        if !parent.nodeflibs {
            assert(all == (a + b + c + e) + f);
            assert(all.skip(all.len() - f.len()) =~= f);
        }
    }
}

/// Appending a back-reference, or a node whose name no node bears, keeps the
/// names of the entries that are not back-references unique.
proof fn lemma_append_keeps_unique(o: Seq<Node>, a: Seq<Node>)
    requires
        a.len() == o.len() + 1,
        forall|i: int| 0 <= i < o.len() ==> a[i].val == o[i].val,
    ensures
        unique_live(o) && (a.last().val.found || forall|i: int| 0 <= i < o.len() ==> o[i].val.name@ != a.last().val.name@)
            ==> unique_live(a),
{
    if unique_live(o) && (a.last().val.found || forall|i: int| 0 <= i < o.len() ==> o[i].val.name@ != a.last().val.name@) {
        assert forall|i: int, j: int|
            0 <= i < a.len() && 0 <= j < a.len() && i != j && a[i].val.name@ == a[j].val.name@
                implies a[i].val.found || a[j].val.found by {
            if i < o.len() && j < o.len() {
                assert(o[i].val.name@ == o[j].val.name@);
            }
        }
    }
}

/// The node that records `d` as not found.
fn not_found_node(d: &str) -> (r: DepNode)
    ensures
        opt_view(r.path) == parent_spec(d@),
        r.name@ == name_spec(d@),
        r.mode == DepMode::NotFound,
        !r.found,
{
    DepNode { path: get_path(d), name: get_name(d), mode: DepMode::NotFound, found: false }
}

impl Resolver {
    pub open spec fn wf(&self) -> bool {
        &&& self.tree.wf()
        &&& self.tree.arena@.len() > 0
        &&& forall|i: int| 0 <= i < self.stack@.len() ==> (#[trigger] self.stack@[i]).node < self.tree.arena@.len()
        &&& forall|i: int| 0 <= i < self.stack@.len() ==> (#[trigger] self.stack@[i]).next <= self.stack@[i].deps@.len()
        &&& self.pending matches Some(l) ==> {
            &&& self.stack@.len() > 0
            &&& l.next < l.cands@.len()
            &&& forall|i: int| 0 <= i < l.cands@.len() ==> (#[trigger] l.cands@[i]).mode != DepMode::NotFound
            &&& cands_view(l.cands@) == candidates_spec(l.needed@, self.stack@.last().info, self.cfg, l.preload)
            &&& self.stack@.last().info.nodeflibs || self.fresh(l.needed@)
        }
    }

    /// No node of the tree bears the name of the dependency `d`.
    pub open spec fn fresh(&self, d: Seq<char>) -> bool {
        first_named(self.tree.arena@, name_spec(d), 0) == -1
    }

    /// Start the resolution of the binary at `path`: the root node, the musl
    /// loader's synthetic node, and the preloads ahead of the NEEDED entries.
    #[verifier::rlimit(30)]
    pub fn new(root: ElfInfo, path: &str, cfg: Config) -> (r: Resolver)
        ensures
            r.wf(),
            r.pending is None,
            r.tree.arena@[0].val.mode == DepMode::Executable,
            opt_view(r.tree.arena@[0].val.path) == parent_spec(path@),
            r.tree.arena@[0].val.name@ == name_spec(path@),
            root.is_musl && root.interp is Some ==> r.tree.arena@.len() == 2
                && r.tree.arena@[1].val.mode == DepMode::SystemDirs
                && r.tree.arena@[1].val.found
                && r.tree.arena@[1].val.name@ == name_spec(root.interp->0@)
                && opt_view(r.tree.arena@[1].val.path) == parent_spec(root.interp->0@)
                && r.tree.arena@[1].parent == Some(0usize),
            !(root.is_musl && root.interp is Some) ==> r.tree.arena@.len() == 1,
            unique_live(r.tree.arena@),
            // the preloads are walked first, then the binary's own entries
            r.stack@.len() == 2,
            r.stack@[1].preload && r.stack@[1].node == 0 && r.stack@[1].next == 0,
            views(r.stack@[1].deps@) == r.cfg.preload@.map_values(|e: SearchPath| e.path@),
            !r.stack@[0].preload && r.stack@[0].node == 0 && r.stack@[0].next == 0,
            views(r.stack@[0].deps@) == views(root.deps@),
            r.cfg == cfg,
    {
        let mut tree = ArenaTree::new();
        let rootn = tree.addroot(DepNode { path: get_path(path), name: get_name(path), mode: DepMode::Executable, found: false });
        if root.is_musl {
            match &root.interp {
                Some(i) => {
                    tree.addnode(DepNode { path: get_path(i.as_str()), name: get_name(i.as_str()), mode: DepMode::SystemDirs, found: true }, rootn);
                },
                None => {},
            }
        }
        let mut preloads: Vec<String> = Vec::new();
        let mut k: usize = 0;
        assert(views(preloads@) =~= cfg.preload@.take(0).map_values(|e: SearchPath| e.path@));
        while k < cfg.preload.len()
            invariant
                k <= cfg.preload@.len(),
                views(preloads@) == cfg.preload@.take(k as int).map_values(|e: SearchPath| e.path@),
            decreases cfg.preload@.len() - k,
        {
            let ghost before = views(preloads@);
            let x = cfg.preload[k].path.clone();
            preloads.push(x);
            assert(views(preloads@) =~= before.push(cfg.preload@[k as int].path@));
            assert(cfg.preload@.take(k + 1) =~= cfg.preload@.take(k as int).push(cfg.preload@[k as int]));
            assert(views(preloads@) =~= cfg.preload@.take(k + 1).map_values(|e: SearchPath| e.path@));
            k = k + 1;
        }
        assert(cfg.preload@.take(k as int) =~= cfg.preload@);
        let pinfo = copy_info(&root);
        let needed = copy_strings(&root.deps);
        let mut stack: Vec<Frame> = Vec::new();
        stack.push(Frame { info: root, node: 0, deps: needed, next: 0, preload: false });
        stack.push(Frame { info: pinfo, node: 0, deps: preloads, next: 0, preload: true });
        Resolver { tree, cfg, stack, pending: None }
    }

    /// Take the next NEEDED entry of the binary on top of the walk: skip it,
    /// record it (as a back-reference or as not found), or start its search.
    #[verifier::rlimit(30)]
    pub fn step(&mut self) -> (act: Action)
        requires
            old(self).wf(),
            old(self).pending is None,
        ensures
            final(self).wf(),
            act is Open <==> final(self).pending is Some,
            act is Done ==> final(self).stack@.len() == 0,
            final(self).cfg == old(self).cfg,
            final(self).tree.arena@.len() >= old(self).tree.arena@.len(),
            final(self).tree.arena@.len() <= old(self).tree.arena@.len() + 1,
            forall|i: int| 0 <= i < old(self).tree.arena@.len() ==> final(self).tree.arena@[i].val == old(self).tree.arena@[i].val,
            act is Done <==> old(self).stack@.len() == 0,
            // a binary whose entries are all walked leaves the walk
            old(self).stack@.len() > 0 && old(self).stack@.last().next >= old(self).stack@.last().deps@.len() ==>
                act is Continue && final(self).stack@ == old(self).stack@.drop_last() && final(self).tree == old(self).tree,
            // otherwise its next entry is taken
            old(self).stack@.len() > 0 && old(self).stack@.last().next < old(self).stack@.last().deps@.len() ==>
                final(self).stack@.len() == old(self).stack@.len()
                && final(self).stack@.drop_last() == old(self).stack@.drop_last()
                && final(self).stack@.last().next == old(self).stack@.last().next + 1
                && final(self).stack@.last().node == old(self).stack@.last().node
                && final(self).stack@.last().info == old(self).stack@.last().info
                && final(self).stack@.last().deps == old(self).stack@.last().deps
                && final(self).stack@.last().preload == old(self).stack@.last().preload,
            // what is done with the entry taken
            old(self).stack@.len() > 0 && old(self).stack@.last().next < old(self).stack@.last().deps@.len() ==> ({
                let f = old(self).stack@.last();
                let d = f.deps@[f.next as int]@;
                let t = old(self).tree.arena@;
                let k = first_named(t, name_spec(d), 0);
                let cands = candidates_spec(d, f.info, old(self).cfg, f.preload);
                let n = final(self).tree.arena@.last();
                if f.info.is_musl && d == "libc.so"@ {
                    // musl's libc is its loader, already shown
                    act is Continue && final(self).tree == old(self).tree
                } else if !f.info.nodeflibs && k >= 0 {
                    // a name the tree holds: a back-reference, or nothing
                    &&& act is Continue
                    &&& old(self).cfg.all ==> {
                        &&& final(self).tree.arena@.len() == t.len() + 1
                        &&& n.val.found
                        &&& n.val.name@ == name_spec(d)
                        &&& n.val.mode == t[k].val.mode
                        &&& opt_view(n.val.path) == opt_view(t[k].val.path)
                        &&& n.parent == Some(f.node)
                        &&& n.children@.len() == 0
                    }
                    &&& !old(self).cfg.all ==> final(self).tree == old(self).tree
                } else if cands.len() == 0 {
                    // nowhere to look: not found
                    &&& act is Continue
                    &&& final(self).tree.arena@.len() == t.len() + 1
                    &&& n.val.mode == DepMode::NotFound
                    &&& !n.val.found
                    &&& n.val.name@ == name_spec(d)
                    &&& opt_view(n.val.path) == parent_spec(d)
                    &&& n.parent == Some(f.node)
                    &&& n.children@.len() == 0
                } else {
                    // the search starts with the first candidate
                    &&& act matches Action::Open(p) && p@ == cands[0].file
                    &&& final(self).pending matches Some(l) && l.next == 0 && l.needed@ == d
                        && l.preload == f.preload && cands_view(l.cands@) == cands
                    &&& final(self).tree == old(self).tree
                }
            }),
            act is Open ==> final(self).tree == old(self).tree,
            !(act is Open) ==> final(self).pending is None,
            // names stay unique among entries that are not back-references,
            // unless the binary sets nodeflibs
            unique_live(old(self).tree.arena@) && !(old(self).stack@.len() > 0 && old(self).stack@.last().info.nodeflibs)
                ==> unique_live(final(self).tree.arena@),
    {
        let n = self.stack.len();
        if n == 0 {
            return Action::Done;
        }
        let top = n - 1;
        if self.stack[top].next >= self.stack[top].deps.len() {
            self.stack.pop();
            assert forall|i: int| 0 <= i < self.stack@.len() implies (#[trigger] self.stack@[i]).node < self.tree.arena@.len() by {
                assert(self.stack@[i] == old(self).stack@[i]);
            }
            assert forall|i: int| 0 <= i < self.stack@.len() implies (#[trigger] self.stack@[i]).next <= self.stack@[i].deps@.len() by {
                assert(self.stack@[i] == old(self).stack@[i]);
            }
            return Action::Continue;
        }
        let j = self.stack[top].next;
        let d = self.stack[top].deps[j].clone();
        assert(d@ == old(self).stack@.last().deps@[old(self).stack@.last().next as int]@);
        self.stack[top].next = j + 1;
        assert(self.stack@.drop_last() =~= old(self).stack@.drop_last());
        assert forall|i: int| 0 <= i < self.stack@.len() implies (#[trigger] self.stack@[i]).node < self.tree.arena@.len() by {
            if i != top as int {
                assert(self.stack@[i] == old(self).stack@[i]);
            }
        }
        assert forall|i: int| 0 <= i < self.stack@.len() implies (#[trigger] self.stack@[i]).next <= self.stack@[i].deps@.len() by {
            if i != top as int {
                assert(self.stack@[i] == old(self).stack@[i]);
            }
        }
        let parent = self.stack[top].node;
        if self.stack[top].info.is_musl && str_eq(d.as_str(), "libc.so") {
            return Action::Continue;
        }
        let name = get_name(d.as_str());
        proof {
            lemma_first_named(old(self).tree.arena@, name@, 0);
        }
        if !self.stack[top].info.nodeflibs {
            match self.tree.find_name(name.as_str()) {
                Some(entry) => {
                    if self.cfg.all {
                        let node = DepNode { path: entry.path, name, mode: entry.mode, found: true };
                        self.tree.addnode(node, parent);
                        proof {
                            self.lemma_stack_nodes(old(self).tree.arena@.len() as int);
                            lemma_append_keeps_unique(old(self).tree.arena@, self.tree.arena@);
                        }
                    }
                    return Action::Continue;
                },
                None => {},
            }
        }
        let preload = self.stack[top].preload;
        let cands = candidates(d.as_str(), &self.stack[top].info, &self.cfg, preload);
        if cands.len() == 0 {
            self.tree.addnode(not_found_node(d.as_str()), parent);
            proof {
                self.lemma_stack_nodes(old(self).tree.arena@.len() as int);
                lemma_append_keeps_unique(old(self).tree.arena@, self.tree.arena@);
            }
            return Action::Continue;
        }
        let file = cands[0].file.clone();
        proof {
            lemma_cand_modes(d@, self.stack@[top as int].info, self.cfg, preload);
            assert forall|i: int| 0 <= i < cands@.len() implies (#[trigger] cands@[i]).mode != DepMode::NotFound by {
                assert(cands_view(cands@)[i].mode == cands@[i].mode);
            }
        }
        self.pending = Some(Lookup { needed: d, preload, cands, next: 0 });
        Action::Open(file)
    }

    proof fn lemma_stack_nodes(&self, m: int)
        requires
            m <= self.tree.arena@.len(),
            forall|i: int| 0 <= i < self.stack@.len() ==> (#[trigger] self.stack@[i]).node < m,
        ensures
            forall|i: int| 0 <= i < self.stack@.len() ==> (#[trigger] self.stack@[i]).node < self.tree.arena@.len(),
    {
    }

    /// Hand back what the last `Open` read (`None`: it could not be opened or
    /// read as a binary). An accepted candidate becomes a node and its own
    /// NEEDED entries are walked next; a rejected one moves the search to the
    /// next candidate, and when none is left the dependency is recorded as not
    /// found.
    #[verifier::rlimit(30)]
    pub fn feed(&mut self, opened: Option<ElfInfo>) -> (act: Action)
        requires
            old(self).wf(),
            old(self).pending is Some,
        ensures
            final(self).wf(),
            act is Open <==> final(self).pending is Some,
            final(self).cfg == old(self).cfg,
            forall|i: int| 0 <= i < old(self).tree.arena@.len() ==> final(self).tree.arena@[i].val == old(self).tree.arena@[i].val,
            final(self).tree.arena@.len() >= old(self).tree.arena@.len(),
            final(self).tree.arena@.len() <= old(self).tree.arena@.len() + 1,
            // a new node that is not a miss comes from an accepted candidate:
            // the one being tried, read, and compatible with its parent
            final(self).tree.arena@.len() > old(self).tree.arena@.len()
                && final(self).tree.arena@.last().val.mode != DepMode::NotFound ==> {
                let l = old(self).pending->0;
                &&& opened matches Some(c)
                &&& (l.preload || compatible_spec(old(self).cfg.os, old(self).stack@.last().info, c, l.needed@))
                &&& final(self).tree.arena@.last().val.mode == l.cands@[l.next as int].mode
                &&& !final(self).tree.arena@.last().val.found
            },
            ({
                let l = old(self).pending->0;
                opened matches Some(c) && (l.preload || compatible_spec(old(self).cfg.os, old(self).stack@.last().info, c, l.needed@))
            }) ==> {
                let l = old(self).pending->0;
                let n = final(self).tree.arena@.last();
                &&& act is Continue
                &&& final(self).pending is None
                &&& final(self).tree.arena@.len() == old(self).tree.arena@.len() + 1
                &&& final(self).stack@.len() == old(self).stack@.len() + 1
                &&& n.parent == Some(old(self).stack@.last().node)
                &&& n.val.name@ == name_spec(l.needed@)
                &&& opt_view(n.val.path) == (if l.cands@[l.next as int].mode == DepMode::Direct {
                    parent_spec(l.needed@)
                } else {
                    opt_view(l.cands@[l.next as int].dir)
                })
                &&& n.children@.len() == 0
                // the child's own entries are walked next; without an rpath of
                // its own it searches with its parent's
                &&& final(self).stack@.drop_last() == old(self).stack@
                &&& ({
                    let fr = final(self).stack@.last();
                    let c = opened->0;
                    &&& fr.node == old(self).tree.arena@.len()
                    &&& fr.next == 0
                    &&& fr.preload == l.preload
                    &&& views(fr.deps@) == views(c.deps@)
                    &&& dirs_view(fr.info.rpath@) == (if c.rpath@.len() == 0 {
                        dirs_view(old(self).stack@.last().info.rpath@)
                    } else {
                        dirs_view(c.rpath@)
                    })
                    &&& fr.info.runpath == c.runpath
                    &&& fr.info.nodeflibs == c.nodeflibs
                    &&& fr.info.is_musl == c.is_musl
                    &&& fr.info.soname == c.soname
                    &&& fr.info.interp == c.interp
                    &&& fr.info.ei_class == c.ei_class
                    &&& fr.info.ei_data == c.ei_data
                    &&& fr.info.ei_osabi == c.ei_osabi
                    &&& fr.info.e_machine == c.e_machine
                    &&& fr.info.e_flags == c.e_flags
                })
            },
            // a rejected candidate moves the search to the next one
            !({
                let l = old(self).pending->0;
                opened matches Some(c) && (l.preload || compatible_spec(old(self).cfg.os, old(self).stack@.last().info, c, l.needed@))
            }) && old(self).pending->0.next + 1 < old(self).pending->0.cands@.len() ==> {
                let l = old(self).pending->0;
                &&& act matches Action::Open(p) && p@ == l.cands@[l.next + 1].file@
                &&& final(self).pending matches Some(m) && m.next == l.next + 1 && m.needed@ == l.needed@
                    && m.preload == l.preload && cands_view(m.cands@) == cands_view(l.cands@)
                &&& final(self).tree == old(self).tree
                &&& final(self).stack@ == old(self).stack@
            },
            // and once none is left the dependency is recorded as not found
            !({
                let l = old(self).pending->0;
                opened matches Some(c) && (l.preload || compatible_spec(old(self).cfg.os, old(self).stack@.last().info, c, l.needed@))
            }) && old(self).pending->0.next + 1 >= old(self).pending->0.cands@.len() ==> {
                let l = old(self).pending->0;
                let n = final(self).tree.arena@.last();
                &&& act is Continue
                &&& final(self).pending is None
                &&& final(self).tree.arena@.len() == old(self).tree.arena@.len() + 1
                &&& n.val.mode == DepMode::NotFound
                &&& n.val.name@ == name_spec(l.needed@)
                &&& opt_view(n.val.path) == parent_spec(l.needed@)
                &&& n.parent == Some(old(self).stack@.last().node)
                &&& !n.val.found
                &&& n.children@.len() == 0
            },
            // names stay unique among entries that are not back-references,
            // unless the parent sets nodeflibs
            unique_live(old(self).tree.arena@) && !old(self).stack@.last().info.nodeflibs
                ==> unique_live(final(self).tree.arena@),
            // only a name the tree did not hold is expanded, unless the parent
            // sets nodeflibs
            final(self).tree.arena@.len() > old(self).tree.arena@.len() ==>
                old(self).stack@.last().info.nodeflibs || old(self).fresh(old(self).pending->0.needed@),
            // a miss is recorded only once every candidate has been tried
            final(self).tree.arena@.len() > old(self).tree.arena@.len()
                && final(self).tree.arena@.last().val.mode == DepMode::NotFound ==>
                old(self).pending->0.next + 1 == old(self).pending->0.cands@.len(),
    {
        let lk = self.pending.take().unwrap();
        assert(lk == old(self).pending->0);
        let top = self.stack.len() - 1;
        let parent = self.stack[top].node;
        let accept = match &opened {
            Some(c) => lk.preload || compatible(self.cfg.os, &self.stack[top].info, c, lk.needed.as_str()),
            None => false,
        };
        if accept {
            let mut child = opened.unwrap();
            let cand = &lk.cands[lk.next];
            let node = if cand.mode == DepMode::Direct {
                DepNode { path: get_path(lk.needed.as_str()), name: get_name(lk.needed.as_str()), mode: cand.mode, found: false }
            } else {
                DepNode { path: copy_opt(&cand.dir), name: get_name(lk.needed.as_str()), mode: cand.mode, found: false }
            };
            let c = self.tree.addnode(node, parent);
            proof {
                lemma_first_named(old(self).tree.arena@, name_spec(lk.needed@), 0);
                lemma_append_keeps_unique(old(self).tree.arena@, self.tree.arena@);
            }
            if child.rpath.len() == 0 {
                child.rpath = copy_paths(&self.stack[top].info.rpath);
            }
            let deps = copy_strings(&child.deps);
            let ghost old_stack = self.stack@;
            self.stack.push(Frame { info: child, node: c, deps, next: 0, preload: lk.preload });
            assert forall|i: int| 0 <= i < self.stack@.len() implies (#[trigger] self.stack@[i]).node < self.tree.arena@.len() by {
                if i < old_stack.len() {
                    assert(self.stack@[i] == old_stack[i]);
                }
            }
            assert forall|i: int| 0 <= i < self.stack@.len() implies (#[trigger] self.stack@[i]).next <= self.stack@[i].deps@.len() by {
                if i < old_stack.len() {
                    assert(self.stack@[i] == old_stack[i]);
                }
            }
            return Action::Continue;
        }
        let cl = lk.cands.len();
        let next = lk.next + 1;
        if next < cl {
            let file = lk.cands[next].file.clone();
            self.pending = Some(Lookup { needed: lk.needed, preload: lk.preload, cands: lk.cands, next });
            return Action::Open(file);
        }
        self.tree.addnode(not_found_node(lk.needed.as_str()), parent);
        proof {
            self.lemma_stack_nodes(old(self).tree.arena@.len() as int);
            lemma_first_named(old(self).tree.arena@, name_spec(lk.needed@), 0);
            lemma_append_keeps_unique(old(self).tree.arena@, self.tree.arena@);
        }
        Action::Continue
    }
}

} // verus!
