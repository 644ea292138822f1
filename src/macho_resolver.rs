//! The macOS resolver: `@executable_path`, `@loader_path` and `@rpath`
//! expansion, then DYLD_LIBRARY_PATH, the dyld shared cache and the
//! filesystem, as a step machine like the ELF one.
use vstd::prelude::*;
use crate::deptree::{ArenaTree, DepMode, DepNode, DepTree, Node, first_named, opt_view, str_eq};
use crate::pathutils::{
    get_name, get_path, is_absolute, is_absolute_spec, join, join_spec, name_spec, parent_spec,
};
use crate::search_path::{SearchPath, SearchPathVec};
use crate::system_dirs::dirs_view;
use crate::text::{contains_str, has_str, replace, replace_spec, views};

verus! {

/// A Mach-O binary as the resolver sees it: where it was read from (its
/// canonical path), its rpaths (already expanded and probed) and its
/// dependencies.
#[derive(Debug)]
pub struct MachOInfo {
    pub path: String,
    pub rpath: SearchPathVec,
    pub deps: Vec<String>,
}

#[derive(Debug)]
pub struct MachOConfig {
    pub library_path: SearchPathVec,
    pub preload: SearchPathVec,
    /// The image paths of the dyld shared cache.
    pub cache_images: Vec<String>,
    pub executable_path: String,
    pub all: bool,
}

#[derive(Debug)]
pub enum MachOAction {
    /// Read the Mach-O file at this path and `feed` what it holds.
    Open(String),
    /// Read this image of the shared cache and `feed` what it holds.
    OpenCached(String),
    Continue,
    Done,
}

#[derive(Debug, Clone, Copy, PartialEq, Eq, Structural)]
pub enum Stage {
    /// Trying the library-path directory with this index.
    Override(usize),
    Cache,
    Filesystem,
}

#[derive(Debug)]
pub struct MFrame {
    pub node: usize,
    pub loader_path: String,
    pub rpath: SearchPathVec,
    pub deps: Vec<String>,
    pub next: usize,
    pub preload: bool,
}

#[derive(Debug)]
pub struct MLookup {
    /// The dependency after `@executable_path` and `@loader_path`.
    pub dep: String,
    /// The paths to try: the `@rpath` substitutions in order, or the
    /// dependency alone.
    pub paths: Vec<String>,
    pub by_rpath: bool,
    pub at: usize,
    pub stage: Stage,
    pub preload: bool,
}

pub struct MachOResolver {
    pub tree: DepTree,
    pub cfg: MachOConfig,
    pub stack: Vec<MFrame>,
    pub pending: Option<MLookup>,
}

/// `@executable_path` and `@loader_path` substituted.
pub open spec fn expand_spec(d: Seq<char>, exe: Seq<char>, loader: Seq<char>) -> Seq<char> {
    replace_spec(replace_spec(d, "@executable_path"@, exe), "@loader_path"@, loader)
}

/// The paths an `@rpath` dependency stands for, one per rpath, in order.
pub open spec fn rpath_paths_spec(d: Seq<char>, rpaths: Seq<Seq<char>>) -> Seq<Seq<char>> {
    rpaths.map_values(|r: Seq<char>| replace_spec(d, "@rpath"@, r))
}

pub fn expand(d: &str, exe: &str, loader: &str) -> (r: String)
    ensures
        r@ == expand_spec(d@, exe@, loader@),
{
    proof {
        reveal_strlit("@executable_path");
        reveal_strlit("@loader_path");
    }
    let a = replace(d, "@executable_path", exe);
    replace(a.as_str(), "@loader_path", loader)
}

pub fn rpath_paths(d: &str, rpaths: &SearchPathVec) -> (r: Vec<String>)
    ensures
        views(r@) == rpath_paths_spec(d@, crate::system_dirs::dirs_view(rpaths@)),
{
    proof {
        reveal_strlit("@rpath");
    }
    let ghost dv = crate::system_dirs::dirs_view(rpaths@);
    let mut r: Vec<String> = Vec::new();
    let mut i: usize = 0;
    assert(views(r@) =~= rpath_paths_spec(d@, dv.take(0)));
    while i < rpaths.len()
        invariant
            i <= rpaths@.len(),
            dv == crate::system_dirs::dirs_view(rpaths@),
            views(r@) == rpath_paths_spec(d@, dv.take(i as int)),
        decreases rpaths@.len() - i,
    {
        proof {
            reveal_strlit("@rpath");
        }
        let ghost before = views(r@);
        let x = replace(d, "@rpath", rpaths[i].path.as_str());
        r.push(x);
        assert(views(r@) =~= before.push(x@));
        assert(dv[i as int] == rpaths@[i as int].path@);
        assert(dv.take(i + 1) =~= dv.take(i as int).push(dv[i as int]));
        assert(views(r@) =~= rpath_paths_spec(d@, dv.take(i + 1)));
        i = i + 1;
    }
    assert(dv.take(i as int) =~= dv);
    r
}

fn copy_paths(v: &SearchPathVec) -> (r: SearchPathVec)
    ensures
        crate::system_dirs::dirs_view(r@) == crate::system_dirs::dirs_view(v@),
{
    crate::resolver::copy_paths(v)
}

/// Where the search for the dependency's current path leads next.
pub enum MOutcome {
    /// Open this file (a library-path candidate or the path itself), at
    /// this stage of path `at`.
    Open(Seq<char>, int, Stage),
    /// Read this image of the shared cache.
    Cached(Seq<char>, int),
    /// The tree already holds a node of this name: the node's index.
    BackRef(int),
    /// Nothing is left: the dependency is not found.
    Miss,
}

pub open spec fn in_cache(cfg: MachOConfig, p: Seq<char>) -> bool {
    views(cfg.cache_images@).contains(p)
}

/// The filesystem stage: an absolute path is opened as it is.
pub open spec fn after_cache(cfg: MachOConfig, t: Seq<Node>, paths: Seq<Seq<char>>, by_rpath: bool, at: int) -> MOutcome
    decreases paths.len() - at, 1int,
{
    if is_absolute_spec(paths[at]) {
        MOutcome::Open(paths[at], at, Stage::Filesystem)
    } else {
        fail_spec(cfg, t, paths, by_rpath, at)
    }
}

/// The shared-cache stage.
pub open spec fn at_cache(cfg: MachOConfig, t: Seq<Node>, paths: Seq<Seq<char>>, by_rpath: bool, at: int) -> MOutcome
    decreases paths.len() - at, 2int,
{
    if in_cache(cfg, paths[at]) {
        MOutcome::Cached(paths[at], at)
    } else {
        after_cache(cfg, t, paths, by_rpath, at)
    }
}

/// Path `at` gave nothing: the next `@rpath` substitution, or a miss.
pub open spec fn fail_spec(cfg: MachOConfig, t: Seq<Node>, paths: Seq<Seq<char>>, by_rpath: bool, at: int) -> MOutcome
    decreases paths.len() - at, 0int,
{
    if by_rpath && 0 <= at && at + 1 < paths.len() {
        begin(cfg, t, paths, by_rpath, at + 1)
    } else {
        MOutcome::Miss
    }
}

/// The search for path `at`: a name the tree holds is a back-reference; else
/// the library path, the shared cache and the filesystem, in that order.
pub open spec fn begin(cfg: MachOConfig, t: Seq<Node>, paths: Seq<Seq<char>>, by_rpath: bool, at: int) -> MOutcome
    decreases paths.len() - at, 3int,
{
    if at < 0 || at >= paths.len() {
        MOutcome::Miss
    } else if first_named(t, name_spec(paths[at]), 0) >= 0 {
        MOutcome::BackRef(first_named(t, name_spec(paths[at]), 0))
    } else if cfg.library_path@.len() > 0 {
        MOutcome::Open(join_spec(dirs_view(cfg.library_path@)[0], name_spec(paths[at])), at, Stage::Override(0))
    } else {
        at_cache(cfg, t, paths, by_rpath, at)
    }
}

/// Where the search goes when the file of `stage` could not be read.
pub open spec fn after_miss(cfg: MachOConfig, t: Seq<Node>, paths: Seq<Seq<char>>, by_rpath: bool, at: int, stage: Stage) -> MOutcome {
    match stage {
        Stage::Override(k) => if k + 1 < cfg.library_path@.len() {
            MOutcome::Open(join_spec(dirs_view(cfg.library_path@)[k + 1], name_spec(paths[at])), at, Stage::Override((k + 1) as usize))
        } else {
            at_cache(cfg, t, paths, by_rpath, at)
        },
        Stage::Cache => after_cache(cfg, t, paths, by_rpath, at),
        Stage::Filesystem => fail_spec(cfg, t, paths, by_rpath, at),
    }
}

/// The lookup `m` searches for `dep` through `paths`.
pub open spec fn look_is(m: MLookup, dep: Seq<char>, paths: Seq<Seq<char>>, by_rpath: bool, preload: bool) -> bool {
    m.dep@ == dep && views(m.paths@) == paths && m.by_rpath == by_rpath && m.preload == preload
}

/// What an outcome does to the machine: the action returned, the lookup left
/// pending, and the node added under `top` (a back-reference when `all` is
/// set, or a miss for `dep`).
pub open spec fn effect(
    t: Seq<Node>,
    top: usize,
    dep: Seq<char>,
    paths: Seq<Seq<char>>,
    by_rpath: bool,
    preload: bool,
    all: bool,
    out: MOutcome,
    act: MachOAction,
    fin: MachOResolver,
) -> bool {
    let n = fin.tree.arena@.last();
    match out {
        MOutcome::Open(x, at, st) => {
            &&& act matches MachOAction::Open(p) && p@ == x
            &&& fin.tree.arena@ == t
            &&& fin.pending matches Some(m) && look_is(m, dep, paths, by_rpath, preload) && m.at == at && m.stage == st
        },
        MOutcome::Cached(x, at) => {
            &&& act matches MachOAction::OpenCached(p) && p@ == x
            &&& fin.tree.arena@ == t
            &&& fin.pending matches Some(m) && look_is(m, dep, paths, by_rpath, preload) && m.at == at && m.stage == Stage::Cache
        },
        MOutcome::BackRef(k) => {
            &&& act is Continue
            &&& fin.pending is None
            &&& all ==> {
                &&& fin.tree.arena@.len() == t.len() + 1
                &&& n.val.found
                &&& n.val.name@ == t[k].val.name@
                &&& n.val.mode == t[k].val.mode
                &&& opt_view(n.val.path) == opt_view(t[k].val.path)
                &&& n.parent == Some(top)
                &&& n.children@.len() == 0
            }
            &&& !all ==> fin.tree.arena@ == t
        },
        MOutcome::Miss => {
            &&& act is Continue
            &&& fin.pending is None
            &&& fin.tree.arena@.len() == t.len() + 1
            &&& n.val.mode == DepMode::NotFound
            &&& !n.val.found
            &&& n.val.name@ == name_spec(dep)
            &&& opt_view(n.val.path) == parent_spec(dep)
            &&& n.parent == Some(top)
            &&& n.children@.len() == 0
        },
    }
}

/// The directory a child's `@loader_path` stands for.
pub open spec fn loader_of(stage: Stage, p: Seq<char>, file: Seq<char>) -> Seq<char> {
    let d = if stage == Stage::Filesystem { parent_spec(file) } else { parent_spec(p) };
    match d {
        Some(x) => x,
        None => Seq::empty(),
    }
}

pub open spec fn dep_of(cfg: MachOConfig, f: MFrame) -> Seq<char> {
    expand_spec(f.deps@[f.next as int]@, cfg.executable_path@, f.loader_path@)
}

pub open spec fn paths_of(d: Seq<char>, f: MFrame) -> Seq<Seq<char>> {
    if has_str(d, "@rpath"@) {
        rpath_paths_spec(d, dirs_view(f.rpath@))
    } else {
        seq![d]
    }
}

impl MachOResolver {
    pub open spec fn wf(&self) -> bool {
        &&& self.tree.wf()
        &&& self.tree.arena@.len() > 0
        &&& forall|i: int| 0 <= i < self.stack@.len() ==> (#[trigger] self.stack@[i]).node < self.tree.arena@.len()
        &&& forall|i: int| 0 <= i < self.stack@.len() ==> (#[trigger] self.stack@[i]).next <= self.stack@[i].deps@.len()
        &&& self.pending matches Some(l) ==> {
            &&& self.stack@.len() > 0
            &&& l.at < l.paths@.len()
            &&& (l.stage matches Stage::Override(k) ==> k < self.cfg.library_path@.len())
        }
    }

    proof fn lemma_nodes(&self, m: int)
        requires
            m <= self.tree.arena@.len(),
            forall|i: int| 0 <= i < self.stack@.len() ==> (#[trigger] self.stack@[i]).node < m,
        ensures
            forall|i: int| 0 <= i < self.stack@.len() ==> (#[trigger] self.stack@[i]).node < self.tree.arena@.len(),
    {
    }

    /// Start with the executable `root`: preloads first, then its
    /// dependencies.
    pub fn new(root: MachOInfo, cfg: MachOConfig) -> (r: MachOResolver)
        ensures
            r.wf(),
            r.pending is None,
            r.cfg == cfg,
            r.tree.arena@.len() == 1,
            r.tree.arena@[0].val.mode == DepMode::Executable,
            opt_view(r.tree.arena@[0].val.path) == Some(cfg.executable_path@),
            r.tree.arena@[0].val.name@ == name_spec(root.path@),
            !r.tree.arena@[0].val.found,
            r.stack@.len() == 2,
            // the preloads, on top, are walked first
            r.stack@[1].preload && r.stack@[1].node == 0 && r.stack@[1].next == 0,
            views(r.stack@[1].deps@) == cfg.preload@.map_values(|e: SearchPath| e.path@),
            r.stack@[1].loader_path@ == cfg.executable_path@,
            !r.stack@[0].preload && r.stack@[0].node == 0 && r.stack@[0].next == 0,
            views(r.stack@[0].deps@) == views(root.deps@),
            dirs_view(r.stack@[0].rpath@) == dirs_view(root.rpath@),
            r.stack@[0].loader_path@ == cfg.executable_path@,
    {
        let mut tree = ArenaTree::new();
        let rootn = tree.addroot(DepNode {
            path: Some(cfg.executable_path.clone()),
            name: get_name(root.path.as_str()),
            mode: DepMode::Executable,
            found: false,
        });
        let mut preloads: Vec<String> = Vec::new();
        let mut k: usize = 0;
        assert(views(preloads@) =~= cfg.preload@.take(0).map_values(|e: SearchPath| e.path@));
        while k < cfg.preload.len()
            invariant
                k <= cfg.preload@.len(),
                views(preloads@) == cfg.preload@.take(k as int).map_values(|e: SearchPath| e.path@),
            decreases cfg.preload@.len() - k,
        {
            let ghost before = views(preloads@);
            let x = cfg.preload[k].path.clone();
            preloads.push(x);
            assert(views(preloads@) =~= before.push(cfg.preload@[k as int].path@));
            assert(cfg.preload@.take(k + 1) =~= cfg.preload@.take(k as int).push(cfg.preload@[k as int]));
            assert(views(preloads@) =~= cfg.preload@.take(k + 1).map_values(|e: SearchPath| e.path@));
            k = k + 1;
        }
        assert(cfg.preload@.take(k as int) =~= cfg.preload@);
        let mut stack: Vec<MFrame> = Vec::new();
        let rp = copy_paths(&root.rpath);
        let deps = crate::resolver::copy_strings(&root.deps);
        stack.push(MFrame { node: rootn, loader_path: cfg.executable_path.clone(), rpath: rp, deps, next: 0, preload: false });
        stack.push(MFrame { node: rootn, loader_path: cfg.executable_path.clone(), rpath: copy_paths(&root.rpath), deps: preloads, next: 0, preload: true });
        MachOResolver { tree, cfg, stack, pending: None }
    }

    /// Take the next dependency of the binary on top of the walk, and start
    /// its search.
    #[verifier::rlimit(40)]
    pub fn step(&mut self) -> (act: MachOAction)
        requires
            old(self).wf(),
            old(self).pending is None,
        ensures
            final(self).wf(),
            final(self).cfg == old(self).cfg,
            forall|i: int| 0 <= i < old(self).tree.arena@.len() ==> final(self).tree.arena@[i].val == old(self).tree.arena@[i].val,
            final(self).tree.arena@.len() >= old(self).tree.arena@.len(),
            act is Done <==> old(self).stack@.len() == 0,
            act is Done ==> final(self).stack@.len() == 0,
            old(self).stack@.len() > 0 && old(self).stack@.last().next >= old(self).stack@.last().deps@.len() ==>
                act is Continue && final(self).stack@ == old(self).stack@.drop_last() && final(self).tree == old(self).tree
                && final(self).pending is None,
            old(self).stack@.len() > 0 && old(self).stack@.last().next < old(self).stack@.last().deps@.len() ==> ({
                let f = old(self).stack@.last();
                let d = dep_of(old(self).cfg, f);
                let paths = paths_of(d, f);
                let by = has_str(d, "@rpath"@);
                &&& final(self).stack@.len() == old(self).stack@.len()
                &&& final(self).stack@.drop_last() == old(self).stack@.drop_last()
                &&& final(self).stack@.last().next == f.next + 1
                &&& final(self).stack@.last().node == f.node
                &&& final(self).stack@.last().deps == f.deps
                &&& final(self).stack@.last().rpath == f.rpath
                &&& final(self).stack@.last().loader_path == f.loader_path
                &&& final(self).stack@.last().preload == f.preload
                &&& if paths.len() == 0 {
                    // an @rpath dependency of a binary without rpaths: not
                    // found, and nothing opened
                    effect(old(self).tree.arena@, f.node, d, paths, by, f.preload, old(self).cfg.all, MOutcome::Miss, act, *final(self))
                } else {
                    effect(old(self).tree.arena@, f.node, d, paths, by, f.preload, old(self).cfg.all,
                        begin(old(self).cfg, old(self).tree.arena@, paths, by, 0), act, *final(self))
                }
            }),
    {
        let n = self.stack.len();
        if n == 0 {
            return MachOAction::Done;
        }
        let top = n - 1;
        if self.stack[top].next >= self.stack[top].deps.len() {
            self.stack.pop();
            assert forall|i: int| 0 <= i < self.stack@.len() implies (#[trigger] self.stack@[i]).node < self.tree.arena@.len() by {
                assert(self.stack@[i] == old(self).stack@[i]);
            }
            assert forall|i: int| 0 <= i < self.stack@.len() implies (#[trigger] self.stack@[i]).next <= self.stack@[i].deps@.len() by {
                assert(self.stack@[i] == old(self).stack@[i]);
            }
            return MachOAction::Continue;
        }
        let j = self.stack[top].next;
        let dep = expand(self.stack[top].deps[j].as_str(), self.cfg.executable_path.as_str(), self.stack[top].loader_path.as_str());
        self.stack[top].next = j + 1;
        assert forall|i: int| 0 <= i < self.stack@.len() implies (#[trigger] self.stack@[i]).node < self.tree.arena@.len() by {
            if i != top as int {
                assert(self.stack@[i] == old(self).stack@[i]);
            }
        }
        assert forall|i: int| 0 <= i < self.stack@.len() implies (#[trigger] self.stack@[i]).next <= self.stack@[i].deps@.len() by {
            if i != top as int {
                assert(self.stack@[i] == old(self).stack@[i]);
            }
        }
        assert(self.stack@.drop_last() =~= old(self).stack@.drop_last());
        let parent = self.stack[top].node;
        let preload = self.stack[top].preload;
        proof {
            reveal_strlit("@rpath");
        }
        let by_rpath = contains_str(dep.as_str(), "@rpath");
        let paths = if by_rpath {
            rpath_paths(dep.as_str(), &self.stack[top].rpath)
        } else {
            let mut v: Vec<String> = Vec::new();
            v.push(dep.clone());
            assert(views(v@) =~= seq![dep@]);
            v
        };
        if paths.len() == 0 {
            self.tree.addnode(DepNode { path: get_path(dep.as_str()), name: get_name(dep.as_str()), mode: DepMode::NotFound, found: false }, parent);
            proof { self.lemma_nodes(old(self).tree.arena@.len() as int); }
            return MachOAction::Continue;
        }
        self.pending = Some(MLookup { dep, paths, by_rpath, at: 0, stage: Stage::Cache, preload });
        self.begin_path()
    }

    /// The lookup now pending, in spec terms.
    pub open spec fn cur(&self) -> MLookup {
        self.pending->0
    }

    /// Begin the search for the current path of the pending lookup.
    fn begin_path(&mut self) -> (act: MachOAction)
        requires
            old(self).wf(),
            old(self).pending is Some,
        ensures
            final(self).wf(),
            final(self).cfg == old(self).cfg,
            final(self).stack == old(self).stack,
            forall|i: int| 0 <= i < old(self).tree.arena@.len() ==> final(self).tree.arena@[i].val == old(self).tree.arena@[i].val,
            final(self).tree.arena@.len() >= old(self).tree.arena@.len(),
            ({
                let l = old(self).cur();
                effect(old(self).tree.arena@, old(self).stack@.last().node, l.dep@, views(l.paths@), l.by_rpath, l.preload,
                    old(self).cfg.all, begin(old(self).cfg, old(self).tree.arena@, views(l.paths@), l.by_rpath, l.at as int),
                    act, *final(self))
            }),
        decreases old(self).cur().paths@.len() - old(self).cur().at, 3int,
    {
        let mut lk = self.pending.take().unwrap();
        let ghost pv = views(lk.paths@);
        let p = lk.paths[lk.at].clone();
        assert(p@ == pv[lk.at as int]);
        let name = get_name(p.as_str());
        proof {
            crate::deptree::lemma_first_named(self.tree.arena@, name@, 0);
        }
        match self.tree.find_name(name.as_str()) {
            Some(entry) => {
                if self.cfg.all {
                    let top = self.stack.len() - 1;
                    let parent = self.stack[top].node;
                    self.tree.addnode(DepNode { path: entry.path, name: entry.name, mode: entry.mode, found: true }, parent);
                    proof { self.lemma_nodes(old(self).tree.arena@.len() as int); }
                }
                return MachOAction::Continue;
            },
            None => {},
        }
        if self.cfg.library_path.len() > 0 {
            let file = join(self.cfg.library_path[0].path.as_str(), name.as_str());
            assert(dirs_view(self.cfg.library_path@)[0] == self.cfg.library_path@[0].path@);
            lk.stage = Stage::Override(0);
            self.pending = Some(lk);
            return MachOAction::Open(file);
        }
        self.pending = Some(lk);
        self.try_cache()
    }

    /// The shared-cache stage for the current path.
    fn try_cache(&mut self) -> (act: MachOAction)
        requires
            old(self).wf(),
            old(self).pending is Some,
        ensures
            final(self).wf(),
            final(self).cfg == old(self).cfg,
            final(self).stack == old(self).stack,
            forall|i: int| 0 <= i < old(self).tree.arena@.len() ==> final(self).tree.arena@[i].val == old(self).tree.arena@[i].val,
            final(self).tree.arena@.len() >= old(self).tree.arena@.len(),
            ({
                let l = old(self).cur();
                effect(old(self).tree.arena@, old(self).stack@.last().node, l.dep@, views(l.paths@), l.by_rpath, l.preload,
                    old(self).cfg.all, at_cache(old(self).cfg, old(self).tree.arena@, views(l.paths@), l.by_rpath, l.at as int),
                    act, *final(self))
            }),
        decreases old(self).cur().paths@.len() - old(self).cur().at, 2int,
    {
        let mut lk = self.pending.take().unwrap();
        let p = lk.paths[lk.at].clone();
        assert(p@ == views(lk.paths@)[lk.at as int]);
        let mut k: usize = 0;
        let mut cached = false;
        while k < self.cfg.cache_images.len()
            invariant
                k <= self.cfg.cache_images@.len(),
                cached == exists|i: int| 0 <= i < k && self.cfg.cache_images@[i]@ == p@,
            decreases self.cfg.cache_images@.len() - k,
        {
            if str_eq(self.cfg.cache_images[k].as_str(), p.as_str()) {
                cached = true;
            }
            k = k + 1;
        }
        proof {
            if cached {
                let i = choose|i: int| 0 <= i < k && self.cfg.cache_images@[i]@ == p@;
                assert(views(self.cfg.cache_images@)[i] == p@);
            } else {
                assert(!views(self.cfg.cache_images@).contains(p@)) by {
                    if views(self.cfg.cache_images@).contains(p@) {
                        let i = choose|i: int| 0 <= i < views(self.cfg.cache_images@).len() && views(self.cfg.cache_images@)[i] == p@;
                        assert(self.cfg.cache_images@[i]@ == p@);
                    }
                }
            }
        }
        if cached {
            lk.stage = Stage::Cache;
            self.pending = Some(lk);
            return MachOAction::OpenCached(p);
        }
        self.pending = Some(lk);
        self.try_filesystem()
    }

    /// The filesystem stage for the current path.
    fn try_filesystem(&mut self) -> (act: MachOAction)
        requires
            old(self).wf(),
            old(self).pending is Some,
        ensures
            final(self).wf(),
            final(self).cfg == old(self).cfg,
            final(self).stack == old(self).stack,
            forall|i: int| 0 <= i < old(self).tree.arena@.len() ==> final(self).tree.arena@[i].val == old(self).tree.arena@[i].val,
            final(self).tree.arena@.len() >= old(self).tree.arena@.len(),
            ({
                let l = old(self).cur();
                effect(old(self).tree.arena@, old(self).stack@.last().node, l.dep@, views(l.paths@), l.by_rpath, l.preload,
                    old(self).cfg.all, after_cache(old(self).cfg, old(self).tree.arena@, views(l.paths@), l.by_rpath, l.at as int),
                    act, *final(self))
            }),
        decreases old(self).cur().paths@.len() - old(self).cur().at, 1int,
    {
        let mut lk = self.pending.take().unwrap();
        let p = lk.paths[lk.at].clone();
        assert(p@ == views(lk.paths@)[lk.at as int]);
        if is_absolute(p.as_str()) {
            lk.stage = Stage::Filesystem;
            self.pending = Some(lk);
            return MachOAction::Open(p);
        }
        self.pending = Some(lk);
        self.fail_path()
    }

    /// The current path gave nothing: the next `@rpath` substitution, or a
    /// miss once they are all spent.
    fn fail_path(&mut self) -> (act: MachOAction)
        requires
            old(self).wf(),
            old(self).pending is Some,
        ensures
            final(self).wf(),
            final(self).cfg == old(self).cfg,
            final(self).stack == old(self).stack,
            forall|i: int| 0 <= i < old(self).tree.arena@.len() ==> final(self).tree.arena@[i].val == old(self).tree.arena@[i].val,
            final(self).tree.arena@.len() >= old(self).tree.arena@.len(),
            ({
                let l = old(self).cur();
                effect(old(self).tree.arena@, old(self).stack@.last().node, l.dep@, views(l.paths@), l.by_rpath, l.preload,
                    old(self).cfg.all, fail_spec(old(self).cfg, old(self).tree.arena@, views(l.paths@), l.by_rpath, l.at as int),
                    act, *final(self))
            }),
        decreases old(self).cur().paths@.len() - old(self).cur().at, 0int,
    {
        let mut lk = self.pending.take().unwrap();
        let top = self.stack.len() - 1;
        let parent = self.stack[top].node;
        let cl = lk.paths.len();
        if lk.by_rpath && lk.at + 1 < cl {
            lk.at = lk.at + 1;
            self.pending = Some(lk);
            return self.begin_path();
        }
        self.tree.addnode(DepNode { path: get_path(lk.dep.as_str()), name: get_name(lk.dep.as_str()), mode: DepMode::NotFound, found: false }, parent);
        proof { self.lemma_nodes(old(self).tree.arena@.len() as int); }
        MachOAction::Continue
    }

    /// Hand back what the last `Open` or `OpenCached` read (`None`: nothing
    /// usable). A read file becomes a node and its own dependencies are walked
    /// next; otherwise the search moves to its next stage.
    #[verifier::rlimit(40)]
    pub fn feed(&mut self, opened: Option<MachOInfo>) -> (act: MachOAction)
        requires
            old(self).wf(),
            old(self).pending is Some,
        ensures
            final(self).wf(),
            final(self).cfg == old(self).cfg,
            forall|i: int| 0 <= i < old(self).tree.arena@.len() ==> final(self).tree.arena@[i].val == old(self).tree.arena@[i].val,
            final(self).tree.arena@.len() >= old(self).tree.arena@.len(),
            opened matches Some(info) ==> ({
                let l = old(self).cur();
                let p = views(l.paths@)[l.at as int];
                let n = final(self).tree.arena@.last();
                let fr = final(self).stack@.last();
                &&& act is Continue
                &&& final(self).pending is None
                &&& final(self).tree.arena@.len() == old(self).tree.arena@.len() + 1
                &&& n.parent == Some(old(self).stack@.last().node)
                &&& !n.val.found
                &&& n.children@.len() == 0
                &&& match l.stage {
                    Stage::Override(k) => n.val.mode == DepMode::LdLibraryPath
                        && opt_view(n.val.path) == Some(dirs_view(old(self).cfg.library_path@)[k as int])
                        && n.val.name@ == name_spec(p),
                    Stage::Cache => n.val.mode == DepMode::LdCache && opt_view(n.val.path) == parent_spec(p)
                        && n.val.name@ == name_spec(p),
                    Stage::Filesystem => n.val.mode == (if l.preload { DepMode::Preload } else { DepMode::Direct })
                        && opt_view(n.val.path) == parent_spec(info.path@) && n.val.name@ == name_spec(info.path@),
                }
                // its dependencies are walked next
                &&& final(self).stack@.drop_last() == old(self).stack@
                &&& fr.node == old(self).tree.arena@.len()
                &&& fr.next == 0
                &&& fr.preload == l.preload
                &&& views(fr.deps@) == views(info.deps@)
                &&& dirs_view(fr.rpath@) == dirs_view(info.rpath@)
                &&& fr.loader_path@ == loader_of(l.stage, p, info.path@)
            }),
            opened is None ==> final(self).stack == old(self).stack && ({
                let l = old(self).cur();
                effect(old(self).tree.arena@, old(self).stack@.last().node, l.dep@, views(l.paths@), l.by_rpath, l.preload,
                    old(self).cfg.all,
                    after_miss(old(self).cfg, old(self).tree.arena@, views(l.paths@), l.by_rpath, l.at as int, l.stage),
                    act, *final(self))
            }),
    {
        let mut lk = self.pending.take().unwrap();
        assert(lk == old(self).cur());
        let top = self.stack.len() - 1;
        let parent = self.stack[top].node;
        let p = lk.paths[lk.at].clone();
        assert(p@ == views(lk.paths@)[lk.at as int]);
        match opened {
            Some(info) => {
                let (node, loader) = match lk.stage {
                    Stage::Override(k) => {
                        assert(dirs_view(self.cfg.library_path@)[k as int] == self.cfg.library_path@[k as int].path@);
                        (DepNode { path: Some(self.cfg.library_path[k].path.clone()), name: get_name(p.as_str()), mode: DepMode::LdLibraryPath, found: false },
                            get_path(p.as_str()))
                    },
                    Stage::Cache => {
                        (DepNode { path: get_path(p.as_str()), name: get_name(p.as_str()), mode: DepMode::LdCache, found: false },
                            get_path(p.as_str()))
                    },
                    Stage::Filesystem => {
                        let mode = if lk.preload { DepMode::Preload } else { DepMode::Direct };
                        (DepNode { path: get_path(info.path.as_str()), name: get_name(info.path.as_str()), mode, found: false },
                            get_path(info.path.as_str()))
                    },
                };
                let c = self.tree.addnode(node, parent);
                let lp = match loader {
                    Some(l) => l,
                    None => String::new(),
                };
                let ghost old_stack = self.stack@;
                let deps = crate::resolver::copy_strings(&info.deps);
                self.stack.push(MFrame { node: c, loader_path: lp, rpath: info.rpath, deps, next: 0, preload: lk.preload });
                assert(self.stack@.drop_last() =~= old_stack);
                assert forall|i: int| 0 <= i < self.stack@.len() implies (#[trigger] self.stack@[i]).node < self.tree.arena@.len() by {
                    if i < old_stack.len() {
                        assert(self.stack@[i] == old_stack[i]);
                    }
                }
                assert forall|i: int| 0 <= i < self.stack@.len() implies (#[trigger] self.stack@[i]).next <= self.stack@[i].deps@.len() by {
                    if i < old_stack.len() {
                        assert(self.stack@[i] == old_stack[i]);
                    }
                }
                MachOAction::Continue
            },
            None => {
                match lk.stage {
                    Stage::Override(k) => {
                        let ll = self.cfg.library_path.len();
                        if k + 1 < ll {
                            let name = get_name(p.as_str());
                            let file = join(self.cfg.library_path[k + 1].path.as_str(), name.as_str());
                            assert(dirs_view(self.cfg.library_path@)[k + 1] == self.cfg.library_path@[k + 1].path@);
                            lk.stage = Stage::Override(k + 1);
                            self.pending = Some(lk);
                            return MachOAction::Open(file);
                        }
                        self.pending = Some(lk);
                        self.try_cache()
                    },
                    Stage::Cache => {
                        self.pending = Some(lk);
                        self.try_filesystem()
                    },
                    Stage::Filesystem => {
                        self.pending = Some(lk);
                        self.fail_path()
                    },
                }
            },
        }
    }
}

} // verus!
