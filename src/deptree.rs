//! The dependency tree: an arena of resolved dependencies with parent and
//! children indices, and lookup by name.
use vstd::prelude::*;
use crate::pathutils::{get_name, is_absolute, is_absolute_spec, name_spec};

verus! {

/// The rule under which a dependency was located.
#[derive(PartialEq, Eq, Structural, Clone, Copy, Debug)]
pub enum DepMode {
    /// A preloaded library.
    Preload,
    /// The NEEDED entry is an absolute path.
    Direct,
    /// DT_RPATH (or a Mach-O LC_RPATH).
    DtRpath,
    /// LD_LIBRARY_PATH or DYLD_LIBRARY_PATH.
    LdLibraryPath,
    /// DT_RUNPATH.
    DtRunpath,
    /// The platform's loader cache.
    LdCache,
    /// A default system directory.
    SystemDirs,
    /// The root binary.
    Executable,
    NotFound,
}

/// A resolved dependency. `found` marks a back-reference to a dependency that
/// the tree already holds.
#[derive(Debug)]
pub struct DepNode {
    pub path: Option<String>,
    pub name: String,
    pub mode: DepMode,
    pub found: bool,
}

pub struct DepNodeView {
    pub path: Option<Seq<char>>,
    pub name: Seq<char>,
    pub mode: DepMode,
    pub found: bool,
}

pub open spec fn opt_view(o: Option<String>) -> Option<Seq<char>> {
    match o {
        Some(s) => Some(s@),
        None => None,
    }
}

impl View for DepNode {
    type V = DepNodeView;

    open spec fn view(&self) -> DepNodeView {
        DepNodeView { path: opt_view(self.path), name: self.name@, mode: self.mode, found: self.found }
    }
}

pub fn copy_opt(o: &Option<String>) -> (r: Option<String>)
    ensures
        opt_view(r) == opt_view(*o),
{
    match o {
        Some(s) => Some(s.clone()),
        None => None,
    }
}

pub fn str_eq(a: &str, b: &str) -> (r: bool)
    ensures
        r == (a@ == b@),
{
    let x = String::from_str(a);
    let y = String::from_str(b);
    x == y
}

/// Does a node answer to the name `other`? Preloads and library-path hits
/// answer to the final component of `other`; otherwise a relative `other`
/// (or a node without a directory) is compared with the name, and an absolute
/// one with the node's full path.
pub open spec fn eqstr_spec(n: DepNodeView, other: Seq<char>) -> bool {
    if n.mode == DepMode::Preload || n.mode == DepMode::LdLibraryPath {
        name_spec(other) == n.name
    } else if n.path is None || !is_absolute_spec(other) {
        other == n.name
    } else {
        other == n.path->0 + seq!['/'] + n.name
    }
}

pub trait EqualString {
    spec fn eqstr_spec(&self, other: Seq<char>) -> bool;

    fn eqstr(&self, other: &str) -> (r: bool)
        ensures
            r == self.eqstr_spec(other@);
}

impl EqualString for DepNode {
    open spec fn eqstr_spec(&self, other: Seq<char>) -> bool {
        eqstr_spec(self@, other)
    }

    fn eqstr(&self, other: &str) -> (r: bool) {
        if self.mode == DepMode::Preload || self.mode == DepMode::LdLibraryPath {
            let n = get_name(other);
            let r = str_eq(n.as_str(), self.name.as_str());
            assert(r == eqstr_spec(self@, other@));
            r
        } else if self.path.is_none() || !is_absolute(other) {
            str_eq(other, self.name.as_str())
        } else {
            let mut full = match &self.path {
                Some(p) => p.clone(),
                None => String::new(),
            };
            full.append("/");
            full.append(self.name.as_str());
            proof {
                reveal_strlit("/");
                assert(full@ == self.path->0@ + seq!['/'] + self.name@);
            }
            str_eq(other, full.as_str())
        }
    }
}

impl DepNode {
    pub fn copy(&self) -> (r: DepNode)
        ensures
            r@ == self@,
    {
        DepNode { path: copy_opt(&self.path), name: self.name.clone(), mode: self.mode, found: self.found }
    }
}

/// A node of the arena.
#[derive(Debug)]
pub struct Node {
    pub val: DepNode,
    pub parent: Option<usize>,
    pub children: Vec<usize>,
}

impl Node {
    pub fn new(val: DepNode) -> (r: Node)
        ensures
            r.val == val,
            r.parent is None,
            r.children@ == Seq::<usize>::empty(),
    {
        Node { val, parent: None, children: Vec::new() }
    }
}

/// Index of the first node from `i` on named `nm`, or -1.
pub open spec fn first_named(t: Seq<Node>, nm: Seq<char>, i: int) -> int
    decreases t.len() - i,
{
    if i < 0 || i >= t.len() {
        -1
    } else if t[i].val.name@ == nm {
        i
    } else {
        first_named(t, nm, i + 1)
    }
}

pub proof fn lemma_first_named(t: Seq<Node>, nm: Seq<char>, i: int)
    requires
        0 <= i,
    ensures
        first_named(t, nm, i) == -1 <==> forall|j: int| i <= j < t.len() ==> t[j].val.name@ != nm,
        first_named(t, nm, i) >= 0 ==> i <= first_named(t, nm, i) < t.len()
            && t[first_named(t, nm, i)].val.name@ == nm,
    decreases t.len() - i,
{
    if i < t.len() {
        lemma_first_named(t, nm, i + 1);
    }
}

/// No two nodes that are not back-references share a name.
pub open spec fn unique_live(t: Seq<Node>) -> bool {
    forall|i: int, j: int|
        0 <= i < t.len() && 0 <= j < t.len() && i != j && t[i].val.name@ == t[j].val.name@
            ==> t[i].val.found || t[j].val.found
}

/// The arena: nodes addressed by index, the root at index 0.
#[derive(Debug)]
pub struct ArenaTree {
    pub arena: Vec<Node>,
}

pub type DepTree = ArenaTree;

impl ArenaTree {
    /// A node's parent comes before it (a root has none); children lists name
    /// exactly the nodes whose parent it is, in order of insertion.
    pub open spec fn wf(&self) -> bool {
        &&& forall|i: int|
            0 <= i < self.arena@.len() ==> ((#[trigger] self.arena@[i]).parent matches Some(p) ==> p < i)
        &&& forall|i: int, k: int|
            0 <= i < self.arena@.len() && 0 <= k < self.arena@[i].children@.len() ==> {
                let c = #[trigger] self.arena@[i].children@[k];
                i < c < self.arena@.len() && self.arena@[c as int].parent == Some(i as usize)
            }
    }

    pub open spec fn names(&self) -> Seq<DepNodeView> {
        self.arena@.map_values(|n: Node| n.val@)
    }

    pub fn new() -> (r: ArenaTree)
        ensures
            r.arena@.len() == 0,
            r.wf(),
    {
        ArenaTree { arena: Vec::new() }
    }

    /// Add a node without a parent (the root, at index 0 of a new tree).
    pub fn addroot(&mut self, val: DepNode) -> (r: usize)
        requires
            old(self).wf(),
        ensures
            r == old(self).arena@.len(),
            final(self).arena@ == old(self).arena@.push(Node { val, parent: None, children: final(self).arena@[r as int].children }),
            final(self).arena@[r as int].children@.len() == 0,
            final(self).wf(),
    {
        let idx = self.arena.len();
        self.arena.push(Node::new(val));
        proof {
            let a = self.arena@;
            let o = old(self).arena@;
            assert forall|i: int, k: int|
                0 <= i < a.len() && 0 <= k < a[i].children@.len() implies {
                    let c = #[trigger] a[i].children@[k];
                    i < c < a.len() && a[c as int].parent == Some(i as usize)
                } by {
                assert(i < o.len());
                assert(a[i] == o[i]);
            }
            assert forall|i: int| 0 <= i < a.len() implies ((#[trigger] a[i]).parent matches Some(p) ==> p < i) by {
                if i < o.len() {
                    assert(a[i] == o[i]);
                }
            }
        }
        idx
    }

    /// The first node named `nm`, as a copy (the name-indexed lookup).
    pub fn find_name(&self, nm: &str) -> (r: Option<DepNode>)
        ensures
            match r {
                Some(n) => first_named(self.arena@, nm@, 0) >= 0 && n@ == self.arena@[first_named(self.arena@, nm@, 0)].val@,
                None => first_named(self.arena@, nm@, 0) == -1,
            },
    {
        let mut i: usize = 0;
        while i < self.arena.len()
            invariant
                i <= self.arena@.len(),
                first_named(self.arena@, nm@, 0) == first_named(self.arena@, nm@, i as int),
            decreases self.arena@.len() - i,
        {
            if str_eq(self.arena[i].val.name.as_str(), nm) {
                return Some(self.arena[i].val.copy());
            }
            i = i + 1;
        }
        None
    }

    /// Add `val` as the last child of `parent`.
    pub fn addnode(&mut self, val: DepNode, parent: usize) -> (r: usize)
        requires
            parent < old(self).arena@.len(),
            old(self).wf(),
        ensures
            r == old(self).arena@.len(),
            final(self).arena@.len() == old(self).arena@.len() + 1,
            final(self).arena@[r as int].val == val,
            final(self).arena@[r as int].parent == Some(parent),
            final(self).arena@[r as int].children@.len() == 0,
            final(self).arena@[parent as int].val == old(self).arena@[parent as int].val,
            final(self).arena@[parent as int].parent == old(self).arena@[parent as int].parent,
            final(self).arena@[parent as int].children@ == old(self).arena@[parent as int].children@.push(r),
            forall|i: int| 0 <= i < old(self).arena@.len() && i != parent ==> final(self).arena@[i] == old(self).arena@[i],
            final(self).wf(),
    {
        let idx = self.arena.len();
        let mut node = Node::new(val);
        node.parent = Some(parent);
        self.arena.push(node);
        self.arena[parent].children.push(idx);
        proof {
            let a = self.arena@;
            let o = old(self).arena@;
            assert forall|i: int, k: int|
                0 <= i < a.len() && 0 <= k < a[i].children@.len() implies {
                    let c = #[trigger] a[i].children@[k];
                    i < c < a.len() && a[c as int].parent == Some(i as usize)
                } by {
                if i != parent as int {
                    if i < o.len() {
                        assert(a[i] == o[i]);
                    }
                } else if k < o[i].children@.len() {
                    assert(a[i].children@[k] == o[i].children@[k]);
                }
            }
            assert forall|i: int| 0 <= i < a.len() implies ((#[trigger] a[i]).parent matches Some(p) ==> p < i) by {
                if i < o.len() && i != parent as int {
                    assert(a[i] == o[i]);
                }
            }
        }
        idx
    }

    /// The first node that answers to `val`, as a copy.
    pub fn get(&self, val: &str) -> (r: Option<DepNode>)
        ensures
            r is None <==> forall|i: int| 0 <= i < self.arena@.len() ==> !eqstr_spec(self.arena@[i].val@, val@),
            r matches Some(n) ==> exists|i: int|
                0 <= i < self.arena@.len() && eqstr_spec(self.arena@[i].val@, val@) && n@ == self.arena@[i].val@
                    && forall|j: int| 0 <= j < i ==> !eqstr_spec(self.arena@[j].val@, val@),
    {
        let mut i: usize = 0;
        while i < self.arena.len()
            invariant
                i <= self.arena@.len(),
                forall|j: int| 0 <= j < i ==> !eqstr_spec(self.arena@[j].val@, val@),
            decreases self.arena@.len() - i,
        {
            if self.arena[i].val.eqstr(val) {
                return Some(self.arena[i].val.copy());
            }
            i = i + 1;
        }
        None
    }

    /// Does any node answer to `val`?
    pub fn contains(&self, val: &str) -> (r: bool)
        ensures
            r == exists|i: int| 0 <= i < self.arena@.len() && eqstr_spec(self.arena@[i].val@, val@),
    {
        let mut i: usize = 0;
        while i < self.arena.len()
            invariant
                i <= self.arena@.len(),
                forall|j: int| 0 <= j < i ==> !eqstr_spec(self.arena@[j].val@, val@),
            decreases self.arena@.len() - i,
        {
            if self.arena[i].val.eqstr(val) {
                return true;
            }
            i = i + 1;
        }
        false
    }
}

} // verus!
