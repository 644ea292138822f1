//! Ordered sets of library directories, without two entries for one file.
use vstd::prelude::*;
use crate::text::{split, split_spec, views};

verus! {

/// A directory of a search list, with the device and inode that identify it.
/// Entries that stand for defaults carry `(0, 0)`.
#[derive(Debug)]
pub struct SearchPath {
    pub path: String,
    pub dev: u64,
    pub ino: u64,
}

/// Identity of a directory on the filesystem: `(device, inode)`.
pub type FileId = (u64, u64);

pub type SearchPathVec = Vec<SearchPath>;

impl SearchPath {
    pub open spec fn id(&self) -> FileId {
        (self.dev, self.ino)
    }

    pub fn copy(&self) -> (r: SearchPath)
        ensures
            r.path@ == self.path@,
            r.dev == self.dev,
            r.ino == self.ino,
    {
        SearchPath { path: self.path.clone(), dev: self.dev, ino: self.ino }
    }
}

/// The entry as plain values.
pub open spec fn entry_view(e: SearchPath) -> (Seq<char>, FileId) {
    (e.path@, e.id())
}

pub open spec fn set_view(v: Seq<SearchPath>) -> Seq<(Seq<char>, FileId)> {
    v.map_values(|e: SearchPath| entry_view(e))
}

pub open spec fn has_id(s: Seq<(Seq<char>, FileId)>, id: FileId) -> bool {
    exists|i: int| 0 <= i < s.len() && s[i].1 == id
}

/// What adding `path`, probed as `id`, makes of the set `s`: a path that does
/// not resolve is dropped, as is one whose identity is already present.
pub open spec fn add_spec(
    s: Seq<(Seq<char>, FileId)>,
    path: Seq<char>,
    id: Option<FileId>,
) -> Seq<(Seq<char>, FileId)> {
    match id {
        None => s,
        Some(i) => if has_id(s, i) {
            s
        } else {
            s.push((path, i))
        },
    }
}

/// No two entries share an identity.
pub open spec fn unique_ids(s: Seq<(Seq<char>, FileId)>) -> bool {
    forall|i: int, j: int| 0 <= i < j < s.len() ==> s[i].1 != s[j].1
}

/// Adding each path in turn, from the left.
pub open spec fn add_all_spec(
    s: Seq<(Seq<char>, FileId)>,
    paths: Seq<Seq<char>>,
    ids: Seq<Option<FileId>>,
    n: int,
) -> Seq<(Seq<char>, FileId)>
    decreases n,
{
    if n <= 0 {
        s
    } else {
        add_spec(add_all_spec(s, paths, ids, n - 1), paths[n - 1], ids[n - 1])
    }
}

/// Is there an entry with this identity?
pub fn contains_id(v: &SearchPathVec, id: FileId) -> (r: bool)
    ensures
        r == has_id(set_view(v@), id),
{
    let mut i: usize = 0;
    while i < v.len()
        invariant
            i <= v@.len(),
            forall|k: int| 0 <= k < i ==> v@[k].id() != id,
        decreases v@.len() - i,
    {
        if v[i].dev == id.0 && v[i].ino == id.1 {
            assert(set_view(v@)[i as int].1 == id);
            return true;
        }
        i = i + 1;
    }
    false
}

/// Add `path`, which probed as `id` (`None`: it does not exist), unless an
/// entry for the same directory is already present.
pub fn add_path(v: &mut SearchPathVec, path: &str, id: Option<FileId>)
    ensures
        set_view(final(v)@) == add_spec(set_view(old(v)@), path@, id),
{
    if let Some(i) = id {
        if !contains_id(v, i) {
            v.push(SearchPath { path: path.to_string(), dev: i.0, ino: i.1 });
            assert(set_view(v@) =~= set_view(old(v)@).push((path@, i)));
        }
    }
}

pub proof fn lemma_add_keeps_unique(s: Seq<(Seq<char>, FileId)>, path: Seq<char>, id: Option<FileId>)
    requires
        unique_ids(s),
    ensures
        unique_ids(add_spec(s, path, id)),
{
}

/// Adding a directory a second time leaves the set as the first insertion made
/// it: from an empty set, two insertions of one existing directory give a set of
/// one element.
pub proof fn lemma_insert_twice_unique(path: Seq<char>, id: FileId)
    ensures
        add_spec(add_spec(Seq::empty(), path, Some(id)), path, Some(id)) == seq![(path, id)],
        add_spec(add_spec(Seq::empty(), path, Some(id)), path, Some(id)).len() == 1,
{
    let once = add_spec(Seq::empty(), path, Some(id));
    assert(once =~= seq![(path, id)]);
    assert(has_id(once, id)) by {
        assert(once[0].1 == id);
    }
}

/// The set built from `paths`, each probed as the matching element of `ids`.
pub fn from_entries(paths: &Vec<String>, ids: &Vec<Option<FileId>>) -> (r: SearchPathVec)
    requires
        paths@.len() == ids@.len(),
    ensures
        set_view(r@) == add_all_spec(Seq::empty(), views(paths@), ids@, paths@.len() as int),
        unique_ids(set_view(r@)),
{
    let mut r: SearchPathVec = Vec::new();
    let mut i: usize = 0;
    assert(set_view(r@) =~= Seq::<(Seq<char>, FileId)>::empty());
    while i < paths.len()
        invariant
            i <= paths@.len(),
            paths@.len() == ids@.len(),
            set_view(r@) == add_all_spec(Seq::empty(), views(paths@), ids@, i as int),
            unique_ids(set_view(r@)),
        decreases paths@.len() - i,
    {
        proof {
            lemma_add_keeps_unique(set_view(r@), views(paths@)[i as int], ids@[i as int]);
        }
        add_path(&mut r, paths[i].as_str(), ids[i]);
        i = i + 1;
    }
    r
}

/// The set built from a list of directories separated by any character of
/// `delim`, each piece probed as the matching element of `ids`.
pub fn from_string(s: &str, delim: &[char], ids: &Vec<Option<FileId>>) -> (r: SearchPathVec)
    requires
        ids@.len() == split_spec(s@, delim@).len(),
    ensures
        set_view(r@) == add_all_spec(Seq::empty(), split_spec(s@, delim@), ids@, ids@.len() as int),
        unique_ids(set_view(r@)),
{
    let pieces = split(s, delim);
    from_entries(&pieces, ids)
}

/// A default directory: never probed, identity `(0, 0)`.
pub fn synthetic(path: String) -> (r: SearchPath)
    ensures
        r.path@ == path@,
        r.dev == 0,
        r.ino == 0,
{
    SearchPath { path, dev: 0, ino: 0 }
}

/// The entries of `n` that `v` does not hold yet, appended to `v` in order.
pub fn merge_searchpaths(v: &mut SearchPathVec, n: &SearchPathVec)
    ensures
        set_view(final(v)@) == add_all_spec(
            set_view(old(v)@),
            set_view(n@).map_values(|e: (Seq<char>, FileId)| e.0),
            set_view(n@).map_values(|e: (Seq<char>, FileId)| Some(e.1)),
            n@.len() as int,
        ),
{
    let ghost paths = set_view(n@).map_values(|e: (Seq<char>, FileId)| e.0);
    let ghost ids = set_view(n@).map_values(|e: (Seq<char>, FileId)| Some(e.1));
    let mut i: usize = 0;
    while i < n.len()
        invariant
            i <= n@.len(),
            paths == set_view(n@).map_values(|e: (Seq<char>, FileId)| e.0),
            ids == set_view(n@).map_values(|e: (Seq<char>, FileId)| Some(e.1)),
            set_view(v@) == add_all_spec(set_view(old(v)@), paths, ids, i as int),
        decreases n@.len() - i,
    {
        let e = &n[i];
        add_path(v, e.path.as_str(), Some((e.dev, e.ino)));
        i = i + 1;
    }
}

} // verus!
