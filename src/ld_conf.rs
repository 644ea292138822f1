//! The text configuration files: `ld.so.conf` (directories and `include`
//! globs), NetBSD's `ld.so.conf` and `ld.so.preload`.
use vstd::prelude::*;
use crate::text::{
    char_len, split, split_spec, starts_with, starts_with_spec, strip_comment, strip_comment_spec,
    views,
};
use crate::pathutils::{is_absolute, is_absolute_spec, join, join_spec, parent_spec};
use crate::search_path::{
    FileId, SearchPathVec, add_path, add_spec, merge_searchpaths, set_view, add_all_spec,
};

verus! {

/// One meaningful line of `ld.so.conf`.
#[derive(Debug)]
pub enum ConfLine {
    /// `include <pattern>`: the pattern, anchored at the file's directory when
    /// it is relative.
    Include(String),
    /// A directory to add.
    Dir(String),
}

pub enum ConfLineView {
    Include(Seq<char>),
    Dir(Seq<char>),
}

pub open spec fn conf_line_view(l: ConfLine) -> ConfLineView {
    match l {
        ConfLine::Include(s) => ConfLineView::Include(s@),
        ConfLine::Dir(s) => ConfLineView::Dir(s@),
    }
}

#[derive(PartialEq, Eq, Structural, Clone, Copy, Debug)]
pub enum ConfError {
    /// An `include` line without a pattern.
    InvalidInclude,
}

/// The non-empty pieces among the first `n`.
pub open spec fn nonempty_upto(s: Seq<Seq<char>>, n: int) -> Seq<Seq<char>>
    decreases n,
{
    if n <= 0 {
        Seq::empty()
    } else if s[n - 1].len() > 0 {
        nonempty_upto(s, n - 1).push(s[n - 1])
    } else {
        nonempty_upto(s, n - 1)
    }
}

pub open spec fn nonempty_spec(s: Seq<Seq<char>>) -> Seq<Seq<char>> {
    nonempty_upto(s, s.len() as int)
}

/// The blank-separated words of a line, without empty ones.
pub open spec fn words(s: Seq<char>) -> Seq<Seq<char>> {
    nonempty_spec(split_spec(s, seq![' ', '\t']))
}

/// What one line of a file in directory `dir` says: nothing, an error, or a
/// directive.
pub open spec fn conf_line_spec(line: Seq<char>, dir: Option<Seq<char>>) -> Result<Option<ConfLineView>, ConfError> {
    let l = strip_comment_spec(line);
    if l.len() == 0 {
        Ok(None)
    } else if starts_with_spec(l, "include"@) {
        let w = words(l);
        if w.len() < 2 {
            Err(ConfError::InvalidInclude)
        } else if !is_absolute_spec(w[1]) && dir is Some {
            Ok(Some(ConfLineView::Include(join_spec(dir->0, w[1]))))
        } else {
            Ok(Some(ConfLineView::Include(w[1])))
        }
    } else if starts_with_spec(l, "hwcap"@) {
        Ok(None)
    } else {
        Ok(Some(ConfLineView::Dir(l)))
    }
}

/// The second non-empty word of `s`.
fn second_word(s: &str) -> (r: Option<String>)
    ensures
        match r {
            Some(w) => words(s@).len() >= 2 && words(s@)[1] == w@,
            None => words(s@).len() < 2,
        },
{
    let d = [' ', '\t'];
    assert(d@ =~= seq![' ', '\t']);
    let ws = nonempty(split(s, d.as_slice()));
    if ws.len() < 2 {
        return None;
    }
    Some(ws[1].clone())
}

/// Read one line of `ld.so.conf`, for a file in directory `dir`.
pub fn parse_line(line: &str, dir: &Option<String>) -> (r: Result<Option<ConfLine>, ConfError>)
    ensures
        match r {
            Ok(Some(l)) => conf_line_spec(line@, crate::deptree::opt_view(*dir)) == Ok::<Option<ConfLineView>, ConfError>(Some(conf_line_view(l))),
            Ok(None) => conf_line_spec(line@, crate::deptree::opt_view(*dir)) == Ok::<Option<ConfLineView>, ConfError>(None),
            Err(e) => conf_line_spec(line@, crate::deptree::opt_view(*dir)) == Err::<Option<ConfLineView>, ConfError>(e),
        },
{
    let l = strip_comment(line);
    if char_len(l.as_str()) == 0 {
        return Ok(None);
    }
    if starts_with(l.as_str(), "include") {
        match second_word(l.as_str()) {
            None => Err(ConfError::InvalidInclude),
            Some(w) => {
                match dir {
                    Some(d) => {
                        if !is_absolute(w.as_str()) {
                            return Ok(Some(ConfLine::Include(join(d.as_str(), w.as_str()))));
                        }
                        Ok(Some(ConfLine::Include(w)))
                    },
                    None => Ok(Some(ConfLine::Include(w))),
                }
            },
        }
    } else if starts_with(l.as_str(), "hwcap") {
        Ok(None)
    } else {
        Ok(Some(ConfLine::Dir(l)))
    }
}

/// The directives of a whole file, line by line; the first bad line is an
/// error.
pub open spec fn conf_lines_spec(lines: Seq<Seq<char>>, dir: Option<Seq<char>>, i: int) -> Result<Seq<ConfLineView>, ConfError>
    decreases lines.len() - i,
{
    if i < 0 || i >= lines.len() {
        Ok(Seq::empty())
    } else {
        match conf_line_spec(lines[i], dir) {
            Err(e) => Err(e),
            Ok(o) => match conf_lines_spec(lines, dir, i + 1) {
                Err(e) => Err(e),
                Ok(rest) => match o {
                    Some(l) => Ok(seq![l] + rest),
                    None => Ok(rest),
                },
            },
        }
    }
}

/// The directives of an `ld.so.conf` file at `path`, given as its lines.
/// The caller expands each `Include` with a glob, reads the files it names
/// the same way, and merges their directories in place.
pub fn parse_ld_so_conf(lines: &Vec<String>, path: &str) -> (r: Result<Vec<ConfLine>, ConfError>)
    ensures
        match r {
            Ok(v) => conf_lines_spec(views(lines@), parent_spec(path@), 0)
                == Ok::<Seq<ConfLineView>, ConfError>(v@.map_values(|l: ConfLine| conf_line_view(l))),
            Err(e) => conf_lines_spec(views(lines@), parent_spec(path@), 0) == Err::<Seq<ConfLineView>, ConfError>(e),
        },
{
    let dir = crate::pathutils::get_path(path);
    let mut out: Vec<ConfLine> = Vec::new();
    let mut i = lines.len();
    assert(out@.map_values(|l: ConfLine| conf_line_view(l)) =~= Seq::<ConfLineView>::empty());
    // built from the back, so that each step prepends
    let mut rev: Vec<ConfLine> = Vec::new();
    let mut k: usize = 0;
    while k < lines.len()
        invariant
            k <= lines@.len(),
            crate::deptree::opt_view(dir) == parent_spec(path@),
            conf_lines_spec(views(lines@), parent_spec(path@), 0) == match conf_lines_spec(views(lines@), parent_spec(path@), k as int) {
                Err(e) => Err(e),
                Ok(rest) => Ok(rev@.map_values(|l: ConfLine| conf_line_view(l)) + rest),
            },
        decreases lines@.len() - k,
    {
        let ghost before = rev@.map_values(|l: ConfLine| conf_line_view(l));
        match parse_line(lines[k].as_str(), &dir) {
            Err(e) => {
                return Err(e);
            },
            Ok(None) => {},
            Ok(Some(l)) => {
                let ghost lv = conf_line_view(l);
                rev.push(l);
                assert(rev@.map_values(|l: ConfLine| conf_line_view(l)) =~= before.push(lv));
                proof {
                    match conf_lines_spec(views(lines@), parent_spec(path@), k + 1) {
                        Err(_) => {},
                        Ok(rest) => {
                            assert(before + (seq![lv] + rest) =~= before.push(lv) + rest);
                        },
                    }
                }
            },
        }
        k = k + 1;
    }
    assert(rev@.map_values(|l: ConfLine| conf_line_view(l)) + Seq::<ConfLineView>::empty()
        =~= rev@.map_values(|l: ConfLine| conf_line_view(l)));
    Ok(rev)
}

/// The entries of one line of `ld.so.preload`: names separated by blanks or
/// `:`, without empty ones.
pub open spec fn preload_line_spec(line: Seq<char>) -> Seq<Seq<char>> {
    nonempty_spec(split_spec(strip_comment_spec(line), seq![':', ' ', '\t']))
}

pub open spec fn preload_spec(lines: Seq<Seq<char>>, n: int) -> Seq<Seq<char>>
    decreases n,
{
    if n <= 0 {
        Seq::empty()
    } else {
        preload_spec(lines, n - 1) + preload_line_spec(lines[n - 1])
    }
}

fn nonempty(v: Vec<String>) -> (r: Vec<String>)
    ensures
        views(r@) == nonempty_spec(views(v@)),
{
    let mut r: Vec<String> = Vec::new();
    let mut i: usize = 0;
    assert(views(r@) =~= Seq::<Seq<char>>::empty());
    while i < v.len()
        invariant
            i <= v@.len(),
            views(r@) == nonempty_upto(views(v@), i as int),
        decreases v@.len() - i,
    {
        let ghost before = views(r@);
        if char_len(v[i].as_str()) > 0 {
            r.push(v[i].clone());
            assert(views(r@) =~= before.push(v@[i as int]@));
        }
        i = i + 1;
    }
    r
}

/// The library names listed by an `ld.so.preload` file, given as its lines;
/// the caller probes each.
pub fn parse_ld_so_preload(lines: &Vec<String>) -> (r: Vec<String>)
    ensures
        views(r@) == preload_spec(views(lines@), lines@.len() as int),
{
    let mut out: Vec<String> = Vec::new();
    let mut k: usize = 0;
    assert(views(out@) =~= Seq::<Seq<char>>::empty());
    while k < lines.len()
        invariant
            k <= lines@.len(),
            views(out@) == preload_spec(views(lines@), k as int),
        decreases lines@.len() - k,
    {
        let l = strip_comment(lines[k].as_str());
        let d = [':', ' ', '\t'];
        assert(d@ =~= seq![':', ' ', '\t']);
        let ws = nonempty(split(l.as_str(), d.as_slice()));
        let ghost before = views(out@);
        let mut j: usize = 0;
        while j < ws.len()
            invariant
                j <= ws@.len(),
                views(out@) == before + views(ws@).take(j as int),
            decreases ws@.len() - j,
        {
            let ghost mid = views(out@);
            out.push(ws[j].clone());
            assert(views(out@) =~= mid.push(ws@[j as int]@));
            assert(views(ws@).take(j + 1) =~= views(ws@).take(j as int).push(ws@[j as int]@));
            assert(views(out@) =~= before + views(ws@).take(j + 1));
            j = j + 1;
        }
        assert(views(ws@).take(j as int) =~= views(ws@));
        k = k + 1;
    }
    out
}

/// NetBSD's `ld.so.conf`: every meaningful line is a directory.
pub open spec fn netbsd_spec(lines: Seq<Seq<char>>, n: int) -> Seq<Seq<char>>
    decreases n,
{
    if n <= 0 {
        Seq::empty()
    } else if strip_comment_spec(lines[n - 1]).len() == 0 {
        netbsd_spec(lines, n - 1)
    } else {
        netbsd_spec(lines, n - 1).push(strip_comment_spec(lines[n - 1]))
    }
}

pub fn parse_ld_so_conf_netbsd(lines: &Vec<String>) -> (r: Vec<String>)
    ensures
        views(r@) == netbsd_spec(views(lines@), lines@.len() as int),
{
    let mut out: Vec<String> = Vec::new();
    let mut k: usize = 0;
    assert(views(out@) =~= Seq::<Seq<char>>::empty());
    while k < lines.len()
        invariant
            k <= lines@.len(),
            views(out@) == netbsd_spec(views(lines@), k as int),
        decreases lines@.len() - k,
    {
        let l = strip_comment(lines[k].as_str());
        if char_len(l.as_str()) > 0 {
            let ghost before = views(out@);
            out.push(l);
            assert(views(out@) =~= before.push(strip_comment_spec(lines@[k as int]@)));
        }
        k = k + 1;
    }
    out
}


/// The set a file's directives make, directive by directive: a directory is
/// added as it was probed (`ids[i]`), an include contributes the set its
/// files made (`included[i]`) at that place; an entry already present is
/// dropped.
pub open spec fn assemble_spec(
    lines: Seq<ConfLineView>,
    ids: Seq<Option<FileId>>,
    included: Seq<Seq<(Seq<char>, FileId)>>,
    n: int,
) -> Seq<(Seq<char>, FileId)>
    decreases n,
{
    if n <= 0 {
        Seq::empty()
    } else {
        let acc = assemble_spec(lines, ids, included, n - 1);
        match lines[n - 1] {
            ConfLineView::Dir(d) => add_spec(acc, d, ids[n - 1]),
            ConfLineView::Include(_) => add_all_spec(
                acc,
                included[n - 1].map_values(|e: (Seq<char>, FileId)| e.0),
                included[n - 1].map_values(|e: (Seq<char>, FileId)| Some(e.1)),
                included[n - 1].len() as int,
            ),
        }
    }
}

/// Build the search set of one `ld.so.conf` file from its directives (see
/// `assemble_spec`); `ids` and `included` are indexed like `lines`.
pub fn assemble(lines: &Vec<ConfLine>, ids: &Vec<Option<FileId>>, included: &Vec<SearchPathVec>) -> (r: SearchPathVec)
    requires
        ids@.len() == lines@.len(),
        included@.len() == lines@.len(),
    ensures
        set_view(r@) == assemble_spec(
            lines@.map_values(|l: ConfLine| conf_line_view(l)),
            ids@,
            included@.map_values(|v: SearchPathVec| set_view(v@)),
            lines@.len() as int,
        ),
{
    let ghost lv = lines@.map_values(|l: ConfLine| conf_line_view(l));
    let ghost iv = included@.map_values(|v: SearchPathVec| set_view(v@));
    let mut r: SearchPathVec = Vec::new();
    let mut i: usize = 0;
    assert(set_view(r@) =~= Seq::<(Seq<char>, FileId)>::empty());
    while i < lines.len()
        invariant
            i <= lines@.len(),
            ids@.len() == lines@.len(),
            included@.len() == lines@.len(),
            lv == lines@.map_values(|l: ConfLine| conf_line_view(l)),
            iv == included@.map_values(|v: SearchPathVec| set_view(v@)),
            set_view(r@) == assemble_spec(lv, ids@, iv, i as int),
        decreases lines@.len() - i,
    {
        match &lines[i] {
            ConfLine::Dir(d) => {
                add_path(&mut r, d.as_str(), ids[i]);
            },
            ConfLine::Include(_) => {
                merge_searchpaths(&mut r, &included[i]);
            },
        }
        i = i + 1;
    }
    r
}

} // verus!
