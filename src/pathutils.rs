//! Path helpers on the characters of a path, with `/` as the separator.
use vstd::prelude::*;
use vstd::string::*;
use crate::text::{char_len, split, split_spec, views};

verus! {

/// Position of the last `/` among the first `n` characters, or -1.
pub open spec fn last_slash_upto(s: Seq<char>, n: int) -> int
    decreases n,
{
    if n <= 0 {
        -1
    } else if s[n - 1] == '/' {
        n - 1
    } else {
        last_slash_upto(s, n - 1)
    }
}

pub open spec fn last_slash(s: Seq<char>) -> int {
    last_slash_upto(s, s.len() as int)
}

proof fn lemma_last_slash_range(s: Seq<char>, n: int)
    requires
        0 <= n <= s.len(),
    ensures
        -1 <= last_slash_upto(s, n) < n,
        last_slash_upto(s, n) >= 0 ==> s[last_slash_upto(s, n)] == '/',
    decreases n,
{
    if n > 0 {
        lemma_last_slash_range(s, n - 1);
    }
}

/// The final component: what follows the last `/`.
pub open spec fn name_spec(s: Seq<char>) -> Seq<char> {
    s.skip(last_slash(s) + 1)
}

/// The directory part: `None` for an empty path or the root alone, `""` for a
/// bare name, `/` for a name directly under the root.
pub open spec fn parent_spec(s: Seq<char>) -> Option<Seq<char>> {
    let k = last_slash(s);
    if s.len() == 0 || s == seq!['/'] {
        None
    } else if k < 0 {
        Some(Seq::empty())
    } else if k == 0 {
        Some(seq!['/'])
    } else {
        Some(s.take(k))
    }
}

pub open spec fn is_absolute_spec(s: Seq<char>) -> bool {
    s.len() > 0 && s[0] == '/'
}

/// `name` under `dir`, as `Path::join` forms it.
pub open spec fn join_spec(dir: Seq<char>, name: Seq<char>) -> Seq<char> {
    if is_absolute_spec(name) {
        name
    } else if dir.len() == 0 || dir.last() == '/' {
        dir + name
    } else {
        dir + seq!['/'] + name
    }
}

fn last_slash_exec(s: &str, n: usize) -> (r: Option<usize>)
    requires
        n == s@.len(),
    ensures
        match r {
            Some(k) => last_slash(s@) == k as int,
            None => last_slash(s@) == -1,
        },
{
    let mut i: usize = n;
    while i > 0
        invariant
            i <= n,
            n == s@.len(),
            last_slash(s@) == last_slash_upto(s@, i as int),
        decreases i,
    {
        if s.get_char(i - 1) == '/' {
            return Some(i - 1);
        }
        i = i - 1;
    }
    None
}

/// The directory part of a path (see `parent_spec`).
pub fn get_path(path: &str) -> (r: Option<String>)
    ensures
        r matches Some(d) ==> parent_spec(path@) == Some(d@),
        r is None ==> parent_spec(path@) is None,
{
    let n = char_len(path);
    if n == 0 {
        return None;
    }
    proof {
        lemma_last_slash_range(path@, n as int);
    }
    match last_slash_exec(path, n) {
        None => Some(String::new()),
        Some(k) => {
            if k == 0 {
                if n == 1 {
                    assert(path@ =~= seq!['/']);
                    None
                } else {
                    assert(path@ != seq!['/']);
                    let r = String::from_str(path.substring_char(0, 1));
                    assert(r@ =~= seq!['/']);
                    Some(r)
                }
            } else {
                assert(path@.len() > 1);
                assert(path@ != seq!['/']);
                let r = String::from_str(path.substring_char(0, k));
                assert(r@ =~= path@.take(k as int));
                Some(r)
            }
        },
    }
}

/// The final component of a path.
pub fn get_name(path: &str) -> (r: String)
    ensures
        r@ == name_spec(path@),
{
    let n = char_len(path);
    proof {
        lemma_last_slash_range(path@, n as int);
    }
    let start = match last_slash_exec(path, n) {
        None => 0,
        Some(k) => k + 1,
    };
    let r = String::from_str(path.substring_char(start, n));
    assert(r@ =~= name_spec(path@));
    r
}

pub fn is_absolute(path: &str) -> (r: bool)
    ensures
        r == is_absolute_spec(path@),
{
    let n = char_len(path);
    n > 0 && path.get_char(0) == '/'
}

/// `name` under `dir`.
pub fn join(dir: &str, name: &str) -> (r: String)
    ensures
        r@ == join_spec(dir@, name@),
{
    if is_absolute(name) {
        return String::from_str(name);
    }
    let n = char_len(dir);
    let mut r = String::from_str(dir);
    if n > 0 && dir.get_char(n - 1) != '/' {
        r.append("/");
        proof {
            reveal_strlit("/");
        }
    }
    r.append(name);
    r
}


/// The components of an absolute path among the first `n` pieces, with
/// empty and `.` components dropped and `..` removing the one before (none
/// above the root).
pub open spec fn norm_parts(parts: Seq<Seq<char>>, n: int) -> Seq<Seq<char>>
    decreases n,
{
    if n <= 0 {
        Seq::empty()
    } else {
        let acc = norm_parts(parts, n - 1);
        let c = parts[n - 1];
        if c.len() == 0 || c == seq!['.'] {
            acc
        } else if c == seq!['.', '.'] {
            if acc.len() > 0 { acc.drop_last() } else { acc }
        } else {
            acc.push(c)
        }
    }
}

/// The first `n` components joined with `/`.
pub open spec fn join_slash(parts: Seq<Seq<char>>, n: int) -> Seq<char>
    decreases n,
{
    if n <= 0 {
        Seq::empty()
    } else if n == 1 {
        parts[0]
    } else {
        join_slash(parts, n - 1) + seq!['/'] + parts[n - 1]
    }
}

/// An absolute path with `.`, `..` and repeated separators resolved by its
/// text alone; a relative path is left as it is.
pub open spec fn normalize_spec(p: Seq<char>) -> Seq<char> {
    if is_absolute_spec(p) {
        let ps = split_spec(p, seq!['/']);
        let ns = norm_parts(ps, ps.len() as int);
        seq!['/'] + join_slash(ns, ns.len() as int)
    } else {
        p
    }
}

pub fn normalize(p: &str) -> (r: String)
    ensures
        r@ == normalize_spec(p@),
{
    if !is_absolute(p) {
        return String::from_str(p);
    }
    let sl = ['/'];
    assert(sl@ =~= seq!['/']);
    let parts = split(p, sl.as_slice());
    let ghost pv = views(parts@);
    let mut acc: Vec<String> = Vec::new();
    let mut i: usize = 0;
    assert(views(acc@) =~= norm_parts(pv, 0));
    while i < parts.len()
        invariant
            i <= parts@.len(),
            pv == views(parts@),
            views(acc@) == norm_parts(pv, i as int),
        decreases parts@.len() - i,
    {
        let c = parts[i].as_str();
        let n = char_len(c);
        let ghost before = views(acc@);
        assert(pv[i as int] == c@);
        if n == 0 || (n == 1 && c.get_char(0) == '.') {
            if n == 1 {
                assert(c@ =~= seq!['.']);
            }
        } else if n == 2 && c.get_char(0) == '.' && c.get_char(1) == '.' {
            assert(c@ =~= seq!['.', '.']);
            if acc.len() > 0 {
                acc.pop();
                assert(views(acc@) =~= before.drop_last());
            }
        } else {
            assert(c@ != seq!['.']) by {
                if n == 1 {
                    assert(c@[0] != '.');
                }
            }
            assert(c@ != seq!['.', '.']) by {
                if n == 2 {
                    assert(c@[0] != '.' || c@[1] != '.');
                }
            }
            acc.push(parts[i].clone());
            assert(views(acc@) =~= before.push(c@));
        }
        i = i + 1;
    }
    let ghost ns = views(acc@);
    let mut out = String::from_str("/");
    proof {
        reveal_strlit("/");
    }
    let mut k: usize = 0;
    assert(out@ =~= seq!['/'] + join_slash(ns, 0));
    while k < acc.len()
        invariant
            k <= acc@.len(),
            ns == views(acc@),
            out@ == seq!['/'] + join_slash(ns, k as int),
        decreases acc@.len() - k,
    {
        proof {
            reveal_strlit("/");
        }
        if k > 0 {
            out.append("/");
        }
        out.append(acc[k].as_str());
        assert(ns[k as int] == acc@[k as int]@);
        assert(out@ =~= seq!['/'] + join_slash(ns, k + 1));
        k = k + 1;
    }
    out
}

} // verus!
