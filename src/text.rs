//! Character-level string helpers with exact specifications.
use vstd::prelude::*;
use vstd::string::*;

verus! {

/// The characters that the configuration tokenizers treat as blanks.
pub open spec fn is_space(c: char) -> bool {
    c == ' ' || c == '\t' || c == '\n' || c == '\r' || c == '\x0b' || c == '\x0c'
}

/// Number of leading blanks among the first `n` characters.
pub open spec fn lead_upto(s: Seq<char>, n: int) -> int
    decreases n,
{
    if n <= 0 {
        0
    } else {
        let p = lead_upto(s, n - 1);
        if p == n - 1 && is_space(s[n - 1]) {
            n
        } else {
            p
        }
    }
}

/// One past the last non-blank among the first `n` characters (0 if none).
pub open spec fn end_upto(s: Seq<char>, n: int) -> int
    decreases n,
{
    if n <= 0 {
        0
    } else if !is_space(s[n - 1]) {
        n
    } else {
        end_upto(s, n - 1)
    }
}

/// `s` without leading and trailing blanks.
pub open spec fn trim_spec(s: Seq<char>) -> Seq<char> {
    let a = lead_upto(s, s.len() as int);
    let b = end_upto(s, s.len() as int);
    if a < b {
        s.subrange(a, b)
    } else {
        Seq::empty()
    }
}

/// Position of the first `c` among the first `n` characters, or -1.
pub open spec fn index_upto(s: Seq<char>, c: char, n: int) -> int
    decreases n,
{
    if n <= 0 {
        -1
    } else {
        let p = index_upto(s, c, n - 1);
        if p >= 0 {
            p
        } else if s[n - 1] == c {
            n - 1
        } else {
            -1
        }
    }
}

/// Position of the first `c` in `s`, or -1.
pub open spec fn index_of(s: Seq<char>, c: char) -> int {
    index_upto(s, c, s.len() as int)
}

/// `s` up to (not including) its first `c`; all of `s` if there is none.
pub open spec fn before_char(s: Seq<char>, c: char) -> Seq<char> {
    if index_of(s, c) >= 0 {
        s.take(index_of(s, c))
    } else {
        s
    }
}

/// A configuration line with its `#` comment and surrounding blanks removed.
pub open spec fn strip_comment_spec(s: Seq<char>) -> Seq<char> {
    trim_spec(before_char(s, '#'))
}

/// Does `p` occur in `s` at position `i`?
pub open spec fn occurs_at(s: Seq<char>, p: Seq<char>, i: int) -> bool {
    0 <= i && i + p.len() <= s.len() && s.subrange(i, i + p.len()) == p
}

/// Does `p` occur anywhere in `s`?
pub open spec fn has_str(s: Seq<char>, p: Seq<char>) -> bool {
    exists|i: int| occurs_at(s, p, i)
}

pub open spec fn starts_with_spec(s: Seq<char>, p: Seq<char>) -> bool {
    occurs_at(s, p, 0)
}

pub open spec fn ends_with_spec(s: Seq<char>, p: Seq<char>) -> bool {
    occurs_at(s, p, s.len() - p.len())
}

/// Pieces of the first `n` characters of `s` cut at every character of `d`;
/// empty pieces are kept.
pub open spec fn split_upto(s: Seq<char>, d: Seq<char>, n: int) -> Seq<Seq<char>>
    decreases n,
{
    if n <= 0 {
        seq![Seq::empty()]
    } else {
        let p = split_upto(s, d, n - 1);
        if d.contains(s[n - 1]) {
            p.push(Seq::empty())
        } else {
            p.update(p.len() - 1, p.last().push(s[n - 1]))
        }
    }
}

pub open spec fn split_spec(s: Seq<char>, d: Seq<char>) -> Seq<Seq<char>> {
    split_upto(s, d, s.len() as int)
}

proof fn lemma_split_upto_nonempty(s: Seq<char>, d: Seq<char>, n: int)
    ensures
        split_upto(s, d, n).len() >= 1,
    decreases n,
{
    if n > 0 {
        lemma_split_upto_nonempty(s, d, n - 1);
    }
}

/// Every non-overlapping occurrence of `p` in `s`, from the left, replaced by `v`.
pub open spec fn replace_spec(s: Seq<char>, p: Seq<char>, v: Seq<char>) -> Seq<char>
    decreases s.len(),
{
    if p.len() == 0 || s.len() < p.len() {
        s
    } else if s.take(p.len() as int) == p {
        v + replace_spec(s.skip(p.len() as int), p, v)
    } else {
        seq![s[0]] + replace_spec(s.skip(1), p, v)
    }
}

pub open spec fn views(v: Seq<String>) -> Seq<Seq<char>> {
    v.map_values(|x: String| x@)
}

/// Character length of `s`.
pub fn char_len(s: &str) -> (r: usize)
    ensures
        r == s@.len(),
{
    s.unicode_len()
}

/// Does `p` occur in `s` at position `i`?
pub fn occurs_at_exec(s: &str, slen: usize, p: &str, plen: usize, i: usize) -> (r: bool)
    requires
        slen == s@.len(),
        plen == p@.len(),
    ensures
        r == occurs_at(s@, p@, i as int),
{
    if i > slen || plen > slen - i {
        return false;
    }
    let mut j: usize = 0;
    while j < plen
        invariant
            j <= plen,
            i + plen <= slen,
            slen == s@.len(),
            plen == p@.len(),
            forall|k: int| 0 <= k < j ==> s@[i + k] == p@[k],
        decreases plen - j,
    {
        if s.get_char(i + j) != p.get_char(j) {
            assert(s@.subrange(i as int, i + plen)[j as int] != p@[j as int]);
            return false;
        }
        j = j + 1;
    }
    assert(s@.subrange(i as int, i + plen) =~= p@);
    true
}

pub fn starts_with(s: &str, p: &str) -> (r: bool)
    ensures
        r == starts_with_spec(s@, p@),
{
    occurs_at_exec(s, char_len(s), p, char_len(p), 0)
}

pub fn ends_with(s: &str, p: &str) -> (r: bool)
    ensures
        r == ends_with_spec(s@, p@),
{
    let slen = char_len(s);
    let plen = char_len(p);
    if plen > slen {
        return false;
    }
    occurs_at_exec(s, slen, p, plen, slen - plen)
}

/// Does `p` occur anywhere in `s`?
pub fn contains_str(s: &str, p: &str) -> (r: bool)
    ensures
        r == exists|i: int| occurs_at(s@, p@, i),
{
    let slen = char_len(s);
    let plen = char_len(p);
    let mut i: usize = 0;
    while i < slen
        invariant
            slen == s@.len(),
            plen == p@.len(),
            i <= slen,
            forall|k: int| 0 <= k < i ==> !occurs_at(s@, p@, k),
        decreases slen - i,
    {
        if occurs_at_exec(s, slen, p, plen, i) {
            return true;
        }
        i = i + 1;
    }
    if occurs_at_exec(s, slen, p, plen, slen) {
        return true;
    }
    assert forall|k: int| !occurs_at(s@, p@, k) by {
        if 0 <= k && k < slen {
        }
    }
    false
}

/// Position of the first `c` in `s`.
pub fn find_char(s: &str, c: char) -> (r: Option<usize>)
    ensures
        match r {
            Some(i) => index_of(s@, c) == i,
            None => index_of(s@, c) == -1,
        },
{
    let n = char_len(s);
    let mut i: usize = 0;
    while i < n
        invariant
            n == s@.len(),
            i <= n,
            index_upto(s@, c, i as int) == -1,
        decreases n - i,
    {
        if s.get_char(i) == c {
            proof {
                lemma_index_upto_stable(s@, c, i as int + 1, n as int);
            }
            return Some(i);
        }
        i = i + 1;
    }
    None
}

proof fn lemma_index_upto_stable(s: Seq<char>, c: char, m: int, n: int)
    requires
        0 <= m <= n,
        index_upto(s, c, m) >= 0,
    ensures
        index_upto(s, c, n) == index_upto(s, c, m),
    decreases n - m,
{
    if n > m {
        lemma_index_upto_stable(s, c, m, n - 1);
    }
}

proof fn lemma_index_upto_range(s: Seq<char>, c: char, n: int)
    ensures
        -1 <= index_upto(s, c, n),
        index_upto(s, c, n) < n || index_upto(s, c, n) == -1,
        index_upto(s, c, n) >= 0 ==> s[index_upto(s, c, n)] == c,
    decreases n,
{
    if n > 0 {
        lemma_index_upto_range(s, c, n - 1);
    }
}

proof fn lemma_lead_end(s: Seq<char>, n: int)
    requires
        0 <= n <= s.len(),
    ensures
        0 <= lead_upto(s, n) <= n,
        0 <= end_upto(s, n) <= n,
    decreases n,
{
    if n > 0 {
        lemma_lead_end(s, n - 1);
    }
}

/// `s` without leading and trailing blanks.
pub fn trim(s: &str) -> (r: String)
    ensures
        r@ == trim_spec(s@),
{
    let n = char_len(s);
    let mut a: usize = 0;
    let mut b: usize = 0;
    let mut i: usize = 0;
    while i < n
        invariant
            n == s@.len(),
            i <= n,
            a == lead_upto(s@, i as int),
            b == end_upto(s@, i as int),
        decreases n - i,
    {
        let ch = s.get_char(i);
        let sp = ch == ' ' || ch == '\t' || ch == '\n' || ch == '\r' || ch == '\x0b' || ch == '\x0c';
        if a == i && sp {
            a = i + 1;
        }
        if !sp {
            b = i + 1;
        }
        i = i + 1;
    }
    proof {
        lemma_lead_end(s@, n as int);
    }
    if a < b {
        String::from_str(s.substring_char(a, b))
    } else {
        String::new()
    }
}

/// A configuration line with its `#` comment and surrounding blanks removed.
pub fn strip_comment(s: &str) -> (r: String)
    ensures
        r@ == strip_comment_spec(s@),
{
    match find_char(s, '#') {
        Some(i) => {
            proof {
                lemma_index_upto_range(s@, '#', s@.len() as int);
            }
            let head = s.substring_char(0, i);
            assert(head@ =~= s@.take(i as int));
            trim(head)
        },
        None => trim(s),
    }
}

/// `s` cut at every character of `d`, as `str::split` with a set of characters.
pub fn split(s: &str, d: &[char]) -> (r: Vec<String>)
    ensures
        views(r@) == split_spec(s@, d@),
{
    let n = char_len(s);
    let mut r: Vec<String> = Vec::new();
    let mut start: usize = 0;
    let mut i: usize = 0;
    assert(views(r@) =~= Seq::<Seq<char>>::empty());
    assert(s@.subrange(0, 0) =~= Seq::<char>::empty());
    assert(views(r@).push(s@.subrange(0, 0)) =~~= split_upto(s@, d@, 0));
    while i < n
        invariant
            n == s@.len(),
            start <= i <= n,
            views(r@).push(s@.subrange(start as int, i as int)) == split_upto(s@, d@, i as int),
        decreases n - i,
    {
        let ch = s.get_char(i);
        let mut is_d = false;
        let mut k: usize = 0;
        while k < d.len()
            invariant
                k <= d@.len(),
                is_d == exists|j: int| 0 <= j < k && d@[j] == ch,
            decreases d@.len() - k,
        {
            if d[k] == ch {
                is_d = true;
            }
            k = k + 1;
        }
        proof {
            lemma_split_upto_nonempty(s@, d@, i as int);
            assert(is_d == d@.contains(ch));
        }
        let ghost prev = split_upto(s@, d@, i as int);
        if is_d {
            let piece = String::from_str(s.substring_char(start, i));
            r.push(piece);
            start = i + 1;
            assert(views(r@) =~= prev);
            assert(s@.subrange(start as int, (i + 1) as int) =~= Seq::<char>::empty());
        } else {
            assert(s@.subrange(start as int, (i + 1) as int) =~= s@.subrange(start as int, i as int).push(ch));
            assert(views(r@).push(s@.subrange(start as int, (i + 1) as int)) =~= prev.update(prev.len() - 1, prev.last().push(ch)));
        }
        i = i + 1;
    }
    let piece = String::from_str(s.substring_char(start, n));
    r.push(piece);
    assert(views(r@) =~= split_upto(s@, d@, n as int));
    r
}

proof fn lemma_skip_skip(s: Seq<char>, a: int, b: int)
    requires
        0 <= a,
        0 <= b,
        a + b <= s.len(),
    ensures
        s.skip(a).skip(b) =~= s.skip(a + b),
{
}

/// Every non-overlapping occurrence of `p` in `s`, from the left, replaced by `v`.
pub fn replace(s: &str, p: &str, v: &str) -> (r: String)
    requires
        p@.len() > 0,
    ensures
        r@ == replace_spec(s@, p@, v@),
{
    let n = char_len(s);
    let plen = char_len(p);
    let mut out = String::new();
    let mut i: usize = 0;
    assert(s@.skip(0) =~= s@);
    assert(out@ + replace_spec(s@.skip(0), p@, v@) =~= replace_spec(s@, p@, v@));
    while i < n
        invariant
            n == s@.len(),
            plen == p@.len(),
            plen > 0,
            i <= n,
            out@ + replace_spec(s@.skip(i as int), p@, v@) == replace_spec(s@, p@, v@),
        decreases n - i,
    {
        let ghost rest = s@.skip(i as int);
        if occurs_at_exec(s, n, p, plen, i) {
            assert(rest.take(plen as int) =~= s@.subrange(i as int, i + plen));
            proof {
                lemma_skip_skip(s@, i as int, plen as int);
            }
            out.append(v);
            assert(out@ + replace_spec(s@.skip(i + plen), p@, v@) =~= replace_spec(s@, p@, v@));
            i = i + plen;
        } else {
            if n - i < plen {
                // no occurrence can start here: the rest is copied as it is
                out.append(s.substring_char(i, n));
                assert(s@.subrange(i as int, n as int) =~= rest);
                return out;
            }
            assert(rest.take(plen as int) =~= s@.subrange(i as int, i + plen));
            proof {
                lemma_skip_skip(s@, i as int, 1);
            }
            out.append(s.substring_char(i, i + 1));
            assert(s@.subrange(i as int, i + 1) =~= seq![rest[0]]);
            assert(out@ + replace_spec(s@.skip(i + 1), p@, v@) =~= replace_spec(s@, p@, v@));
            i = i + 1;
        }
    }
    assert(s@.skip(n as int) =~= Seq::<char>::empty());
    out
}

} // verus!
