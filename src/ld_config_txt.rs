//! Android's `ld.config.txt`: the tokenizer, the selection of the binary's
//! section, property assignment and append, and the namespace graph.
use vstd::prelude::*;
use crate::text::{
    char_len, contains_str, ends_with, has_str, ends_with_spec, occurs_at, occurs_at_exec, replace,
    replace_spec, split, split_spec, starts_with, starts_with_spec, strip_comment,
    strip_comment_spec, trim, trim_spec, views,
};
use crate::deptree::{str_eq, opt_view};
use crate::resolver::{lookup_from, pairs_view};
use crate::ld_conf::{nonempty_spec, nonempty_upto};
use crate::android::{
    AndroidRelease, libpath, libpath_spec, sdk_spec, sdk_text, is_asan, is_asan_spec, abi_string,
    abi_string_spec,
};

verus! {

#[derive(PartialEq, Eq, Structural, Clone, Copy, Debug)]
pub enum Token {
    PropertyAssign,
    PropertyAppend,
    Section,
    Error,
}

#[derive(PartialEq, Eq, Structural, Clone, Copy, Debug)]
pub enum ConfigError {
    InvalidAssignment,
    InvalidAppend,
    /// No `dir.NAME` assignment covers the binary.
    NoInitialSection,
    /// The selected section has no header.
    NoSection,
    /// `enable.target.sdk.version` is set but the `.version` file is missing
    /// or not a number.
    BadVersionFile,
    /// The machine has no `${LIB}` value.
    UnsupportedArchitecture,
    /// A link names a namespace that is not defined.
    UndefinedNamespace,
    /// A link sets neither `shared_libs` nor `allow_all_shared_libs`.
    NeitherSet,
    /// A link sets both.
    BothSet,
    /// The ASan loader of Android 8.0 has no configuration.
    AsanUnsupported,
}

/// The token of a line and its text (comment and blanks removed; a section
/// header without its brackets).
pub open spec fn token_spec(line: Seq<char>) -> Option<(Token, Seq<char>)> {
    let l = strip_comment_spec(line);
    if l.len() == 0 {
        None
    } else if starts_with_spec(l, "["@) && ends_with_spec(l, "]"@) && l.len() >= 2 {
        Some((Token::Section, l.subrange(1, l.len() - 1)))
    } else if has_str(l, "+="@) {
        Some((Token::PropertyAppend, l))
    } else if has_str(l, "="@) {
        Some((Token::PropertyAssign, l))
    } else {
        Some((Token::Error, l))
    }
}

pub fn next_token(line: &str) -> (r: Option<(Token, String)>)
    ensures
        match r {
            Some((t, s)) => token_spec(line@) == Some((t, s@)),
            None => token_spec(line@) is None,
        },
{
    let l = strip_comment(line);
    let n = char_len(l.as_str());
    if n == 0 {
        return None;
    }
    if starts_with(l.as_str(), "[") && ends_with(l.as_str(), "]") && n >= 2 {
        let inner = String::from_str(l.as_str().substring_char(1, n - 1));
        return Some((Token::Section, inner));
    }
    if contains_str(l.as_str(), "+=") {
        return Some((Token::PropertyAppend, l));
    }
    if contains_str(l.as_str(), "=") {
        return Some((Token::PropertyAssign, l));
    }
    Some((Token::Error, l))
}

/// `key = value`: exactly one `=`, both sides trimmed.
pub open spec fn assign_spec(l: Seq<char>) -> Option<(Seq<char>, Seq<char>)> {
    let p = split_spec(l, seq!['=']);
    if p.len() == 2 {
        Some((trim_spec(p[0]), trim_spec(p[1])))
    } else {
        None
    }
}

pub fn parse_assignment(l: &str) -> (r: Option<(String, String)>)
    ensures
        match r {
            Some((k, v)) => assign_spec(l@) == Some((k@, v@)),
            None => assign_spec(l@) is None,
        },
{
    let eq = ['='];
    assert(eq@ =~= seq!['=']);
    let p = split(l, eq.as_slice());
    if p.len() != 2 {
        return None;
    }
    Some((trim(p[0].as_str()), trim(p[1].as_str())))
}

/// First occurrence of `p` in `s` from `i` on, or -1.
pub open spec fn first_occ(s: Seq<char>, p: Seq<char>, i: int) -> int
    decreases s.len() + 1 - i,
{
    if i < 0 || i > s.len() {
        -1
    } else if occurs_at(s, p, i) {
        i
    } else {
        first_occ(s, p, i + 1)
    }
}

fn find_str(s: &str, p: &str) -> (r: Option<usize>)
    ensures
        match r {
            Some(i) => first_occ(s@, p@, 0) == i && occurs_at(s@, p@, i as int),
            None => first_occ(s@, p@, 0) == -1,
        },
{
    let n = char_len(s);
    let m = char_len(p);
    let mut i: usize = 0;
    while i <= n
        invariant
            n == s@.len(),
            m == p@.len(),
            first_occ(s@, p@, 0) == first_occ(s@, p@, i as int),
        decreases n + 1 - i,
    {
        if occurs_at_exec(s, n, p, m, i) {
            return Some(i);
        }
        if i == n {
            assert(first_occ(s@, p@, i as int + 1) == -1);
            return None;
        }
        i = i + 1;
    }
    None
}

/// `key += value`: exactly one `+=`, both sides trimmed.
pub open spec fn append_spec(l: Seq<char>) -> Option<(Seq<char>, Seq<char>)> {
    let i = first_occ(l, "+="@, 0);
    if i < 0 || first_occ(l.skip(i + 2), "+="@, 0) >= 0 {
        None
    } else {
        Some((trim_spec(l.take(i)), trim_spec(l.skip(i + 2))))
    }
}

pub fn parse_append(l: &str) -> (r: Option<(String, String)>)
    ensures
        match r {
            Some((k, v)) => append_spec(l@) == Some((k@, v@)),
            None => append_spec(l@) is None,
        },
{
    proof {
        reveal_strlit("+=");
    }
    match find_str(l, "+=") {
        None => None,
        Some(i) => {
            let n = char_len(l);
            let after = l.substring_char(i + 2, n);
            assert(after@ =~= l@.skip(i + 2));
            if find_str(after, "+=").is_some() {
                return None;
            }
            let before = l.substring_char(0, i);
            assert(before@ =~= l@.take(i as int));
            Some((trim(before), trim(after)))
        },
    }
}

/// The path of a `dir.NAME = path` line, if the line is one.
pub open spec fn dir_line_spec(line: Seq<char>) -> Option<(Seq<char>, Seq<char>)> {
    match token_spec(line) {
        Some((Token::PropertyAssign, l)) => match assign_spec(l) {
            Some((k, v)) => if starts_with_spec(k, "dir."@) {
                Some((k.skip(4), v))
            } else {
                None
            },
            None => None,
        },
        _ => None,
    }
}

/// The section name and path of a `dir.NAME = path` line; the caller resolves
/// the path before the section is chosen.
pub fn dir_assignment(line: &str) -> (r: Option<(String, String)>)
    ensures
        match r {
            Some((k, v)) => dir_line_spec(line@) == Some((k@, v@)),
            None => dir_line_spec(line@) is None,
        },
{
    match next_token(line) {
        Some((Token::PropertyAssign, l)) => match parse_assignment(l.as_str()) {
            Some((k, v)) => {
                if starts_with(k.as_str(), "dir.") {
                    proof {
                        reveal_strlit("dir.");
                    }
                    let n = char_len(k.as_str());
                    let name = String::from_str(k.as_str().substring_char(4, n));
                    assert(name@ =~= k@.skip(4));
                    Some((name, v))
                } else {
                    None
                }
            },
            None => None,
        },
        _ => None,
    }
}

/// `p` lies under `base`, component by component.
pub open spec fn path_under(p: Seq<char>, base: Seq<char>) -> bool {
    p == base || (starts_with_spec(p, base) && (base.len() > 0 && base.last() == '/' || p.len() > base.len() && p[base.len() as int] == '/'))
}

pub fn path_starts_with(p: &str, base: &str) -> (r: bool)
    ensures
        r == path_under(p@, base@),
{
    if str_eq(p, base) {
        return true;
    }
    if !starts_with(p, base) {
        return false;
    }
    let n = char_len(p);
    let m = char_len(base);
    (m > 0 && base.get_char(m - 1) == '/') || (n > m && p.get_char(m) == '/')
}

/// The section of the first `dir.` line whose resolved path holds the binary,
/// looking only before the first section header, and the line after it.
pub open spec fn initial_spec(lines: Seq<Seq<char>>, resolved: Seq<Option<Seq<char>>>, binary: Seq<char>, i: int)
    -> Result<(Seq<char>, int), ConfigError>
    decreases lines.len() - i,
{
    if i < 0 || i >= lines.len() {
        Err(ConfigError::NoInitialSection)
    } else {
        match token_spec(lines[i]) {
            Some((Token::Section, _)) => Err(ConfigError::NoInitialSection),
            Some((Token::PropertyAssign, l)) => match assign_spec(l) {
                None => Err(ConfigError::InvalidAssignment),
                Some((k, v)) => if starts_with_spec(k, "dir."@) && i < resolved.len() && resolved[i] is Some
                    && path_under(binary, resolved[i]->0) {
                    Ok((k.skip(4), i + 1))
                } else {
                    initial_spec(lines, resolved, binary, i + 1)
                },
            },
            _ => initial_spec(lines, resolved, binary, i + 1),
        }
    }
}

/// The line after the header of section `name`, from line `i` on.
pub open spec fn section_spec(lines: Seq<Seq<char>>, name: Seq<char>, i: int) -> Result<int, ConfigError>
    decreases lines.len() - i,
{
    if i < 0 || i >= lines.len() {
        Err(ConfigError::NoSection)
    } else {
        match token_spec(lines[i]) {
            Some((Token::Section, s)) => if s == name {
                Ok(i + 1)
            } else {
                section_spec(lines, name, i + 1)
            },
            Some((Token::Error, _)) => Err(ConfigError::NoSection),
            _ => section_spec(lines, name, i + 1),
        }
    }
}

pub type Props = Seq<(Seq<char>, Seq<char>)>;

/// Index of the property `k`, or -1.
pub open spec fn prop_index(p: Props, k: Seq<char>, i: int) -> int
    decreases p.len() - i,
{
    if i < 0 || i >= p.len() {
        -1
    } else if p[i].0 == k {
        i
    } else {
        prop_index(p, k, i + 1)
    }
}

pub open spec fn add_spec(p: Props, k: Seq<char>, v: Seq<char>) -> Props {
    let j = prop_index(p, k, 0);
    if j < 0 {
        p.push((k, v))
    } else {
        p.update(j, (k, v))
    }
}

/// The separator an append uses for a key, if it joins at all.
pub open spec fn append_sep(k: Seq<char>) -> Option<char> {
    if ends_with_spec(k, ".links"@) || ends_with_spec(k, ".namespaces"@) {
        Some(',')
    } else if ends_with_spec(k, ".paths"@) || ends_with_spec(k, ".shared_libs"@) || ends_with_spec(k, ".whitelisted"@)
        || ends_with_spec(k, ".allowed_libs"@) {
        Some(':')
    } else {
        None
    }
}

pub open spec fn append_prop_spec(p: Props, k: Seq<char>, v: Seq<char>) -> Props {
    let j = prop_index(p, k, 0);
    if j < 0 {
        p.push((k, v))
    } else {
        match append_sep(k) {
            None => p,
            Some(c) => p.update(j, (k, p[j].1 + seq![c] + v)),
        }
    }
}

/// The properties of the section that starts at line `i`, up to the next
/// header or error line.
pub open spec fn props_spec(lines: Seq<Seq<char>>, i: int, acc: Props) -> Result<Props, ConfigError>
    decreases lines.len() - i,
{
    if i < 0 || i >= lines.len() {
        Ok(acc)
    } else {
        match token_spec(lines[i]) {
            None => props_spec(lines, i + 1, acc),
            Some((Token::PropertyAssign, l)) => match assign_spec(l) {
                None => Err(ConfigError::InvalidAssignment),
                Some((k, v)) => props_spec(lines, i + 1, add_spec(acc, k, v)),
            },
            Some((Token::PropertyAppend, l)) => match append_spec(l) {
                None => Err(ConfigError::InvalidAppend),
                Some((k, v)) => props_spec(lines, i + 1, append_prop_spec(acc, k, v)),
            },
            _ => Ok(acc),
        }
    }
}

pub struct Properties {
    pub properties: Vec<(String, String)>,
}

fn prop_find(p: &Vec<(String, String)>, k: &str) -> (r: Option<usize>)
    ensures
        match r {
            Some(i) => prop_index(pairs_view(p@), k@, 0) == i && i < p@.len(),
            None => prop_index(pairs_view(p@), k@, 0) == -1,
        },
{
    let mut i: usize = 0;
    while i < p.len()
        invariant
            i <= p@.len(),
            prop_index(pairs_view(p@), k@, 0) == prop_index(pairs_view(p@), k@, i as int),
        decreases p@.len() - i,
    {
        if str_eq(p[i].0.as_str(), k) {
            return Some(i);
        }
        i = i + 1;
    }
    None
}

proof fn lemma_prop_lookup(p: Props, k: Seq<char>, i: int)
    requires
        0 <= i,
    ensures
        prop_index(p, k, i) >= 0 ==> lookup_from(p, k, i) == Some(p[prop_index(p, k, i)].1),
        prop_index(p, k, i) < 0 ==> lookup_from(p, k, i) is None,
        prop_index(p, k, i) >= 0 ==> prop_index(p, k, i) < p.len(),
    decreases p.len() - i,
{
    if i < p.len() && p[i].0 != k {
        lemma_prop_lookup(p, k, i + 1);
    }
}

impl Properties {
    pub fn new() -> (r: Properties)
        ensures
            pairs_view(r.properties@) == Seq::<(Seq<char>, Seq<char>)>::empty(),
    {
        let r = Properties { properties: Vec::new() };
        assert(pairs_view(r.properties@) =~= Seq::<(Seq<char>, Seq<char>)>::empty());
        r
    }

    /// Set `k` to `v`.
    pub fn add(&mut self, k: String, v: String)
        ensures
            pairs_view(final(self).properties@) == add_spec(pairs_view(old(self).properties@), k@, v@),
    {
        let ghost kv = k@;
        let ghost vv = v@;
        match prop_find(&self.properties, k.as_str()) {
            None => {
                self.properties.push((k, v));
                assert(pairs_view(self.properties@) =~= add_spec(pairs_view(old(self).properties@), kv, vv));
            },
            Some(j) => {
                self.properties.set(j, (k, v));
                assert(pairs_view(self.properties@) =~= add_spec(pairs_view(old(self).properties@), kv, vv));
            },
        }
    }

    /// Join `v` to the value of `k` with the key's separator (or set it).
    pub fn append(&mut self, k: String, v: String)
        ensures
            pairs_view(final(self).properties@) == append_prop_spec(pairs_view(old(self).properties@), k@, v@),
    {
        let ghost kv = k@;
        let ghost vv = v@;
        match prop_find(&self.properties, k.as_str()) {
            None => {
                self.properties.push((k, v));
                assert(pairs_view(self.properties@) =~= append_prop_spec(pairs_view(old(self).properties@), kv, vv));
            },
            Some(j) => {
                let sep = if ends_with(k.as_str(), ".links") || ends_with(k.as_str(), ".namespaces") {
                    ","
                } else if ends_with(k.as_str(), ".paths") || ends_with(k.as_str(), ".shared_libs")
                    || ends_with(k.as_str(), ".whitelisted") || ends_with(k.as_str(), ".allowed_libs") {
                    ":"
                } else {
                    return;
                };
                proof {
                    reveal_strlit(",");
                    reveal_strlit(":");
                    assert(sep@ =~= seq![append_sep(kv)->0]);
                }
                let mut joined = self.properties[j].1.clone();
                assert(joined@ == pairs_view(old(self).properties@)[j as int].1);
                joined.append(sep);
                joined.append(v.as_str());
                assert(joined@ == pairs_view(old(self).properties@)[j as int].1 + seq![append_sep(kv)->0] + vv);
                self.properties.set(j, (k, joined));
                assert(pairs_view(self.properties@) =~= append_prop_spec(pairs_view(old(self).properties@), kv, vv));
            },
        }
    }

    pub fn get(&self, k: &str) -> (r: Option<String>)
        ensures
            opt_view(r) == lookup_from(pairs_view(self.properties@), k@, 0),
    {
        proof {
            lemma_prop_lookup(pairs_view(self.properties@), k@, 0);
        }
        match prop_find(&self.properties, k) {
            None => None,
            Some(j) => Some(self.properties[j].1.clone()),
        }
    }

    pub fn get_bool(&self, k: &str) -> (r: bool)
        ensures
            r == (lookup_from(pairs_view(self.properties@), k@, 0) == Some("true"@)),
    {
        match self.get(k) {
            None => false,
            Some(v) => str_eq(v.as_str(), "true"),
        }
    }

    pub fn get_string(&self, k: &str) -> (r: String)
        ensures
            r@ == get_string_spec(pairs_view(self.properties@), k@),
    {
        match self.get(k) {
            None => String::new(),
            Some(v) => v,
        }
    }
}

pub open spec fn get_string_spec(p: Props, k: Seq<char>) -> Seq<char> {
    match lookup_from(p, k, 0) {
        Some(v) => v,
        None => Seq::empty(),
    }
}

pub open spec fn get_bool_spec(p: Props, k: Seq<char>) -> bool {
    lookup_from(p, k, 0) == Some("true"@)
}


/// Each name once, in order of first appearance, among the first `n`.
pub open spec fn uniq_upto(s: Seq<Seq<char>>, n: int) -> Seq<Seq<char>>
    decreases n,
{
    if n <= 0 {
        Seq::empty()
    } else if uniq_upto(s, n - 1).contains(s[n - 1]) {
        uniq_upto(s, n - 1)
    } else {
        uniq_upto(s, n - 1).push(s[n - 1])
    }
}

/// `default`, then the names of `additional.namespaces`.
pub open spec fn ns_names_spec(p: Props) -> Seq<Seq<char>> {
    let all = match lookup_from(p, "additional.namespaces"@, 0) {
        Some(a) => seq!["default"@] + split_spec(a, seq![',']),
        None => seq!["default"@],
    };
    uniq_upto(all, all.len() as int)
}

pub open spec fn vndk_text(vndk: Seq<char>) -> Seq<char> {
    if vndk.len() == 0 || vndk == "default"@ {
        Seq::empty()
    } else {
        seq!['-'] + vndk
    }
}

/// The links of namespace `prefix` from the `i`-th listed one on.
pub open spec fn links_spec(p: Props, names: Seq<Seq<char>>, prefix: Seq<char>, ls: Seq<Seq<char>>, i: int)
    -> Result<Seq<Seq<char>>, ConfigError>
    decreases ls.len() - i,
{
    if i < 0 || i >= ls.len() {
        Ok(Seq::empty())
    } else {
        let l = ls[i];
        let all = get_bool_spec(p, prefix + ".link."@ + l + ".allow_all_shared_libs"@);
        let shared = get_string_spec(p, prefix + ".link."@ + l + ".shared_libs"@);
        if !names.contains(l) {
            Err(ConfigError::UndefinedNamespace)
        } else if !all && shared.len() == 0 {
            Err(ConfigError::NeitherSet)
        } else if all && shared.len() > 0 {
            Err(ConfigError::BothSet)
        } else {
            match links_spec(p, names, prefix, ls, i + 1) {
                Err(e) => Err(e),
                Ok(rest) => Ok(seq![l] + rest),
            }
        }
    }
}

pub struct NsView {
    pub name: Seq<char>,
    pub isolated: bool,
    pub visible: bool,
    pub allowed_libs: Seq<Seq<char>>,
    pub search_dirs: Seq<Seq<char>>,
    pub links: Seq<Seq<char>>,
    pub rules: Seq<(bool, Seq<Seq<char>>)>,
}

/// What each link lets through: all libraries, or the listed ones.
pub open spec fn rules_spec(p: Props, prefix: Seq<char>, ls: Seq<Seq<char>>) -> Seq<(bool, Seq<Seq<char>>)> {
    ls.map_values(|l: Seq<char>| (
        get_bool_spec(p, prefix + ".link."@ + l + ".allow_all_shared_libs"@),
        nonempty_spec(split_spec(get_string_spec(p, prefix + ".link."@ + l + ".shared_libs"@), seq![':'])),
    ))
}

/// The values substituted in search paths.
pub struct Subst {
    pub asan: bool,
    pub sdk: Seq<char>,
    pub vndk: Seq<char>,
    pub lib: Seq<char>,
}

pub open spec fn search_dirs_spec(p: Props, prefix: Seq<char>, sb: Subst) -> Seq<Seq<char>> {
    let sp = if sb.asan { prefix + ".asan"@ } else { prefix };
    let raw = get_string_spec(p, sp + ".search.paths"@);
    let a = replace_spec(raw, "${SDK_VER}"@, sb.sdk);
    let b = replace_spec(a, "${VNDK_VER}"@, vndk_text(sb.vndk));
    let c = replace_spec(b, "${VNDK_APEX_VER}"@, vndk_text(sb.vndk));
    split_spec(replace_spec(c, "${LIB}"@, sb.lib), seq![':'])
}

pub open spec fn ns_spec(p: Props, names: Seq<Seq<char>>, name: Seq<char>, sb: Subst) -> Result<NsView, ConfigError> {
    let prefix = "namespace."@ + name;
    let links = match lookup_from(p, prefix + ".links"@, 0) {
        Some(l) => links_spec(p, names, prefix, split_spec(l, seq![',']), 0),
        None => Ok(Seq::empty()),
    };
    match links {
        Err(e) => Err(e),
        Ok(ls) => Ok(NsView {
            name,
            isolated: get_bool_spec(p, prefix + ".isolated"@),
            visible: get_bool_spec(p, prefix + ".visible"@),
            allowed_libs: nonempty_spec(split_spec(get_string_spec(p, prefix + ".whitelisted"@), seq![':']))
                + nonempty_spec(split_spec(get_string_spec(p, prefix + ".allowed_libs"@), seq![':'])),
            search_dirs: search_dirs_spec(p, prefix, sb),
            links: ls,
            rules: rules_spec(p, prefix, ls),
        }),
    }
}

pub open spec fn build_spec(p: Props, names: Seq<Seq<char>>, sb: Subst, i: int) -> Result<Seq<NsView>, ConfigError>
    decreases names.len() - i,
{
    if i < 0 || i >= names.len() {
        Ok(Seq::empty())
    } else {
        match ns_spec(p, names, names[i], sb) {
            Err(e) => Err(e),
            Ok(v) => match build_spec(p, names, sb, i + 1) {
                Err(e) => Err(e),
                Ok(rest) => Ok(seq![v] + rest),
            },
        }
    }
}

/// A version file's text is used as the SDK level when it is a plain decimal
/// number that fits an `i64`.
pub open spec fn is_decimal(s: Seq<char>) -> bool {
    1 <= s.len() <= 18 && forall|i: int| 0 <= i < s.len() ==> '0' <= #[trigger] s[i] <= '9'
}

/// What the whole file yields for the binary.
pub open spec fn config_spec(
    lines: Seq<Seq<char>>,
    resolved: Seq<Option<Seq<char>>>,
    binary: Seq<char>,
    asan: bool,
    release: AndroidRelease,
    e_machine: u16,
    ei_class: u8,
    vndk: Seq<char>,
    version: Option<Seq<char>>,
) -> Result<Seq<NsView>, ConfigError> {
    if asan && release == AndroidRelease::AndroidR26 {
        Err(ConfigError::AsanUnsupported)
    } else {
        match initial_spec(lines, resolved, binary, 0) {
            Err(e) => Err(e),
            Ok((name, i1)) => match section_spec(lines, name, i1) {
                Err(e) => Err(e),
                Ok(i2) => match props_spec(lines, i2, Seq::empty()) {
                    Err(e) => Err(e),
                    Ok(p) => {
                        let sdk = if get_bool_spec(p, "enable.target.sdk.version"@) {
                            match version {
                                Some(v) => if is_decimal(v) { Some(v) } else { None },
                                None => None,
                            }
                        } else {
                            Some(sdk_text(sdk_spec(release)))
                        };
                        match (sdk, libpath_spec(e_machine, ei_class)) {
                            (None, _) => Err(ConfigError::BadVersionFile),
                            (_, None) => Err(ConfigError::UnsupportedArchitecture),
                            (Some(s), Some(l)) => build_spec(p, ns_names_spec(p), Subst { asan, sdk: s, vndk, lib: l }, 0),
                        }
                    },
                },
            },
        }
    }
}

/// A linker namespace.
#[derive(Debug)]
pub struct NamespaceConfig {
    pub name: String,
    pub isolated: bool,
    pub visible: bool,
    pub allowed_libs: Vec<String>,
    /// The search directories as written, after substitution; the caller
    /// probes them into `search_paths`.
    pub search_dirs: Vec<String>,
    pub search_paths: crate::search_path::SearchPathVec,
    /// The linked namespaces, in order.
    pub namespaces: Vec<String>,
    /// For each link: whether it lets every library through, and the
    /// libraries it lets through otherwise.
    pub link_rules: Vec<LinkRule>,
}

#[derive(Debug)]
pub struct LinkRule {
    pub allow_all: bool,
    pub shared_libs: Vec<String>,
}

pub open spec fn rules_view(v: Seq<LinkRule>) -> Seq<(bool, Seq<Seq<char>>)> {
    v.map_values(|r: LinkRule| (r.allow_all, views(r.shared_libs@)))
}

pub open spec fn ns_view(n: NamespaceConfig) -> NsView {
    NsView {
        name: n.name@,
        isolated: n.isolated,
        visible: n.visible,
        allowed_libs: views(n.allowed_libs@),
        search_dirs: views(n.search_dirs@),
        links: views(n.namespaces@),
        rules: rules_view(n.link_rules@),
    }
}

impl LinkRule {
    /// Does the link let `file` through?
    pub fn allows(&self, file: &str) -> (r: bool)
        ensures
            r == (self.allow_all || views(self.shared_libs@).contains(file@)),
    {
        self.allow_all || contains_name(&self.shared_libs, file)
    }
}

impl NamespaceConfig {
    /// May `file` be loaded in this namespace? A namespace that is not
    /// isolated, or has no allow list, accepts every name.
    pub fn is_accessible(&self, file: &str) -> (r: bool)
        ensures
            r == (!self.isolated || self.allowed_libs@.len() == 0
                || views(self.allowed_libs@).contains(file@)),
    {
        if !self.isolated || self.allowed_libs.len() == 0 {
            return true;
        }
        let mut i: usize = 0;
        while i < self.allowed_libs.len()
            invariant
                i <= self.allowed_libs@.len(),
                forall|k: int| 0 <= k < i ==> self.allowed_libs@[k]@ != file@,
            decreases self.allowed_libs@.len() - i,
        {
            if str_eq(self.allowed_libs[i].as_str(), file) {
                assert(views(self.allowed_libs@)[i as int] == file@);
                return true;
            }
            i = i + 1;
        }
        assert(!views(self.allowed_libs@).contains(file@)) by {
            if views(self.allowed_libs@).contains(file@) {
                let k = choose|k: int| 0 <= k < views(self.allowed_libs@).len() && views(self.allowed_libs@)[k] == file@;
                assert(self.allowed_libs@[k]@ == file@);
            }
        }
        false
    }
}

/// The namespaces of a binary, `default` first.
#[derive(Debug)]
pub struct LdCache {
    pub namespaces_config: Vec<NamespaceConfig>,
}

impl LdCache {
    pub fn get_namespace(&self, name: &str) -> (r: Option<&NamespaceConfig>)
        ensures
            match r {
                Some(n) => exists|i: int| 0 <= i < self.namespaces_config@.len() && self.namespaces_config@[i] == *n
                    && n.name@ == name@,
                None => forall|i: int| 0 <= i < self.namespaces_config@.len() ==> self.namespaces_config@[i].name@ != name@,
            },
    {
        let mut i: usize = 0;
        while i < self.namespaces_config.len()
            invariant
                i <= self.namespaces_config@.len(),
                forall|k: int| 0 <= k < i ==> self.namespaces_config@[k].name@ != name@,
            decreases self.namespaces_config@.len() - i,
        {
            if str_eq(self.namespaces_config[i].name.as_str(), name) {
                return Some(&self.namespaces_config[i]);
            }
            i = i + 1;
        }
        None
    }

    pub fn get_default_namespace(&self) -> (r: Option<&NamespaceConfig>)
        ensures
            match r {
                Some(n) => n.name@ == "default"@,
                None => forall|i: int| 0 <= i < self.namespaces_config@.len() ==> self.namespaces_config@[i].name@ != "default"@,
            },
    {
        self.get_namespace("default")
    }
}

fn cat3(a: &str, b: &str, c: &str) -> (r: String)
    ensures
        r@ == a@ + b@ + c@,
{
    String::from_str(a).concat(b).concat(c)
}

fn contains_name(v: &Vec<String>, x: &str) -> (r: bool)
    ensures
        r == views(v@).contains(x@),
{
    let mut i: usize = 0;
    while i < v.len()
        invariant
            i <= v@.len(),
            forall|k: int| 0 <= k < i ==> v@[k]@ != x@,
        decreases v@.len() - i,
    {
        if str_eq(v[i].as_str(), x) {
            assert(views(v@)[i as int] == x@);
            return true;
        }
        i = i + 1;
    }
    assert(!views(v@).contains(x@)) by {
        if views(v@).contains(x@) {
            let k = choose|k: int| 0 <= k < views(v@).len() && views(v@)[k] == x@;
            assert(v@[k]@ == x@);
        }
    }
    false
}

fn ns_names(p: &Properties) -> (r: Vec<String>)
    ensures
        views(r@) == ns_names_spec(pairs_view(p.properties@)),
{
    let mut all: Vec<String> = Vec::new();
    all.push(String::from_str("default"));
    match p.get("additional.namespaces") {
        Some(a) => {
            let c = [','];
            assert(c@ =~= seq![',']);
            let parts = split(a.as_str(), c.as_slice());
            let mut k: usize = 0;
            while k < parts.len()
                invariant
                    k <= parts@.len(),
                    views(all@) == seq!["default"@] + views(parts@).take(k as int),
                decreases parts@.len() - k,
            {
                let ghost before = views(all@);
                all.push(parts[k].clone());
                assert(views(all@) =~= before.push(parts@[k as int]@));
                assert(views(parts@).take(k + 1) =~= views(parts@).take(k as int).push(parts@[k as int]@));
                assert(views(all@) =~= seq!["default"@] + views(parts@).take(k + 1));
                k = k + 1;
            }
            assert(views(parts@).take(k as int) =~= views(parts@));
        },
        None => {
            assert(views(all@) =~= seq!["default"@]);
        },
    }
    let ghost av = views(all@);
    let mut r: Vec<String> = Vec::new();
    let mut i: usize = 0;
    assert(views(r@) =~= Seq::<Seq<char>>::empty());
    while i < all.len()
        invariant
            i <= all@.len(),
            av == views(all@),
            views(r@) == uniq_upto(av, i as int),
        decreases all@.len() - i,
    {
        if !contains_name(&r, all[i].as_str()) {
            let ghost before = views(r@);
            r.push(all[i].clone());
            assert(views(r@) =~= before.push(av[i as int]));
        }
        i = i + 1;
    }
    r
}

fn links(p: &Properties, names: &Vec<String>, prefix: &str, ls: &Vec<String>) -> (r: Result<Vec<String>, ConfigError>)
    ensures
        match r {
            Ok(v) => links_spec(pairs_view(p.properties@), views(names@), prefix@, views(ls@), 0) == Ok::<Seq<Seq<char>>, ConfigError>(views(v@)),
            Err(e) => links_spec(pairs_view(p.properties@), views(names@), prefix@, views(ls@), 0) == Err::<Seq<Seq<char>>, ConfigError>(e),
        },
{
    let ghost pv = pairs_view(p.properties@);
    let mut out: Vec<String> = Vec::new();
    let mut i: usize = 0;
    assert(views(out@) =~= Seq::<Seq<char>>::empty());
    while i < ls.len()
        invariant
            i <= ls@.len(),
            pv == pairs_view(p.properties@),
            links_spec(pv, views(names@), prefix@, views(ls@), 0) == match links_spec(pv, views(names@), prefix@, views(ls@), i as int) {
                Err(e) => Err(e),
                Ok(rest) => Ok(views(out@) + rest),
            },
        decreases ls@.len() - i,
    {
        let l = ls[i].as_str();
        let a = String::from_str(prefix).concat(".link.").concat(l).concat(".allow_all_shared_libs");
        let s = String::from_str(prefix).concat(".link.").concat(l).concat(".shared_libs");
        let all = p.get_bool(a.as_str());
        let shared = p.get_string(s.as_str());
        if !contains_name(names, l) {
            return Err(ConfigError::UndefinedNamespace);
        }
        let empty = char_len(shared.as_str()) == 0;
        if !all && empty {
            return Err(ConfigError::NeitherSet);
        }
        if all && !empty {
            return Err(ConfigError::BothSet);
        }
        let ghost before = views(out@);
        out.push(ls[i].clone());
        proof {
            match links_spec(pv, views(names@), prefix@, views(ls@), i + 1) {
                Err(_) => {},
                Ok(rest) => {
                    assert(before + (seq![l@] + rest) =~= views(out@) + rest);
                },
            }
        }
        i = i + 1;
    }
    assert(views(out@) + Seq::<Seq<char>>::empty() =~= views(out@));
    Ok(out)
}

fn colon_list(s: &str) -> (r: Vec<String>)
    ensures
        views(r@) == nonempty_spec(split_spec(s@, seq![':'])),
{
    let c = [':'];
    assert(c@ =~= seq![':']);
    let parts = split(s, c.as_slice());
    let mut r: Vec<String> = Vec::new();
    let mut i: usize = 0;
    assert(views(r@) =~= Seq::<Seq<char>>::empty());
    while i < parts.len()
        invariant
            i <= parts@.len(),
            views(r@) == nonempty_upto(views(parts@), i as int),
        decreases parts@.len() - i,
    {
        if char_len(parts[i].as_str()) > 0 {
            let ghost before = views(r@);
            r.push(parts[i].clone());
            assert(views(r@) =~= before.push(parts@[i as int]@));
        }
        i = i + 1;
    }
    r
}

fn search_dirs(p: &Properties, prefix: &str, asan: bool, sdk: &str, vndk: &str, lib: &str) -> (r: Vec<String>)
    ensures
        views(r@) == search_dirs_spec(pairs_view(p.properties@), prefix@, Subst { asan, sdk: sdk@, vndk: vndk@, lib: lib@ }),
{
    proof {
        reveal_strlit("${SDK_VER}");
        reveal_strlit("${VNDK_VER}");
        reveal_strlit("${VNDK_APEX_VER}");
        reveal_strlit("${LIB}");
    }
    let sp = if asan { String::from_str(prefix).concat(".asan") } else { String::from_str(prefix) };
    let key = sp.concat(".search.paths");
    let raw = p.get_string(key.as_str());
    let vt = if char_len(vndk) == 0 || str_eq(vndk, "default") {
        String::new()
    } else {
        proof {
            reveal_strlit("-");
            assert("-"@ =~= seq!['-']);
        }
        String::from_str("-").concat(vndk)
    };
    assert(vt@ == vndk_text(vndk@));
    let a = replace(raw.as_str(), "${SDK_VER}", sdk);
    let b = replace(a.as_str(), "${VNDK_VER}", vt.as_str());
    let c = replace(b.as_str(), "${VNDK_APEX_VER}", vt.as_str());
    let d = replace(c.as_str(), "${LIB}", lib);
    let col = [':'];
    assert(col@ =~= seq![':']);
    split(d.as_str(), col.as_slice())
}

#[verifier::rlimit(30)]
fn namespace(p: &Properties, names: &Vec<String>, name: &str, asan: bool, sdk: &str, vndk: &str, lib: &str)
    -> (r: Result<NamespaceConfig, ConfigError>)
    ensures
        match r {
            Ok(n) => ns_spec(pairs_view(p.properties@), views(names@), name@, Subst { asan, sdk: sdk@, vndk: vndk@, lib: lib@ })
                == Ok::<NsView, ConfigError>(ns_view(n)),
            Err(e) => ns_spec(pairs_view(p.properties@), views(names@), name@, Subst { asan, sdk: sdk@, vndk: vndk@, lib: lib@ })
                == Err::<NsView, ConfigError>(e),
        },
{
    let prefix = String::from_str("namespace.").concat(name);
    let lk = prefix.clone().concat(".links");
    let ls = match p.get(lk.as_str()) {
        Some(l) => {
            let c = [','];
            assert(c@ =~= seq![',']);
            let listed = split(l.as_str(), c.as_slice());
            match links(p, names, prefix.as_str(), &listed) {
                Ok(v) => v,
                Err(e) => {
                    return Err(e);
                },
            }
        },
        None => {
            let v: Vec<String> = Vec::new();
            assert(views(v@) =~= Seq::<Seq<char>>::empty());
            v
        },
    };
    let isolated = p.get_bool(prefix.clone().concat(".isolated").as_str());
    let visible = p.get_bool(prefix.clone().concat(".visible").as_str());
    let mut allowed = colon_list(p.get_string(prefix.clone().concat(".whitelisted").as_str()).as_str());
    let mut more = colon_list(p.get_string(prefix.clone().concat(".allowed_libs").as_str()).as_str());
    let ghost a0 = views(allowed@);
    let ghost m0 = views(more@);
    allowed.append(&mut more);
    assert(views(allowed@) =~= a0 + m0);
    let dirs = search_dirs(p, prefix.as_str(), asan, sdk, vndk, lib);
    let ghost pv = pairs_view(p.properties@);
    let mut rules: Vec<LinkRule> = Vec::new();
    let mut i: usize = 0;
    assert(rules_view(rules@) =~= rules_spec(pv, prefix@, views(ls@).take(0)));
    while i < ls.len()
        invariant
            i <= ls@.len(),
            pv == pairs_view(p.properties@),
            rules_view(rules@) == rules_spec(pv, prefix@, views(ls@).take(i as int)),
        decreases ls@.len() - i,
    {
        let l = ls[i].as_str();
        let a = String::from_str(prefix.as_str()).concat(".link.").concat(l).concat(".allow_all_shared_libs");
        let sh = String::from_str(prefix.as_str()).concat(".link.").concat(l).concat(".shared_libs");
        let allow_all = p.get_bool(a.as_str());
        let shared_libs = colon_list(p.get_string(sh.as_str()).as_str());
        let ghost before = rules_view(rules@);
        let ghost entry = (allow_all, views(shared_libs@));
        rules.push(LinkRule { allow_all, shared_libs });
        assert(rules_view(rules@) =~= before.push(entry));
        assert(views(ls@).take(i + 1) =~= views(ls@).take(i as int).push(ls@[i as int]@));
        assert(rules_view(rules@) =~= rules_spec(pv, prefix@, views(ls@).take(i + 1)));
        i = i + 1;
    }
    assert(views(ls@).take(i as int) =~= views(ls@));
    Ok(NamespaceConfig {
        name: String::from_str(name),
        isolated,
        visible,
        allowed_libs: allowed,
        search_dirs: dirs,
        search_paths: Vec::new(),
        namespaces: ls,
        link_rules: rules,
    })
}


pub open spec fn opt_views(v: Seq<Option<String>>) -> Seq<Option<Seq<char>>> {
    v.map_values(|o: Option<String>| opt_view(o))
}

fn initial_section(lines: &Vec<String>, resolved: &Vec<Option<String>>, binary: &str) -> (r: Result<(String, usize), ConfigError>)
    ensures
        match r {
            Ok((n, i)) => initial_spec(views(lines@), opt_views(resolved@), binary@, 0) == Ok::<(Seq<char>, int), ConfigError>((n@, i as int)),
            Err(e) => initial_spec(views(lines@), opt_views(resolved@), binary@, 0) == Err::<(Seq<char>, int), ConfigError>(e),
        },
{
    let ghost lv = views(lines@);
    let ghost rv = opt_views(resolved@);
    let mut i: usize = 0;
    while i < lines.len()
        invariant
            i <= lines@.len(),
            lv == views(lines@),
            rv == opt_views(resolved@),
            initial_spec(lv, rv, binary@, 0) == initial_spec(lv, rv, binary@, i as int),
        decreases lines@.len() - i,
    {
        match next_token(lines[i].as_str()) {
            Some((Token::Section, _)) => {
                return Err(ConfigError::NoInitialSection);
            },
            Some((Token::PropertyAssign, l)) => {
                match parse_assignment(l.as_str()) {
                    None => {
                        return Err(ConfigError::InvalidAssignment);
                    },
                    Some((k, _)) => {
                        if starts_with(k.as_str(), "dir.") && i < resolved.len() {
                            match &resolved[i] {
                                Some(rp) => {
                                    if path_starts_with(binary, rp.as_str()) {
                                        let n = char_len(k.as_str());
                                        proof {
                                            reveal_strlit("dir.");
                                        }
                                        let name = String::from_str(k.as_str().substring_char(4, n));
                                        assert(name@ =~= k@.skip(4));
                                        return Ok((name, i + 1));
                                    }
                                },
                                None => {},
                            }
                        }
                    },
                }
            },
            _ => {},
        }
        i = i + 1;
    }
    Err(ConfigError::NoInitialSection)
}

fn find_section(lines: &Vec<String>, name: &str, start: usize) -> (r: Result<usize, ConfigError>)
    ensures
        match r {
            Ok(i) => section_spec(views(lines@), name@, start as int) == Ok::<int, ConfigError>(i as int),
            Err(e) => section_spec(views(lines@), name@, start as int) == Err::<int, ConfigError>(e),
        },
{
    let ghost lv = views(lines@);
    let mut i: usize = start;
    if i > lines.len() {
        return Err(ConfigError::NoSection);
    }
    while i < lines.len()
        invariant
            i <= lines@.len(),
            lv == views(lines@),
            section_spec(lv, name@, start as int) == section_spec(lv, name@, i as int),
        decreases lines@.len() - i,
    {
        match next_token(lines[i].as_str()) {
            Some((Token::Section, s)) => {
                if str_eq(s.as_str(), name) {
                    return Ok(i + 1);
                }
            },
            Some((Token::Error, _)) => {
                return Err(ConfigError::NoSection);
            },
            _ => {},
        }
        i = i + 1;
    }
    Err(ConfigError::NoSection)
}

#[verifier::rlimit(30)]
fn read_properties(lines: &Vec<String>, start: usize) -> (r: Result<Properties, ConfigError>)
    ensures
        match r {
            Ok(p) => props_spec(views(lines@), start as int, Seq::empty()) == Ok::<Props, ConfigError>(pairs_view(p.properties@)),
            Err(e) => props_spec(views(lines@), start as int, Seq::empty()) == Err::<Props, ConfigError>(e),
        },
{
    let ghost lv = views(lines@);
    let mut p = Properties::new();
    if start > lines.len() {
        return Ok(p);
    }
    let mut i: usize = start;
    while i < lines.len()
        invariant
            i <= lines@.len(),
            lv == views(lines@),
            props_spec(lv, start as int, Seq::empty()) == props_spec(lv, i as int, pairs_view(p.properties@)),
        decreases lines@.len() - i,
    {
        match next_token(lines[i].as_str()) {
            None => {},
            Some((Token::PropertyAssign, l)) => {
                match parse_assignment(l.as_str()) {
                    None => {
                        return Err(ConfigError::InvalidAssignment);
                    },
                    Some((k, v)) => {
                        p.add(k, v);
                    },
                }
            },
            Some((Token::PropertyAppend, l)) => {
                match parse_append(l.as_str()) {
                    None => {
                        return Err(ConfigError::InvalidAppend);
                    },
                    Some((k, v)) => {
                        p.append(k, v);
                    },
                }
            },
            _ => {
                return Ok(p);
            },
        }
        i = i + 1;
    }
    Ok(p)
}

fn decimal(s: &str) -> (r: bool)
    ensures
        r == is_decimal(s@),
{
    let n = char_len(s);
    if n < 1 || n > 18 {
        return false;
    }
    let mut i: usize = 0;
    while i < n
        invariant
            i <= n,
            n == s@.len(),
            forall|k: int| 0 <= k < i ==> '0' <= #[trigger] s@[k] <= '9',
        decreases n - i,
    {
        let c = s.get_char(i);
        if c < '0' || c > '9' {
            return false;
        }
        i = i + 1;
    }
    true
}

/// Read the configuration for a binary. `lines` is the file; `resolved[i]`
/// is the canonical form of the path on line `i` when that line is a
/// `dir.NAME` assignment (see `dir_assignment`); `vndk` is the
/// `ro.vndk.version` property and `version` the text of the `.version` file
/// beside the binary, if it could be read.
#[verifier::rlimit(30)]
pub fn parse_ld_config_txt(
    lines: &Vec<String>,
    resolved: &Vec<Option<String>>,
    binary: &str,
    interp: &str,
    release: AndroidRelease,
    e_machine: u16,
    ei_class: u8,
    vndk: &str,
    version: &Option<String>,
) -> (r: Result<LdCache, ConfigError>)
    ensures
        match r {
            Ok(c) => config_spec(views(lines@), opt_views(resolved@), binary@, is_asan_spec(interp@), release, e_machine,
                ei_class, vndk@, opt_view(*version)) == Ok::<Seq<NsView>, ConfigError>(
                c.namespaces_config@.map_values(|n: NamespaceConfig| ns_view(n))),
            Err(e) => config_spec(views(lines@), opt_views(resolved@), binary@, is_asan_spec(interp@), release, e_machine,
                ei_class, vndk@, opt_view(*version)) == Err::<Seq<NsView>, ConfigError>(e),
        },
{
    let asan = is_asan(interp);
    if asan && release == AndroidRelease::AndroidR26 {
        return Err(ConfigError::AsanUnsupported);
    }
    let (name, i1) = match initial_section(lines, resolved, binary) {
        Ok(x) => x,
        Err(e) => {
            return Err(e);
        },
    };
    let i2 = match find_section(lines, name.as_str(), i1) {
        Ok(i) => i,
        Err(e) => {
            return Err(e);
        },
    };
    let p = match read_properties(lines, i2) {
        Ok(p) => p,
        Err(e) => {
            return Err(e);
        },
    };
    let sdk = if p.get_bool("enable.target.sdk.version") {
        match version {
            Some(v) => {
                if decimal(v.as_str()) {
                    v.clone()
                } else {
                    return Err(ConfigError::BadVersionFile);
                }
            },
            None => {
                return Err(ConfigError::BadVersionFile);
            },
        }
    } else {
        release.to_text()
    };
    let lib = match libpath(e_machine, ei_class) {
        Some(l) => l,
        None => {
            return Err(ConfigError::UnsupportedArchitecture);
        },
    };
    let names = ns_names(&p);
    let ghost pv = pairs_view(p.properties@);
    let ghost sb = Subst { asan, sdk: sdk@, vndk: vndk@, lib: lib@ };
    let ghost whole = config_spec(views(lines@), opt_views(resolved@), binary@, is_asan_spec(interp@), release, e_machine,
        ei_class, vndk@, opt_view(*version));
    assert(whole == build_spec(pv, views(names@), sb, 0));
    let mut out: Vec<NamespaceConfig> = Vec::new();
    let mut i: usize = 0;
    assert(out@.map_values(|n: NamespaceConfig| ns_view(n)) =~= Seq::<NsView>::empty());
    while i < names.len()
        invariant
            i <= names@.len(),
            whole == build_spec(pv, views(names@), sb, 0),
            whole == config_spec(views(lines@), opt_views(resolved@), binary@, is_asan_spec(interp@), release, e_machine,
                ei_class, vndk@, opt_view(*version)),
            pv == pairs_view(p.properties@),
            sb == (Subst { asan, sdk: sdk@, vndk: vndk@, lib: lib@ }),
            build_spec(pv, views(names@), sb, 0) == match build_spec(pv, views(names@), sb, i as int) {
                Err(e) => Err(e),
                Ok(rest) => Ok(out@.map_values(|n: NamespaceConfig| ns_view(n)) + rest),
            },
        decreases names@.len() - i,
    {
        assert(views(names@)[i as int] == names@[i as int]@);
        let ns = match namespace(&p, &names, names[i].as_str(), asan, sdk.as_str(), vndk, lib.as_str()) {
            Ok(ns) => ns,
            Err(e) => {
                assert(build_spec(pv, views(names@), sb, i as int) == Err::<Seq<NsView>, ConfigError>(e));
                return Err(e);
            },
        };
        let ghost before = out@.map_values(|n: NamespaceConfig| ns_view(n));
        let ghost nv = ns_view(ns);
        out.push(ns);
        assert(out@.map_values(|n: NamespaceConfig| ns_view(n)) =~= before.push(nv));
        proof {
            match build_spec(pv, views(names@), sb, i + 1) {
                Err(_) => {},
                Ok(rest) => {
                    assert(before + (seq![nv] + rest) =~= before.push(nv) + rest);
                },
            }
        }
        i = i + 1;
    }
    assert(out@.map_values(|n: NamespaceConfig| ns_view(n)) + Seq::<NsView>::empty()
        =~= out@.map_values(|n: NamespaceConfig| ns_view(n)));
    Ok(LdCache { namespaces_config: out })
}


/// The name of the APEX module a binary at `/apex/<name>/bin/<file>` belongs to.
pub open spec fn apex_name(binary: Seq<char>) -> Option<Seq<char>> {
    let p = split_spec(binary, seq!['/']);
    if p.len() == 5 && p[0].len() == 0 && p[1] == "apex"@ && p[3] == "bin"@ {
        Some(p[2])
    } else {
        None
    }
}

pub open spec fn vndk_config_spec(vndk_lite: bool, vndk: Seq<char>) -> Seq<char> {
    if vndk_lite {
        "/system/etc/ld.config.vndk_lite.txt"@
    } else if vndk.len() == 0 || vndk == "default"@ {
        "/system/etc/ld.config.txt"@
    } else {
        "/system/etc/ld.config."@ + vndk + ".txt"@
    }
}

/// The files to look for, in order, for the per-ABI and VNDK layouts.
pub open spec fn vndk_paths_spec(e_machine: u16, ei_class: u8, linkerconfig: bool, vndk_lite: bool, vndk: Seq<char>) -> Seq<Seq<char>> {
    let a = match abi_string_spec(e_machine, ei_class) {
        Some(abi) => seq!["/system/etc/ld.config."@ + abi + ".txt"@],
        None => Seq::empty(),
    };
    let b = if linkerconfig { seq!["/linkerconfig/ld.config.txt"@] } else { Seq::empty() };
    a + b + seq![vndk_config_spec(vndk_lite, vndk)]
}

pub open spec fn apex_paths_spec(binary: Seq<char>, linkerconfig: bool) -> Seq<Seq<char>> {
    match apex_name(binary) {
        Some(n) => if linkerconfig {
            seq!["/linkerconfig/"@ + n + "/ld.config.txt"@, "/apex/"@ + n + "/etc/ld.config.txt"@]
        } else {
            seq!["/apex/"@ + n + "/etc/ld.config.txt"@]
        },
        None => Seq::empty(),
    }
}

/// Where the configuration of a binary may be: the files to try in order, and
/// the file to use when none of them exists; `None` for releases without one.
pub open spec fn config_paths_spec(release: AndroidRelease, binary: Seq<char>, e_machine: u16, ei_class: u8,
    vndk_lite: bool, vndk: Seq<char>) -> Option<(Seq<Seq<char>>, Seq<char>)>
{
    let default = "/system/etc/ld.config.txt"@;
    match release {
        AndroidRelease::AndroidR24 | AndroidRelease::AndroidR25 => None,
        AndroidRelease::AndroidR26 | AndroidRelease::AndroidR27 => Some((Seq::empty(), default)),
        AndroidRelease::AndroidR28 => Some((vndk_paths_spec(e_machine, ei_class, false, vndk_lite, vndk), default)),
        AndroidRelease::AndroidR29 => Some((apex_paths_spec(binary, false)
            + vndk_paths_spec(e_machine, ei_class, false, vndk_lite, vndk), default)),
        _ => Some((apex_paths_spec(binary, true) + vndk_paths_spec(e_machine, ei_class, true, vndk_lite, vndk), default)),
    }
}

fn vndk_paths(e_machine: u16, ei_class: u8, linkerconfig: bool, vndk_lite: bool, vndk: &str) -> (r: Vec<String>)
    ensures
        views(r@) == vndk_paths_spec(e_machine, ei_class, linkerconfig, vndk_lite, vndk@),
{
    let mut r: Vec<String> = Vec::new();
    match abi_string(e_machine, ei_class) {
        Some(abi) => {
            r.push(cat3("/system/etc/ld.config.", abi.as_str(), ".txt"));
        },
        None => {},
    }
    let ghost a = views(r@);
    if linkerconfig {
        r.push(String::from_str("/linkerconfig/ld.config.txt"));
    }
    let ghost ab = views(r@);
    let v = if vndk_lite {
        String::from_str("/system/etc/ld.config.vndk_lite.txt")
    } else if char_len(vndk) == 0 || str_eq(vndk, "default") {
        String::from_str("/system/etc/ld.config.txt")
    } else {
        cat3("/system/etc/ld.config.", vndk, ".txt")
    };
    r.push(v);
    assert(views(r@) =~= vndk_paths_spec(e_machine, ei_class, linkerconfig, vndk_lite, vndk@));
    r
}

fn apex_paths(binary: &str, linkerconfig: bool) -> (r: Vec<String>)
    ensures
        views(r@) == apex_paths_spec(binary@, linkerconfig),
{
    let mut r: Vec<String> = Vec::new();
    let sl = ['/'];
    assert(sl@ =~= seq!['/']);
    let p = split(binary, sl.as_slice());
    if p.len() == 5 && char_len(p[0].as_str()) == 0 && str_eq(p[1].as_str(), "apex") && str_eq(p[3].as_str(), "bin") {
        let n = p[2].as_str();
        if linkerconfig {
            r.push(cat3("/linkerconfig/", n, "/ld.config.txt"));
        }
        r.push(cat3("/apex/", n, "/etc/ld.config.txt"));
    }
    assert(views(r@) =~= apex_paths_spec(binary@, linkerconfig));
    r
}

/// The candidate configuration files for a binary (see `config_paths_spec`);
/// the caller takes the first that exists, else the fallback.
pub fn get_ld_config_path(release: AndroidRelease, binary: &str, e_machine: u16, ei_class: u8, vndk_lite: bool, vndk: &str)
    -> (r: Option<(Vec<String>, String)>)
    ensures
        match r {
            Some((v, d)) => config_paths_spec(release, binary@, e_machine, ei_class, vndk_lite, vndk@) == Some((views(v@), d@)),
            None => config_paths_spec(release, binary@, e_machine, ei_class, vndk_lite, vndk@) is None,
        },
{
    let default = String::from_str("/system/etc/ld.config.txt");
    match release {
        AndroidRelease::AndroidR24 | AndroidRelease::AndroidR25 => None,
        AndroidRelease::AndroidR26 | AndroidRelease::AndroidR27 => {
            let v: Vec<String> = Vec::new();
            assert(views(v@) =~= Seq::<Seq<char>>::empty());
            Some((v, default))
        },
        AndroidRelease::AndroidR28 => Some((vndk_paths(e_machine, ei_class, false, vndk_lite, vndk), default)),
        AndroidRelease::AndroidR29 => {
            let mut v = apex_paths(binary, false);
            let mut w = vndk_paths(e_machine, ei_class, false, vndk_lite, vndk);
            let ghost (a, b) = (views(v@), views(w@));
            v.append(&mut w);
            assert(views(v@) =~= a + b);
            Some((v, default))
        },
        _ => {
            let mut v = apex_paths(binary, true);
            let mut w = vndk_paths(e_machine, ei_class, true, vndk_lite, vndk);
            let ghost (a, b) = (views(v@), views(w@));
            v.append(&mut w);
            assert(views(v@) =~= a + b);
            Some((v, default))
        },
    }
}

} // verus!
