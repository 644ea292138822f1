//! Rendering of the dependency tree as coloured text segments; the caller
//! writes them to the terminal.
use vstd::prelude::*;
use crate::deptree::{DepMode, DepTree, Node, opt_view};
use crate::system_dirs::Os;

verus! {

#[derive(PartialEq, Eq, Structural, Clone, Copy, Debug)]
pub enum Color {
    Plain,
    Cyan,
    Magenta,
    Yellow,
    Red,
}

/// A piece of output text with its colour and weight.
#[derive(Debug)]
pub struct Segment {
    pub text: String,
    pub color: Color,
    pub bold: bool,
}

pub struct SegView {
    pub text: Seq<char>,
    pub color: Color,
    pub bold: bool,
}

pub open spec fn segs_view(v: Seq<Segment>) -> Seq<SegView> {
    v.map_values(|s: Segment| SegView { text: s.text@, color: s.color, bold: s.bold })
}

/// Output options: `pp` prints resolved paths, `ldd` the flat `ldd` form,
/// `one` that a single file is being printed.
pub struct Printer {
    pub pp: bool,
    pub ldd: bool,
    pub one: bool,
}

pub open spec fn label_spec(m: DepMode, os: Os) -> Seq<char> {
    match m {
        DepMode::Preload => "[preload]"@,
        DepMode::Direct => "[direct]"@,
        DepMode::DtRpath => "[rpath]"@,
        DepMode::LdLibraryPath => if os == Os::MacOs { "[DYLD_LIBRARY_PATH]"@ } else { "[LD_LIBRARY_PATH]"@ },
        DepMode::DtRunpath => "[runpath]"@,
        DepMode::LdCache => match os {
            Os::Linux => "[ld.so.cache]"@,
            Os::FreeBsd => "[ld-elf.so.hints]"@,
            Os::OpenBsd => "[ld-so.hints]"@,
            Os::NetBsd => "[ld.so.conf]"@,
            Os::MacOs => "[dyld cache]"@,
            _ => "[unknown]"@,
        },
        DepMode::SystemDirs => "[system default paths]"@,
        DepMode::Executable => ""@,
        DepMode::NotFound => "[not found]"@,
    }
}

/// The tag printed after a dependency.
pub fn label(m: DepMode, os: Os) -> (r: String)
    ensures
        r@ == label_spec(m, os),
{
    let s = match m {
        DepMode::Preload => "[preload]",
        DepMode::Direct => "[direct]",
        DepMode::DtRpath => "[rpath]",
        DepMode::LdLibraryPath => if os == Os::MacOs { "[DYLD_LIBRARY_PATH]" } else { "[LD_LIBRARY_PATH]" },
        DepMode::DtRunpath => "[runpath]",
        DepMode::LdCache => match os {
            Os::Linux => "[ld.so.cache]",
            Os::FreeBsd => "[ld-elf.so.hints]",
            Os::OpenBsd => "[ld-so.hints]",
            Os::NetBsd => "[ld.so.conf]",
            Os::MacOs => "[dyld cache]",
            _ => "[unknown]",
        },
        DepMode::SystemDirs => "[system default paths]",
        DepMode::Executable => "",
        DepMode::NotFound => "[not found]",
    };
    String::from_str(s)
}

fn seg(text: String, color: Color, bold: bool) -> (r: Segment)
    ensures
        r.text@ == text@,
        r.color == color,
        r.bold == bold,
{
    Segment { text, color, bold }
}

fn cat(a: &str, b: &str) -> (r: String)
    ensures
        r@ == a@ + b@,
{
    String::from_str(a).concat(b)
}

impl Printer {
    pub fn new(pp: bool, ldd: bool, one: bool) -> (r: Printer)
        ensures
            r.pp == pp,
            r.ldd == ldd,
            r.one == one,
    {
        Printer { pp, ldd, one }
    }

    /// The guides: `|  ` or three blanks for each ancestor level (whether it
    /// has a following sibling), then `\\_ `.
    pub fn preamble(&self, deptrace: &Vec<bool>) -> (r: String)
        requires
            deptrace@.len() >= 1,
        ensures
            r@ == guides(deptrace@, deptrace@.len() - 1) + "\\_ "@,
    {
        let mut s = String::new();
        let n = deptrace.len() - 1;
        let mut i: usize = 0;
        while i < n
            invariant
                i <= n,
                n == deptrace@.len() - 1,
                s@ == guides(deptrace@, i as int),
            decreases n - i,
        {
            if deptrace[i] {
                s.append("|  ");
            } else {
                s.append("   ");
            }
            i = i + 1;
        }
        s.append("\\_ ");
        s
    }

    fn entry(&self, out: &mut Vec<Segment>, name: &str, path: &str, mode: &str, found: bool)
        ensures
            segs_view(final(out)@) == segs_view(old(out)@) + entry_spec(*self, name@, path@, mode@, found),
    {
        let ghost start = segs_view(out@);
        let color = if found { Color::Magenta } else { Color::Cyan };
        if self.pp {
            out.push(seg(cat(path, "/"), color, false));
        }
        out.push(seg(String::from_str(name), color, !found));
        let tail = cat(" ", mode).concat("\n");
        out.push(seg(tail, if found { Color::Magenta } else { Color::Yellow }, false));
        assert(segs_view(out@) =~= start + entry_spec(*self, name@, path@, mode@, found));
    }

    /// A resolved dependency: `name => path/name` in ldd form, else the
    /// guides and the entry.
    pub fn print_dependency(&self, name: &str, path: &str, mode: &str, deptrace: &Vec<bool>) -> (r: Vec<Segment>)
        requires
            deptrace@.len() >= 1,
        ensures
            self.ldd ==> segs_view(r@) == seq![SegView {
                text: "        "@ + name@ + " => "@ + path@ + "/"@ + name@ + "\n"@,
                color: Color::Plain,
                bold: false,
            }],
            !self.ldd ==> segs_view(r@) == seq![SegView {
                text: guides(deptrace@, deptrace@.len() - 1) + "\\_ "@,
                color: Color::Plain,
                bold: false,
            }] + entry_spec(*self, name@, path@, mode@, false),
    {
        let mut out: Vec<Segment> = Vec::new();
        if self.ldd {
            let t = cat("        ", name).concat(" => ").concat(path).concat("/").concat(name).concat("\n");
            out.push(seg(t, Color::Plain, false));
            assert(segs_view(out@) =~= seq![SegView {
                text: "        "@ + name@ + " => "@ + path@ + "/"@ + name@ + "\n"@,
                color: Color::Plain,
                bold: false,
            }]);
            return out;
        }
        out.push(seg(self.preamble(deptrace), Color::Plain, false));
        let ghost first = segs_view(out@);
        self.entry(&mut out, name, path, mode, false);
        out
    }

    /// A back-reference to a dependency already shown.
    pub fn print_already_found(&self, name: &str, path: &str, mode: &str, deptrace: &Vec<bool>) -> (r: Vec<Segment>)
        requires
            deptrace@.len() >= 1,
        ensures
            segs_view(r@) == seq![SegView {
                text: guides(deptrace@, deptrace@.len() - 1) + "\\_ "@,
                color: Color::Plain,
                bold: false,
            }] + entry_spec(*self, name@, path@, mode@, true),
    {
        let mut out: Vec<Segment> = Vec::new();
        out.push(seg(self.preamble(deptrace), Color::Plain, false));
        self.entry(&mut out, name, path, mode, true);
        out
    }

    /// A dependency that was not found.
    pub fn print_not_found(&self, name: &str, deptrace: &Vec<bool>) -> (r: Vec<Segment>)
        requires
            deptrace@.len() >= 1,
        ensures
            segs_view(r@) == seq![
                SegView { text: guides(deptrace@, deptrace@.len() - 1) + "\\_ "@, color: Color::Plain, bold: false },
                SegView { text: name@ + " not found\n"@, color: Color::Red, bold: true },
            ],
    {
        let mut out: Vec<Segment> = Vec::new();
        out.push(seg(self.preamble(deptrace), Color::Plain, false));
        out.push(seg(cat(name, " not found\n"), Color::Red, true));
        assert(segs_view(out@) =~= seq![
            SegView { text: guides(deptrace@, deptrace@.len() - 1) + "\\_ "@, color: Color::Plain, bold: false },
            SegView { text: name@ + " not found\n"@, color: Color::Red, bold: true },
        ]);
        out
    }

    /// The header line naming the binary.
    pub fn print_executable(&self, path: &Option<String>, name: &str) -> (r: Vec<Segment>)
        ensures
            self.ldd && self.one ==> r@.len() == 0,
            !(self.ldd && self.one) ==> segs_view(r@) == (match opt_view(*path) {
                Some(p) => seq![SegView { text: p + "/"@, color: if self.ldd { Color::Plain } else { Color::Cyan }, bold: false }],
                None => Seq::empty(),
            }) + seq![SegView {
                text: name@ + (if self.ldd { ":\n"@ } else { "\n"@ }),
                color: if self.ldd { Color::Plain } else { Color::Cyan },
                bold: false,
            }],
    {
        let mut out: Vec<Segment> = Vec::new();
        if self.ldd && self.one {
            return out;
        }
        let color = if self.ldd { Color::Plain } else { Color::Cyan };
        match path {
            Some(p) => {
                out.push(seg(cat(p.as_str(), "/"), color, false));
            },
            None => {},
        }
        let ghost first = segs_view(out@);
        let line = if self.ldd { cat(name, ":\n") } else { cat(name, "\n") };
        out.push(seg(line, color, false));
        assert(segs_view(out@) =~= first.push(SegView {
            text: name@ + (if self.ldd { ":\n"@ } else { "\n"@ }),
            color,
            bold: false,
        }));
        out
    }
}

/// The guides for the first `n` levels of `t`.
pub open spec fn guides(t: Seq<bool>, n: int) -> Seq<char>
    decreases n,
{
    if n <= 0 {
        Seq::empty()
    } else {
        guides(t, n - 1) + (if t[n - 1] { "|  "@ } else { "   "@ })
    }
}

pub open spec fn entry_spec(p: Printer, name: Seq<char>, path: Seq<char>, mode: Seq<char>, found: bool) -> Seq<SegView> {
    let color = if found { Color::Magenta } else { Color::Cyan };
    let head = if p.pp { seq![SegView { text: path + "/"@, color, bold: false }] } else { Seq::empty() };
    head + seq![
        SegView { text: name, color, bold: !found },
        SegView { text: " "@ + mode + "\n"@, color: if found { Color::Magenta } else { Color::Yellow }, bold: false },
    ]
}

pub fn create(pp: bool, ldd: bool, one: bool) -> (r: Printer)
    ensures
        r.pp == pp,
        r.ldd == ldd,
        r.one == one,
{
    Printer::new(pp, ldd, one)
}


/// The entries printed for the children `cs[i..]` of a node, in pre-order:
/// each child with its guide trace (the ancestors' "has a following sibling"
/// flags, then whether its own level has several entries), followed by its
/// own children. `fuel` bounds the depth.
pub open spec fn walk_spec(t: Seq<Node>, cs: Seq<usize>, i: int, trace: Seq<bool>, fuel: nat) -> Seq<(usize, Seq<bool>)>
    decreases fuel, cs.len() - i,
{
    if fuel == 0 || i < 0 || i >= cs.len() {
        Seq::empty()
    } else {
        let c = cs[i];
        let many = cs.len() > 1;
        let line = seq![(c, trace.push(many))];
        let below = if c < t.len() {
            walk_spec(t, t[c as int].children@, 0, trace.push(many && i + 1 < cs.len()), (fuel - 1) as nat)
        } else {
            Seq::empty()
        };
        line + below + walk_spec(t, cs, i + 1, trace, fuel)
    }
}

pub open spec fn lines_view(v: Seq<(usize, Vec<bool>)>) -> Seq<(usize, Seq<bool>)> {
    v.map_values(|e: (usize, Vec<bool>)| (e.0, e.1@))
}

fn copy_trace(v: &Vec<bool>) -> (r: Vec<bool>)
    ensures
        r@ == v@,
{
    let mut r: Vec<bool> = Vec::new();
    let mut i: usize = 0;
    while i < v.len()
        invariant
            i <= v@.len(),
            r@ == v@.take(i as int),
        decreases v@.len() - i,
    {
        r.push(v[i]);
        assert(v@.take(i + 1) =~= v@.take(i as int).push(v@[i as int]));
        i = i + 1;
    }
    assert(v@.take(i as int) =~= v@);
    r
}

fn walk(tree: &DepTree, cs: &Vec<usize>, trace: &Vec<bool>, fuel: usize, out: &mut Vec<(usize, Vec<bool>)>)
    ensures
        lines_view(final(out)@) == lines_view(old(out)@) + walk_spec(tree.arena@, cs@, 0, trace@, fuel as nat),
    decreases fuel,
{
    let ghost start = lines_view(out@);
    let ghost t = tree.arena@;
    if fuel == 0 {
        assert(lines_view(out@) =~= start + walk_spec(t, cs@, 0, trace@, fuel as nat));
        return;
    }
    let n = cs.len();
    let mut i: usize = 0;
    assert(lines_view(out@) + walk_spec(t, cs@, 0, trace@, fuel as nat) =~= start + walk_spec(t, cs@, 0, trace@, fuel as nat));
    while i < n
        invariant
            i <= n,
            n == cs@.len(),
            fuel > 0,
            t == tree.arena@,
            lines_view(out@) + walk_spec(t, cs@, i as int, trace@, fuel as nat)
                == start + walk_spec(t, cs@, 0, trace@, fuel as nat),
        decreases n - i,
    {
        let c = cs[i];
        let many = n > 1;
        let mut line = copy_trace(trace);
        line.push(many);
        let ghost before = lines_view(out@);
        let ghost lv = line@;
        out.push((c, line));
        assert(lines_view(out@) =~= before.push((c, lv)));
        let ghost mid = lines_view(out@);
        if c < tree.arena.len() {
            let mut sub = copy_trace(trace);
            sub.push(many && i + 1 < n);
            walk(tree, &tree.arena[c].children, &sub, fuel - 1, out);
        }
        proof {
            let below = if c < t.len() {
                walk_spec(t, t[c as int].children@, 0, trace@.push(many && i + 1 < n), (fuel - 1) as nat)
            } else {
                Seq::empty()
            };
            assert(lines_view(out@) == mid + below);
            let rest = walk_spec(t, cs@, i + 1, trace@, fuel as nat);
            assert(walk_spec(t, cs@, i as int, trace@, fuel as nat) == seq![(c, lv)] + below + rest);
            assert(before + (seq![(c, lv)] + below + rest) =~= lines_view(out@) + rest);
        }
        i = i + 1;
    }
    assert(lines_view(out@) + walk_spec(t, cs@, n as int, trace@, fuel as nat) =~= lines_view(out@));
}

/// The entries below the root, in print order, each with its guide trace;
/// depth is bounded by the number of nodes, which no tree exceeds.
pub fn print_order(tree: &DepTree) -> (r: Vec<(usize, Vec<bool>)>)
    requires
        tree.arena@.len() > 0,
    ensures
        lines_view(r@) == walk_spec(tree.arena@, tree.arena@[0].children@, 0, Seq::empty(), tree.arena@.len() as nat),
{
    let mut out: Vec<(usize, Vec<bool>)> = Vec::new();
    let trace: Vec<bool> = Vec::new();
    assert(lines_view(out@) =~= Seq::<(usize, Seq<bool>)>::empty());
    assert(trace@ =~= Seq::<bool>::empty());
    walk(tree, &tree.arena[0].children, &trace, tree.arena.len(), &mut out);
    assert(lines_view(out@) =~= walk_spec(tree.arena@, tree.arena@[0].children@, 0, Seq::empty(), tree.arena@.len() as nat));
    out
}

} // verus!
