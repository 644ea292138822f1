use lddtree::ld_conf::{assemble, parse_ld_so_conf, parse_ld_so_conf_netbsd, parse_ld_so_preload, parse_line, ConfError, ConfLine};
use lddtree::search_path::from_entries;

fn lines(v: &[&str]) -> Vec<String> {
    v.iter().map(|s| s.to_string()).collect()
}

fn show(v: &[ConfLine]) -> Vec<String> {
    v.iter()
        .map(|l| match l {
            ConfLine::Include(p) => format!("include {p}"),
            ConfLine::Dir(d) => d.clone(),
        })
        .collect()
}

#[test]
fn conf_lines_and_comments() {
    let r = parse_ld_so_conf(
        &lines(&[
            "# comment number 1",
            "   # comment number 2",
            "include subdir/*  # comment number 3",
            "/tmp/lib1  # comment number 4",
            "hwcap ignored",
            "",
            "include /etc/ld.so.conf.d/*.conf",
        ]),
        "/etc/ld.so.conf",
    )
    .unwrap();
    assert_eq!(show(&r), vec!["include /etc/subdir/*", "/tmp/lib1", "include /etc/ld.so.conf.d/*.conf"]);
}

#[test]
fn include_without_pattern_is_an_error() {
    assert_eq!(parse_ld_so_conf(&lines(&["include"]), "/etc/ld.so.conf").err(), Some(ConfError::InvalidInclude));
    assert!(parse_line("   ", &None).unwrap().is_none());
}

#[test]
fn preload_entries() {
    let r = parse_ld_so_preload(&lines(&["   # comment number 1", " /l/lib1:/l/lib2 # comment", " /l/lib3 \t /l/lib4"]));
    assert_eq!(r, vec!["/l/lib1", "/l/lib2", "/l/lib3", "/l/lib4"]);
}

#[test]
fn netbsd_conf() {
    let r = parse_ld_so_conf_netbsd(&lines(&["# c", "/usr/pkg/lib", "  /usr/X11R7/lib  # x", ""]));
    assert_eq!(r, vec!["/usr/pkg/lib", "/usr/X11R7/lib"]);
}

#[test]
fn includes_merge_in_place() {
    let directives = parse_ld_so_conf(&lines(&["include subdir/*", "/lib1", "/lib1", "/lib3"]), "/etc/ld.so.conf").unwrap();
    let included = from_entries(&lines(&["/lib2", "/lib1"]), &vec![Some((1, 2)), Some((1, 1))]);
    let r = assemble(
        &directives,
        &vec![None, Some((1, 1)), Some((1, 1)), Some((1, 3))],
        &vec![included, vec![], vec![], vec![]],
    );
    let paths: Vec<&str> = r.iter().map(|e| e.path.as_str()).collect();
    assert_eq!(paths, vec!["/lib2", "/lib1", "/lib3"]);
}
