use lddtree::search_path::{add_path, from_entries, from_string, merge_searchpaths, SearchPathVec};
use lddtree::text::split;

#[test]
fn inserting_a_directory_twice_keeps_one() {
    let mut v: SearchPathVec = Vec::new();
    add_path(&mut v, "/usr/lib", Some((8, 100)));
    add_path(&mut v, "/usr/lib", Some((8, 100)));
    assert_eq!(v.len(), 1);
    assert_eq!(v[0].path, "/usr/lib");
}

#[test]
fn symlinked_directory_is_collapsed() {
    let mut v: SearchPathVec = Vec::new();
    add_path(&mut v, "/lib", Some((8, 100)));
    add_path(&mut v, "/usr/lib", Some((8, 100)));
    add_path(&mut v, "/opt/lib", Some((8, 101)));
    add_path(&mut v, "/missing", None);
    let paths: Vec<&str> = v.iter().map(|e| e.path.as_str()).collect();
    assert_eq!(paths, vec!["/lib", "/opt/lib"]);
}

#[test]
fn from_string_splits_and_probes() {
    let s = "/a::/b:/a";
    assert_eq!(split(s, &[':']), vec!["/a", "", "/b", "/a"]);
    let v = from_string(s, &[':'], &vec![Some((1, 1)), None, Some((1, 2)), Some((1, 1))]);
    let paths: Vec<&str> = v.iter().map(|e| e.path.as_str()).collect();
    assert_eq!(paths, vec!["/a", "/b"]);
}

#[test]
fn merge_keeps_order_and_drops_duplicates() {
    let mut v = from_entries(&vec!["/x".to_string(), "/y".to_string()], &vec![Some((1, 1)), Some((1, 2))]);
    let n = from_entries(&vec!["/y2".to_string(), "/z".to_string()], &vec![Some((1, 2)), Some((1, 3))]);
    merge_searchpaths(&mut v, &n);
    let paths: Vec<&str> = v.iter().map(|e| e.path.as_str()).collect();
    assert_eq!(paths, vec!["/x", "/y", "/z"]);
}
