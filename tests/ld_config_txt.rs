use lddtree::ld_config_txt::{
    dir_assignment, get_ld_config_path, next_token, parse_append, parse_assignment, parse_ld_config_txt, ConfigError,
    NamespaceConfig, Token,
};
use lddtree::android::{get_release, AndroidRelease};

fn create_cfg(base: &str) -> Vec<String> {
    let text = format!(
        "# comment \n\
      dir.test = {base}\n\
      \n\
      [test]\n\
      \n\
      enable.target.sdk.version = true\n\
      additional.namespaces=system\n\
      additional.namespaces+=vndk\n\
      additional.namespaces+=vndk_in_system\n\
      namespace.default.isolated = true\n\
      namespace.default.search.paths = {base}/vendor/${{LIB}}\n\
      namespace.default.permitted.paths = {base}/vendor/${{LIB}}\n\
      namespace.default.asan.search.paths = {base}/data\n\
      namespace.default.asan.search.paths += {base}/vendor/${{LIB}}\n\
      namespace.default.asan.permitted.paths = {base}/data:{base}/vendor\n\
      namespace.default.links = system\n\
      namespace.default.links += vndk\n\
      namespace.default.link.system.shared_libs=  libc.so\n\
      namespace.default.link.system.shared_libs +=   libm.so:libdl.so\n\
      namespace.default.link.system.shared_libs   +=libstdc++.so\n\
      namespace.default.link.vndk.shared_libs = libcutils.so:libbase.so\n\
      namespace.system.isolated = true\n\
      namespace.system.visible = true\n\
      namespace.system.search.paths = {base}/system/${{LIB}}\n\
      namespace.system.permitted.paths = {base}/system/${{LIB}}\n\
      namespace.system.asan.search.paths = {base}/data:{base}/system/${{LIB}}\n\
      namespace.system.asan.permitted.paths = {base}/data:{base}/system\n\
      namespace.vndk.isolated = tr\n\
      namespace.vndk.isolated += ue\n\
      namespace.vndk.search.paths = {base}/system/${{LIB}}/vndk\n\
      namespace.vndk.asan.search.paths = {base}/data\n\
      namespace.vndk.asan.search.paths += {base}/system/${{LIB}}/vndk\n\
      namespace.vndk.links = default\n\
      namespace.vndk.link.default.allow_all_shared_libs = true\n\
      namespace.vndk.link.vndk_in_system.allow_all_shared_libs = true\n\
      namespace.vndk_in_system.isolated = true\n\
      namespace.vndk_in_system.visible = true\n\
      namespace.vndk_in_system.search.paths = {base}/system/${{LIB}}\n\
      namespace.vndk_in_system.permitted.paths = {base}/system/${{LIB}}\n\
      namespace.vndk_in_system.whitelisted = libz.so:libyuv.so:libtinyxml2.so\n\
      \n",
        base = base
    );
    text.lines().map(|l| l.to_string()).collect()
}

/// The resolved form of each `dir.` line: here every path is already canonical.
fn resolved(lines: &[String]) -> Vec<Option<String>> {
    lines.iter().map(|l| dir_assignment(l).map(|(_, p)| p)).collect()
}

fn ns<'a>(c: &'a [NamespaceConfig], name: &str) -> &'a NamespaceConfig {
    c.iter().find(|n| n.name == name).unwrap()
}

fn test_skeleton(is_asan: bool) {
    let interp = if is_asan { "linker_asan" } else { "linker" };
    let base = "/t/tmp";
    let lines = create_cfg(base);
    let version = Some("26".to_string());
    let cfg = parse_ld_config_txt(
        &lines,
        &resolved(&lines),
        "/t/tmp/binary",
        interp,
        AndroidRelease::AndroidR29,
        3,
        1,
        "",
        &version,
    )
    .unwrap();
    let c = &cfg.namespaces_config;
    assert_eq!(c.len(), 4);

    let default_ns = cfg.get_default_namespace().unwrap();
    assert_eq!(default_ns.isolated, true);
    assert_eq!(default_ns.visible, false);
    let expected: Vec<String> = if is_asan {
        vec![format!("{base}/data"), format!("{base}/vendor/lib")]
    } else {
        vec![format!("{base}/vendor/lib")]
    };
    assert_eq!(default_ns.search_dirs, expected);
    assert_eq!(default_ns.namespaces, vec!["system", "vndk"]);

    let system_ns = ns(c, "system");
    assert_eq!(system_ns.isolated, true);
    assert_eq!(system_ns.visible, true);
    let expected: Vec<String> = if is_asan {
        vec![format!("{base}/data"), format!("{base}/system/lib")]
    } else {
        vec![format!("{base}/system/lib")]
    };
    assert_eq!(system_ns.search_dirs, expected);

    let vndk_ns = ns(c, "vndk");
    assert_eq!(vndk_ns.isolated, false);
    assert_eq!(vndk_ns.visible, false);
    let expected: Vec<String> = if is_asan {
        vec![format!("{base}/data"), format!("{base}/system/lib/vndk")]
    } else {
        vec![format!("{base}/system/lib/vndk")]
    };
    assert_eq!(vndk_ns.search_dirs, expected);
    assert_eq!(vndk_ns.namespaces.len(), 1);

    let vs = ns(c, "vndk_in_system");
    assert_eq!(vs.isolated, true);
    assert_eq!(vs.visible, true);
    let expected: Vec<String> = if is_asan { vec![String::new()] } else { vec![format!("{base}/system/lib")] };
    assert_eq!(vs.search_dirs, expected);
    assert_eq!(vs.allowed_libs, vec!["libz.so", "libyuv.so", "libtinyxml2.so"]);
    assert!(vs.is_accessible("libz.so"));
    assert!(!vs.is_accessible("libfoo.so"));
    assert!(vndk_ns.is_accessible("libfoo.so"));
}

#[test]
fn smoke() {
    test_skeleton(false);
}

#[test]
fn smoke_asan() {
    test_skeleton(true);
}

#[test]
fn tokens() {
    assert!(next_token("   # only a comment").is_none());
    let (t, s) = next_token("  [system]  # c").unwrap();
    assert_eq!(t, Token::Section);
    assert_eq!(s, "system");
    assert_eq!(next_token("a.b += c").unwrap().0, Token::PropertyAppend);
    assert_eq!(next_token("a.b = c").unwrap().0, Token::PropertyAssign);
    assert_eq!(next_token("garbage").unwrap().0, Token::Error);
    assert_eq!(parse_assignment("k = v"), Some(("k".to_string(), "v".to_string())));
    assert_eq!(parse_assignment("k = v = w"), None);
    assert_eq!(parse_append("k += v"), Some(("k".to_string(), "v".to_string())));
    assert_eq!(parse_append("k += v += w"), None);
}

#[test]
fn link_errors() {
    let mk = |extra: &str| -> Vec<String> {
        let mut v = vec!["dir.s = /b".to_string(), "[s]".to_string(), "additional.namespaces = other".to_string()];
        v.push(extra.to_string());
        v
    };
    let run = |lines: Vec<String>| {
        let r = resolved(&lines);
        parse_ld_config_txt(&lines, &r, "/b/bin", "linker", AndroidRelease::AndroidR30, 183, 2, "", &None).err()
    };
    assert_eq!(run(mk("namespace.default.links = nowhere")), Some(ConfigError::UndefinedNamespace));
    assert_eq!(run(mk("namespace.default.links = other")), Some(ConfigError::NeitherSet));
    let mut both = mk("namespace.default.links = other");
    both.push("namespace.default.link.other.shared_libs = libc.so".to_string());
    both.push("namespace.default.link.other.allow_all_shared_libs = true".to_string());
    assert_eq!(run(both), Some(ConfigError::BothSet));
    let lines = vec!["dir.s = /elsewhere".to_string(), "[s]".to_string()];
    assert_eq!(run(lines), Some(ConfigError::NoInitialSection));
}

#[test]
fn sdk_version_substitution() {
    let lines: Vec<String> = vec![
        "dir.s = /b".to_string(),
        "[s]".to_string(),
        "namespace.default.search.paths = /x/${SDK_VER}/${LIB}:/v${VNDK_VER}".to_string(),
    ];
    let r = resolved(&lines);
    let c = parse_ld_config_txt(&lines, &r, "/b/bin", "linker64", AndroidRelease::AndroidR31, 183, 2, "33", &None).unwrap();
    assert_eq!(c.namespaces_config[0].search_dirs, vec!["/x/31/lib64", "/v-33"]);
}

#[test]
fn config_paths_by_release() {
    assert!(get_ld_config_path(AndroidRelease::AndroidR24, "/system/bin/x", 183, 2, false, "").is_none());
    let (v, d) = get_ld_config_path(AndroidRelease::AndroidR27, "/system/bin/x", 183, 2, false, "").unwrap();
    assert!(v.is_empty());
    assert_eq!(d, "/system/etc/ld.config.txt");
    let (v, _) = get_ld_config_path(AndroidRelease::AndroidR30, "/apex/com.foo/bin/x", 183, 2, false, "30").unwrap();
    assert_eq!(
        v,
        vec![
            "/linkerconfig/com.foo/ld.config.txt",
            "/apex/com.foo/etc/ld.config.txt",
            "/system/etc/ld.config.arm64.txt",
            "/linkerconfig/ld.config.txt",
            "/system/etc/ld.config.30.txt",
        ]
    );
    assert_eq!(get_release("29"), Ok(AndroidRelease::AndroidR29));
    assert!(get_release("23").is_err());
}

#[test]
fn link_rules_are_kept() {
    let lines = create_cfg("/t/tmp");
    let version = Some("26".to_string());
    let cfg = parse_ld_config_txt(&lines, &resolved(&lines), "/t/tmp/binary", "linker", AndroidRelease::AndroidR29, 3, 1, "", &version)
        .unwrap();
    let d = cfg.get_default_namespace().unwrap();
    assert_eq!(d.link_rules.len(), 2);
    assert!(!d.link_rules[0].allow_all);
    assert_eq!(d.link_rules[0].shared_libs, vec!["libc.so", "libm.so", "libdl.so", "libstdc++.so"]);
    assert!(d.link_rules[0].allows("libm.so"));
    assert!(!d.link_rules[0].allows("libz.so"));
    let v = ns(&cfg.namespaces_config, "vndk");
    assert!(v.link_rules[0].allow_all);
}
