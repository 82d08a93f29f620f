use plugin_setup::allow_builds::{extract_allow_line_key, parse_allowlist_keys};

#[test]
fn parse_git_dep_path_key() {
    let out = "\
[ERR_PNPM_GIT_DEP_PREPARE_NOT_ALLOWED] Failed to prepare git-hosted package fetched from \"...\"
The git-hosted package \"dsh-better-sidebar@0.14.0\" needs to execute build scripts but is not in the \"allowBuilds\" allowlist.
...
allowBuilds:
  dsh-better-sidebar@git+ssh://git@github.com/omdsh-dev/DSH-better-sidebar.git#6c89: true
";
    let keys = parse_allowlist_keys(out);
    assert!(keys.contains(&"dsh-better-sidebar@git+ssh://git@github.com/omdsh-dev/DSH-better-sidebar.git#6c89".to_string()));
    assert!(!keys.contains(&"dsh-better-sidebar".to_string()));
}

#[test]
fn parse_ignored_builds_name() {
    let out = "[ERR_PNPM_IGNORED_BUILDS] Ignored build scripts: node-pty@1.1.0\n";
    let keys = parse_allowlist_keys(out);
    assert_eq!(keys, vec!["node-pty".to_string()]);
}

#[test]
fn parse_empty_when_irrelevant() {
    let out = "everything looks fine output\nno allowlist here\n";
    assert!(parse_allowlist_keys(out).is_empty());
}

#[test]
fn allow_line_key_requires_indent() {
    let key = extract_allow_line_key("  node-pty: true");
    assert_eq!(key.as_deref(), Some("node-pty"));

    // A top-level key is no entry.
    assert_eq!(extract_allow_line_key("packages:"), None);
    assert_eq!(extract_allow_line_key("allowBuilds:"), None);
}

fn keys(output: &str) -> Vec<String> {
    parse_allowlist_keys(output)
}

#[test]
fn any_indentation_and_inner_space_is_read() {
    assert_eq!(extract_allow_line_key("\tnode-pty: true").as_deref(), Some("node-pty"));
    assert_eq!(extract_allow_line_key(" a b : true").as_deref(), Some("a b"));
    assert_eq!(extract_allow_line_key("\u{3000}x@1: true").as_deref(), Some("x@1"));
    assert_eq!(extract_allow_line_key("  a: true: true").as_deref(), Some("a: true"));
}

#[test]
fn a_line_that_is_no_entry_has_no_key() {
    assert_eq!(extract_allow_line_key(""), None);
    assert_eq!(extract_allow_line_key("node-pty: true"), None);
    assert_eq!(extract_allow_line_key("  node-pty: false"), None);
    assert_eq!(extract_allow_line_key("  node-pty: true "), None);
    assert_eq!(extract_allow_line_key("  node-pty:true"), None);
    assert_eq!(extract_allow_line_key("  : true"), None);
    assert_eq!(extract_allow_line_key("   : true"), None);
}

#[test]
fn only_the_line_below_the_mark_is_taken() {
    assert_eq!(keys("  allowBuilds:  \n  a: true\n  b: true\n"), vec!["a"]);
    assert_eq!(keys("allowBuilds:\n\n  a: true\n"), Vec::<String>::new());
    assert_eq!(keys("allowBuilds:"), Vec::<String>::new());
    assert_eq!(keys("allowBuilds: x\n  a: true\n"), Vec::<String>::new());
    assert_eq!(keys("allowBuilds:\r\n  a: true\r\n"), vec!["a"]);
}

#[test]
fn ignored_packages_are_listed_by_name() {
    assert_eq!(
        keys("Ignored build scripts: node-pty@1.1.0, esbuild@0.25.0,sharp"),
        vec!["node-pty", "esbuild", "sharp"]
    );
    assert_eq!(keys("Ignored build scripts:"), Vec::<String>::new());
    assert_eq!(keys("Ignored build scripts: ,, ,"), Vec::<String>::new());
    assert_eq!(keys("Ignored build scripts:\ta@1\t,b\t@2"), vec!["a", "b"]);
}

#[test]
fn a_scope_belongs_to_the_name() {
    assert_eq!(keys("Ignored build scripts: @scope/native@1.0.0\n"), vec!["@scope/native"]);
    assert_eq!(
        keys("Ignored build scripts: @scope/pkg@1.0.0, a@1, @scope/pkg@2.0.0,@s/bare"),
        vec!["@scope/pkg", "a", "@s/bare"]
    );
}

#[test]
fn an_at_sign_without_scope_names_nothing() {
    for item in ["@", "@1.0.0", "@@1", "@/x@1", "@s/@1", "@s@1/x", "@s/"] {
        assert_eq!(keys(&format!("Ignored build scripts: {}", item)), Vec::<String>::new());
        assert_eq!(keys(&format!("Ignored build scripts: {}, a@1", item)), vec!["a"]);
    }
}

#[test]
fn a_second_mark_on_the_line_ends_the_list() {
    assert_eq!(
        keys("Ignored build scripts: a@1 Ignored build scripts: b@2"),
        vec!["a"]
    );
}

#[test]
fn suggestions_come_first_and_nothing_comes_twice() {
    let out = "Ignored build scripts: b@1, c@1, b@2\nallowBuilds:\n  a@x: true\nallowBuilds:\n  c: true\nallowBuilds:\n  a@x: true\n";
    assert_eq!(keys(out), vec!["a@x", "c", "b"]);
}

#[test]
fn keys_are_clean() {
    for out in ["allowBuilds:\n   a  : true\n", "Ignored build scripts:  a@1 \n,b\r\n"] {
        for key in keys(out) {
            assert!(!key.is_empty());
            assert_eq!(key.trim(), key);
            assert!(!key.contains('\n'));
        }
    }
}
