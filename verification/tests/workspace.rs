use plugin_setup::allow_builds::parse_allowlist_keys;
use plugin_setup::workspace::{
    add_allow_build_keys, describe_workspace_failure, WorkspaceFailure, WORKSPACE_FILE,
    WORKSPACE_TEMPLATE,
};

fn add(file: Option<&str>, keys: &[&str]) -> Option<String> {
    let keys: Vec<String> = keys.iter().map(|k| k.to_string()).collect();
    add_allow_build_keys(file, &keys)
}

#[test]
fn a_missing_file_starts_from_the_template() {
    assert_eq!(WORKSPACE_FILE, "pnpm-workspace.yaml");
    assert_eq!(
        add(None, &["node-pty"]).unwrap(),
        "packages:\n  - .\n\nnodeLinker: hoisted\nautoInstallPeers: false\nallowBuilds:\n  'node-pty': true\n"
    );
    assert!(WORKSPACE_TEMPLATE.ends_with("autoInstallPeers: false\n"));
}

#[test]
fn a_file_without_block_gets_one() {
    assert_eq!(add(Some("x: 1"), &["a"]).unwrap(), "x: 1\nallowBuilds:\n  'a': true\n");
    assert_eq!(add(Some("x: 1\n"), &["a"]).unwrap(), "x: 1\nallowBuilds:\n  'a': true\n");
    assert_eq!(add(Some(""), &["a"]).unwrap(), "\nallowBuilds:\n  'a': true\n");
}

#[test]
fn a_block_that_is_there_is_added_to() {
    let file = "allowBuilds:\n  b: true\n";
    assert_eq!(add(Some(file), &["a", "b"]).unwrap(), "allowBuilds:\n  b: true\n  'a': true\n");
    let indented = "  allowBuilds: {}\n";
    assert_eq!(add(Some(indented), &["a"]).unwrap(), "  allowBuilds: {}\n  'a': true\n");
}

#[test]
fn new_entries_go_to_the_end_of_the_block() {
    assert_eq!(
        add(Some("allowBuilds:\n  'a': true\nnodeLinker: hoisted\n"), &["b"]).unwrap(),
        "allowBuilds:\n  'a': true\n  'b': true\nnodeLinker: hoisted\n"
    );
    assert_eq!(
        add(Some("allowBuilds:\r\n  'a': true\r\n\r\nx:\r\n  - y\r\n"), &["b", "c"]).unwrap(),
        "allowBuilds:\r\n  'a': true\r\n  'b': true\n  'c': true\n\r\nx:\r\n  - y\r\n"
    );
    assert_eq!(
        add(Some("allowBuilds:\n\n# why\n  a: true\n\n# what\nx: 1\n"), &["a", "b"]).unwrap(),
        "allowBuilds:\n\n# why\n  a: true\n  'b': true\n\n# what\nx: 1\n"
    );
    assert_eq!(
        add(Some("allowBuilds:\nx: 1"), &["a"]).unwrap(),
        "allowBuilds:\n  'a': true\nx: 1\n"
    );
    assert_eq!(
        add(Some("x:\n  allowBuilds: 1\nallowBuilds:\n  b: true\ny: 2\n"), &["a"]).unwrap(),
        "x:\n  allowBuilds: 1\nallowBuilds:\n  b: true\n  'a': true\ny: 2\n"
    );
}

#[test]
fn a_last_block_is_appended_to() {
    for file in [
        "allowBuilds:\n  'a': true\n",
        "allowBuilds:\n  'a': true\n\n",
        "allowBuilds:\n  'a': true\n  \t\n",
        "x: 1\nallowBuilds:\n  'a': true\n\n# the end\n",
        "allowBuilds:\n\n",
    ] {
        assert_eq!(add(Some(file), &["b"]).unwrap(), format!("{}  'b': true\n", file));
    }
    assert_eq!(add(Some("allowBuilds:\n  'a': true\n\n"), &["a"]), None);
}

#[test]
fn only_the_lines_of_the_block_are_entries() {
    assert_eq!(
        add(Some("other:\n  'a': true\nallowBuilds:\n"), &["a"]).unwrap(),
        "other:\n  'a': true\nallowBuilds:\n  'a': true\n"
    );
    assert_eq!(
        add(Some("allowBuilds:\n  b: true\nother:\n  a: true\n"), &["a", "b"]).unwrap(),
        "allowBuilds:\n  b: true\n  'a': true\nother:\n  a: true\n"
    );
    assert_eq!(
        add(Some("  a: true\n"), &["a"]).unwrap(),
        "  a: true\nallowBuilds:\n  'a': true\n"
    );
}

#[test]
fn keys_that_are_listed_change_nothing() {
    for entry in [
        "  a: true",
        "\ta: true",
        "  'a': true",
        "  \"a\": true",
        "  a : true",
        "  a: true ",
        "  a: true\r",
        "  'a: true",
        "  a\": true",
    ] {
        let file = format!("allowBuilds:\n{}\n", entry);
        assert_eq!(add(Some(&file), &["a"]), None, "{:?}", entry);
        let file = format!("allowBuilds:\n{}", entry);
        assert_eq!(add(Some(&file), &["a"]), None, "{:?}", entry);
    }
    assert_eq!(add(None, &[]), None);
    for entry in ["a: true", "  a: false", "  ab: true", "  a:true", "  : true", "  ': true"] {
        let file = format!("allowBuilds:\n{}\n", entry);
        assert!(add(Some(&file), &["a"]).is_some(), "{:?}", entry);
    }
}

#[test]
fn a_key_is_recognised_whatever_it_holds() {
    let file = "allowBuilds:\n  'p@git+ssh://h/r.git#6c89': true\n";
    assert_eq!(add(Some(file), &["p@git+ssh://h/r.git#6c89"]), None);
    let plain = "allowBuilds:\n  p@git+ssh://h/r.git#6c89: true\n";
    assert_eq!(add(Some(plain), &["p@git+ssh://h/r.git#6c89"]), None);
    for key in ["it's", "'", "''", "\"q\"", "'q'", "a: true", ": true", " a ", "", "@s/p"] {
        let new = add(Some("allowBuilds:\n"), &[key]).unwrap();
        assert_eq!(new, format!("allowBuilds:\n  '{}': true\n", key.replace('\'', "''")));
        assert_eq!(add(Some(&new), &[key]), None, "{:?}", key);
    }
}

#[test]
fn no_key_is_entered_twice() {
    assert_eq!(
        add(Some("allowBuilds:\n  b: true\n"), &["a", "b", "a", "c", "a"]).unwrap(),
        "allowBuilds:\n  b: true\n  'a': true\n  'c': true\n"
    );
}

#[test]
fn keys_are_quoted() {
    assert_eq!(
        add(Some("allowBuilds:\n"), &["x@git+ssh://git@h/x.git#6c89", "it's"]).unwrap(),
        "allowBuilds:\n  'x@git+ssh://git@h/x.git#6c89': true\n  'it''s': true\n"
    );
}

#[test]
fn nothing_that_was_there_is_lost() {
    for file in [
        "",
        "a",
        "a\n",
        "allowBuilds:\n  x: true\n",
        "allowBuilds:",
        "allowBuilds:\r",
        "a: 1\nallowBuilds:\n  x: true\n\nb: 2\nc:\n  - 3",
    ] {
        let new = add(Some(file), &["k", "l"]).unwrap();
        let mut lines = new.lines();
        for line in file.lines() {
            assert!(lines.any(|l| l == line.trim_end_matches('\r')), "{:?} in {:?}", line, new);
        }
        assert_eq!(new.lines().filter(|l| l.starts_with("  'k'")).count(), 1);
    }
}

#[test]
fn merging_again_changes_nothing() {
    let keys = ["node-pty", "esbuild", " a b ", "x@git+ssh://h#1", "it's", "\"q\"", "@s/p"];
    for file in [
        None,
        Some(""),
        Some("x: 1"),
        Some("allowBuilds:\n"),
        Some("allowBuilds:\n  "),
        Some("  allowBuilds:\n  b: true"),
        Some("allowBuilds:\n  b: true\r"),
        Some("allowBuilds:\n  'b': true\nx: 1\n"),
    ] {
        let new = add(file, &keys).unwrap();
        assert_eq!(add(Some(&new), &keys), None, "{:?}", new);
    }
}

#[test]
fn a_line_that_breaks_off_is_completed_first() {
    assert_eq!(
        add(Some("allowBuilds:\n  'a': true"), &["b"]).unwrap(),
        "allowBuilds:\n  'a': true\n  'b': true\n"
    );
    assert_eq!(
        add(Some("allowBuilds:\n  "), &["b"]).unwrap(),
        "allowBuilds:\n  \n  'b': true\n"
    );
}

#[test]
fn what_pnpm_asks_for_is_then_in_the_file() {
    let keys = parse_allowlist_keys(
        "allowBuilds:\n  p@https://codeload.github.com/o/p/tar.gz/1: true\nIgnored build scripts: node-pty@1.1.0, a@2",
    );
    let new = add_allow_build_keys(None, &keys).unwrap();
    assert_eq!(keys.len(), 3);
    for key in keys {
        assert!(new.lines().any(|l| l == format!("  '{}': true", key)));
    }
}

#[test]
fn failures_are_named() {
    assert_eq!(
        describe_workspace_failure(WorkspaceFailure::NoProfileDir),
        "PREINSTALL_BAD_PROFILE_DIR: no profile dir"
    );
    assert_eq!(
        describe_workspace_failure(WorkspaceFailure::CreateDir("x".to_string())),
        "PREINSTALL_MKDIR: x"
    );
    assert_eq!(
        describe_workspace_failure(WorkspaceFailure::Read("x".to_string())),
        "PREINSTALL_READ_WORKSPACE: x"
    );
    assert_eq!(
        describe_workspace_failure(WorkspaceFailure::Write("x".to_string())),
        "PREINSTALL_WRITE_WORKSPACE: x"
    );
}
