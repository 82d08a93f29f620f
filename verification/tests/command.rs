use plugin_setup::command::{check_runtime, plugin_args, plugin_envs, search_path};
use plugin_setup::pnpm::{
    describe_pnpm_failure, download_file_name, trusts_user_pnpm, user_pnpm_major_version,
    CommandOutput, PnpmFailure, MIN_TRUSTED_PNPM_MAJOR,
};

fn envs(prefer: bool, path: Option<&str>) -> Vec<(String, String)> {
    plugin_envs("/home", prefer, path).into_iter().map(|v| (v.name, v.value)).collect()
}

fn pair(name: &str, value: &str) -> (String, String) {
    (name.to_string(), value.to_string())
}

#[test]
fn the_command_line_names_the_profile() {
    assert_eq!(plugin_args("add", "x@1"), vec!["plugin", "--profile", "web", "add", "x@1"]);
    assert_eq!(plugin_args("remove", "y"), vec!["plugin", "--profile", "web", "remove", "y"]);
}

#[test]
fn shims_and_node_come_first_in_the_path() {
    assert_eq!(search_path("s", Some("n"), vec!["a", "b"]), vec!["s", "n", "a", "b"]);
    assert_eq!(search_path("s", None, vec!["a", "b"]), vec!["s", "a", "b"]);
    assert_eq!(search_path("s", None, vec![]), vec!["s"]);
}

#[test]
fn the_environment_depends_on_the_pnpm_that_is_used() {
    let base = vec![
        pair("DSH_HOME", "/home"),
        pair("DSH_TELEMETRY_DISABLED", "1"),
        pair("NO_COLOR", "1"),
    ];
    assert_eq!(envs(false, None), base);
    let mut full = base.clone();
    full.push(pair("DSH_PREFER_BUNDLED_PNPM", "1"));
    full.push(pair("PATH", "/bin"));
    assert_eq!(envs(true, Some("/bin")), full);
}

#[test]
fn no_variable_is_set_twice() {
    let vars = envs(true, Some("/bin"));
    for i in 0..vars.len() {
        for j in 0..i {
            assert_ne!(vars[i].0, vars[j].0);
        }
    }
}

#[test]
fn what_is_missing_is_named_in_order() {
    let node = "NODE_NOT_FOUND: Node.js runtime missing".to_string();
    let dsh = "HARNESS_NOT_FOUND: dsh CLI missing".to_string();
    let window = "WINDOW_NOT_FOUND: main window missing".to_string();
    assert_eq!(check_runtime(false, false, false), Some(node));
    assert_eq!(check_runtime(true, false, false), Some(dsh));
    assert_eq!(check_runtime(true, true, false), Some(window));
    assert_eq!(check_runtime(true, true, true), None);
}

#[test]
fn the_major_version_is_the_first_field() {
    let major = |stdout: &str| {
        user_pnpm_major_version(&Some(CommandOutput { success: true, stdout: stdout.to_string() }))
    };
    assert_eq!(major("10.4.1\n"), Some(10));
    assert_eq!(major(" 9 .15"), Some(9));
    assert_eq!(major("11\r\n"), Some(11));
    assert_eq!(major("v10.0.0"), None);
    assert_eq!(major(""), None);
    assert_eq!(major("warn\n10.0.0"), None);
    assert_eq!(
        user_pnpm_major_version(&Some(CommandOutput {
            success: false,
            stdout: "10.4.1".to_string()
        })),
        None
    );
    assert_eq!(user_pnpm_major_version(&None), None);
}

#[test]
fn only_a_new_pnpm_is_trusted() {
    assert_eq!(MIN_TRUSTED_PNPM_MAJOR, 10);
    assert!(trusts_user_pnpm(Some(10)));
    assert!(trusts_user_pnpm(Some(11)));
    assert!(!trusts_user_pnpm(Some(9)));
    assert!(!trusts_user_pnpm(None));
}

#[test]
fn pnpm_failures_are_named() {
    let text = |f: PnpmFailure| describe_pnpm_failure(f);
    assert_eq!(text(PnpmFailure::Address("x".to_string())), "x");
    assert_eq!(text(PnpmFailure::Download("x".to_string())), "PNPM_DOWNLOAD_FAILED: x");
    assert_eq!(text(PnpmFailure::Integrity("x".to_string())), "PNPM_INTEGRITY_FAILED: x");
    assert_eq!(text(PnpmFailure::Extract("x".to_string())), "PNPM_EXTRACT_FAILED: x");
}

#[test]
fn the_file_name_follows_the_last_slash() {
    assert_eq!(download_file_name("https://h/p/pnpm-10.tgz"), "pnpm-10.tgz");
    assert_eq!(download_file_name("pnpm.tgz"), "pnpm.tgz");
    assert_eq!(download_file_name("https://h/p/"), "");
}
