use plugin_setup::cancel::{mark_cancelled, CancelFlag};
use plugin_setup::install::{
    install, install_one, AwaitAddress, AwaitAllowBuilds, AwaitEnvironment, AwaitExit, Exit,
    InstallStep, Turn, Verdict, MAX_ALLOW_LIST_RETRIES,
};
use plugin_setup::pnpm::CommandOutput;
use plugin_setup::report::{
    status_payload, tally, Notice, PreinstallResult, PREINSTALL_STATUS_EVENT,
};
use plugin_setup::selection::{select, PreinstallPluginInfo};
use plugin_setup::workspace::WorkspaceFailure;

fn plugin(id: &str, spec: &str) -> PreinstallPluginInfo {
    PreinstallPluginInfo {
        id: id.to_string(),
        name: format!("The {}", id),
        spec: spec.to_string(),
    }
}

fn presets() -> Vec<PreinstallPluginInfo> {
    vec![
        plugin("a", "a-pkg"),
        plugin("b", "github:o/b"),
        plugin("a", "a-pkg@2"),
        plugin("dsh-win-terminal-inspector", "inspector"),
    ]
}

fn ids(names: &[&str]) -> Vec<String> {
    names.iter().map(|n| n.to_string()).collect()
}

fn down() -> CancelFlag {
    CancelFlag { cancelled: false }
}

fn up() -> CancelFlag {
    let mut flag = down();
    mark_cancelled(&mut flag);
    flag
}

fn shown(turn: &Turn) -> Vec<String> {
    turn.notices
        .iter()
        .map(|n| match n {
            Notice::Log(line) => line.clone(),
            Notice::Status(p) => match &p.error {
                Some(e) => format!("{}: {} ({})", p.id, p.status, e),
                None => format!("{}: {}", p.id, p.status),
            },
        })
        .collect()
}

/// Takes a run up to its environment; the bundled pnpm is there and no service
/// is running.
fn prepared(names: &[&str]) -> AwaitEnvironment {
    let mut step = install(&mut down(), ids(names)).step;
    loop {
        step = match step {
            InstallStep::LoadPresets(s) => s.loaded(&presets()).step,
            InstallStep::EnsureShims(s) => s.ensured(Ok(())).step,
            InstallStep::ProbeRuntime(s) => s.found(true, true, true).step,
            InstallStep::ProbeBundledPnpm(s) => s.probed(true).step,
            InstallStep::QueryService(s) => s.running(false).step,
            InstallStep::PrepareEnvironment(s) => return s,
            _ => panic!("unexpected step"),
        }
    }
}

/// Takes a run to the point where something else than the cancel flag is asked
/// for, and gathers what is shown on the way.
fn onward(turn: Turn, flag: &CancelFlag) -> Turn {
    let mut notices = turn.notices;
    let mut step = turn.step;
    loop {
        let next = match step {
            InstallStep::SettlePlugin(s) => s.settled(flag),
            InstallStep::NextPlugin(s) => s.proceed(flag),
            step => return Turn { notices, step },
        };
        notices.extend(next.notices);
        step = next.step;
    }
}

/// Takes a run to its first plugin.
fn started(names: &[&str], flag: &CancelFlag) -> Turn {
    onward(prepared(names).ready(), flag)
}

trait Ends {
    /// The command has ended, and the flag stays as it is from then on.
    fn ends(self, exit: Exit, flag: &CancelFlag) -> Turn;
}

impl Ends for AwaitExit {
    fn ends(self, exit: Exit, flag: &CancelFlag) -> Turn {
        onward(self.exited(exit, flag), flag)
    }
}

trait Writes {
    /// The file has been written or not, and the flag stays as it is from then on.
    fn writes(self, outcome: Result<(), WorkspaceFailure>, flag: &CancelFlag) -> Turn;
}

impl Writes for AwaitAllowBuilds {
    fn writes(self, outcome: Result<(), WorkspaceFailure>, flag: &CancelFlag) -> Turn {
        onward(self.written(outcome), flag)
    }
}

fn running(turn: Turn) -> AwaitExit {
    match turn.step {
        InstallStep::RunPlugin(s) => s,
        _ => panic!("no plugin is run"),
    }
}

fn allowing(turn: Turn) -> AwaitAllowBuilds {
    match turn.step {
        InstallStep::AllowBuilds(s) => s,
        _ => panic!("no key is added"),
    }
}

fn finished(turn: Turn) -> Result<Vec<PreinstallResult>, String> {
    match turn.step {
        InstallStep::Finish(r) => r,
        _ => panic!("the run is not over"),
    }
}

fn brief(results: &[PreinstallResult]) -> Vec<(String, bool, Option<String>)> {
    results.iter().map(|r| (r.id.clone(), r.success, r.error.clone())).collect()
}

fn exit(code: i32, output: &str) -> Exit {
    Ok((code, output.to_string()))
}

#[test]
fn a_run_without_ids_is_refused() {
    assert_eq!(
        finished(install(&mut down(), vec![])).unwrap_err(),
        "PREINSTALL_EMPTY: no plugins selected"
    );
}

#[test]
fn a_run_forgets_an_earlier_cancellation() {
    let mut flag = up();
    assert!(flag.cancelled);
    let _ = install(&mut flag, ids(&["a"]));
    assert!(!flag.cancelled);
}

#[test]
fn the_last_preset_with_an_id_counts() {
    let batch = select(&ids(&["b", "nope", "a", "b", "gone"]), &presets());
    let queue: Vec<(&str, &str)> =
        batch.queue.iter().map(|p| (p.id.as_str(), p.spec.as_str())).collect();
    assert_eq!(queue, vec![("b", "github:o/b"), ("a", "a-pkg@2"), ("b", "github:o/b")]);
    let rejected: Vec<&str> = batch.results.iter().map(|r| r.id.as_str()).collect();
    assert_eq!(rejected, vec!["nope", "gone"]);
    assert_eq!(batch.results[0].name, "nope");
    assert!(!batch.results[0].success);
    assert_eq!(
        batch.results[0].error.as_deref(),
        Some("PREINSTALL_INVALID_ID: unknown plugin id nope")
    );
    assert_eq!(batch.queue.len() + batch.results.len(), 5);
}

#[test]
fn a_run_with_unknown_ids_only_is_over_at_once() {
    let turn = match install(&mut down(), ids(&["x", "y"])).step {
        InstallStep::LoadPresets(s) => s.loaded(&presets()),
        _ => panic!("presets are not read"),
    };
    let results = finished(turn).unwrap();
    assert_eq!(results.len(), 2);
    assert!(results.iter().all(|r| !r.success));
}

#[test]
fn what_is_missing_ends_the_run() {
    let at_shims = || match install(&mut down(), ids(&["a"])).step {
        InstallStep::LoadPresets(s) => match s.loaded(&presets()).step {
            InstallStep::EnsureShims(s) => s,
            _ => panic!("shims are not ensured"),
        },
        _ => panic!("presets are not read"),
    };
    assert_eq!(finished(at_shims().ensured(Err("no shim".to_string()))).unwrap_err(), "no shim");
    let at_runtime = || match at_shims().ensured(Ok(())).step {
        InstallStep::ProbeRuntime(s) => s,
        _ => panic!("the runtime is not probed"),
    };
    assert_eq!(
        finished(at_runtime().found(false, true, true)).unwrap_err(),
        "NODE_NOT_FOUND: Node.js runtime missing"
    );
    assert_eq!(
        finished(at_runtime().found(true, false, true)).unwrap_err(),
        "HARNESS_NOT_FOUND: dsh CLI missing"
    );
    assert_eq!(
        finished(at_runtime().found(true, true, false)).unwrap_err(),
        "WINDOW_NOT_FOUND: main window missing"
    );
}

#[test]
fn an_old_pnpm_is_replaced_by_the_bundled_one() {
    let at_pnpm = || match install(&mut down(), ids(&["a"])).step {
        InstallStep::LoadPresets(s) => match s.loaded(&presets()).step {
            InstallStep::EnsureShims(s) => match s.ensured(Ok(())).step {
                InstallStep::ProbeRuntime(s) => match s.found(true, true, true).step {
                    InstallStep::ProbeBundledPnpm(s) => s,
                    _ => panic!("pnpm is not probed"),
                },
                _ => panic!("the runtime is not probed"),
            },
            _ => panic!("shims are not ensured"),
        },
        _ => panic!("presets are not read"),
    };
    assert!(matches!(at_pnpm().probed(true).step, InstallStep::QueryService(s) if s.prefer_bundled_pnpm));
    let at_user = || match at_pnpm().probed(false).step {
        InstallStep::ProbeUserPnpm(s) => s,
        _ => panic!("the user's pnpm is not asked"),
    };
    let answer = |stdout: &str| Some(CommandOutput { success: true, stdout: stdout.to_string() });
    assert!(matches!(
        at_user().answered(answer("10.0.0\n")).step,
        InstallStep::QueryService(s) if !s.prefer_bundled_pnpm
    ));
    for probe in [None, answer("9.15.0"), answer("?")] {
        let turn = at_user().answered(probe);
        assert_eq!(
            shown(&turn),
            vec!["[pnpm] bundled pnpm not found, downloading before plugin install"]
        );
        assert!(matches!(turn.step, InstallStep::LocatePnpm(_)));
    }
}

#[test]
fn the_bundled_pnpm_is_unpacked_only_when_it_has_been_checked() {
    let at_address = || AwaitAddress { batch: prepared(&["a"]).batch };
    assert_eq!(finished(at_address().located(Err("no url".to_string()))).unwrap_err(), "no url");
    let at_archive = || match at_address().located(Ok("https://h/p/pnpm.tgz".to_string())).step {
        InstallStep::FetchPnpm(s) => s,
        _ => panic!("pnpm is not downloaded"),
    };
    assert_eq!(at_archive().url, "https://h/p/pnpm.tgz");
    assert_eq!(
        finished(at_archive().fetched(Err("offline".to_string()))).unwrap_err(),
        "PNPM_DOWNLOAD_FAILED: offline"
    );
    let at_check = || match at_archive().fetched(Ok(vec![1, 2, 3])).step {
        InstallStep::VerifyPnpm(s) => s,
        _ => panic!("pnpm is not checked"),
    };
    assert_eq!(at_check().archive.name, "pnpm.tgz");
    assert_eq!(at_check().archive.bytes, vec![1, 2, 3]);
    assert_eq!(
        finished(at_check().verified(Err("sha".to_string()))).unwrap_err(),
        "PNPM_INTEGRITY_FAILED: sha"
    );
    let at_unpacking = || match at_check().verified(Ok(())).step {
        InstallStep::UnpackPnpm(s) => s,
        _ => panic!("pnpm is not unpacked"),
    };
    assert_eq!(at_unpacking().archive.name, "pnpm.tgz");
    assert_eq!(at_unpacking().archive.bytes, vec![1, 2, 3]);
    let turn = at_unpacking().unpacked(Err("tar".to_string()));
    assert!(shown(&turn).is_empty());
    assert_eq!(finished(turn).unwrap_err(), "PNPM_EXTRACT_FAILED: tar");
    let turn = at_unpacking().unpacked(Ok(()));
    assert_eq!(shown(&turn), vec!["[pnpm] bundled pnpm ready"]);
    assert!(matches!(turn.step, InstallStep::QueryService(s) if s.prefer_bundled_pnpm));
}

#[test]
fn the_environment_says_which_pnpm_is_used() {
    let names = |prefer_bundled_pnpm: bool| {
        let step = AwaitEnvironment { batch: prepared(&["a"]).batch, prefer_bundled_pnpm };
        step.envs("/home", Some("/bin"))
            .into_iter()
            .map(|v| format!("{}={}", v.name, v.value))
            .collect::<Vec<String>>()
    };
    let common = ["DSH_HOME=/home", "DSH_TELEMETRY_DISABLED=1", "NO_COLOR=1"];
    assert_eq!(names(false), [&common[..], &["PATH=/bin"]].concat());
    assert_eq!(
        names(true),
        [&common[..], &["DSH_PREFER_BUNDLED_PNPM=1", "PATH=/bin"]].concat()
    );
}

#[test]
fn a_running_service_is_stopped_first() {
    let batch = prepared(&["a"]).batch;
    let query = plugin_setup::install::AwaitService { batch, prefer_bundled_pnpm: false };
    match query.running(true).step {
        InstallStep::StopService(s) => {
            assert!(matches!(s.stopped().step, InstallStep::PrepareEnvironment(s) if !s.prefer_bundled_pnpm));
        }
        _ => panic!("the service is not stopped"),
    }
}

#[test]
fn a_failure_does_not_stop_the_rest() {
    let turn = started(&["a", "nope", "b"], &down());
    assert_eq!(shown(&turn), vec!["[dsh] 开始安装 a…", "a: installing"]);
    let first = running(turn);
    assert_eq!(first.args(), vec!["plugin", "--profile", "web", "add", "a-pkg@2"]);
    let turn = first.ends(exit(3, "no allowlist here\n"), &down());
    assert_eq!(
        shown(&turn),
        vec![
            "[dsh] 插件 a 安装失败",
            "a: failed (dsh plugin exited with code 3)",
            "[dsh] 开始安装 b…",
            "b: installing",
        ]
    );
    let turn = running(turn).ends(exit(0, ""), &down());
    assert_eq!(shown(&turn), vec!["b: success"]);
    let results = finished(turn).unwrap();
    assert_eq!(
        brief(&results),
        vec![
            (
                "nope".to_string(),
                false,
                Some("PREINSTALL_INVALID_ID: unknown plugin id nope".to_string())
            ),
            ("a".to_string(), false, Some("dsh plugin exited with code 3".to_string())),
            ("b".to_string(), true, None),
        ]
    );
    assert_eq!(results[1].name, "The a");
    assert_eq!(tally(&results), (1, 2));
}

#[test]
fn a_command_that_does_not_run_is_a_failure() {
    let turn = running(started(&["b"], &down())).ends(Err("spawn".to_string()), &down());
    assert_eq!(
        brief(&finished(turn).unwrap()),
        vec![("b".to_string(), false, Some("spawn".to_string()))]
    );
}

#[test]
fn a_refused_build_is_allowed_and_tried_again() {
    let turn = running(started(&["b"], &down()))
        .ends(exit(1, "Ignored build scripts: node-pty@1.1.0\n"), &down());
    assert!(shown(&turn).is_empty());
    let adding = allowing(turn);
    assert_eq!(adding.keys, vec!["node-pty"]);
    assert_eq!(
        adding.merged(Some("allowBuilds:\n  a: true\nx: 1\n")).unwrap(),
        "allowBuilds:\n  a: true\n  'node-pty': true\nx: 1\n"
    );
    assert_eq!(adding.merged(Some("allowBuilds:\n  node-pty: true\n")), None);
    let turn = adding.writes(Ok(()), &down());
    assert_eq!(shown(&turn), vec!["[pnpm] 已放行插件构建（allowBuilds），重试安装…"]);
    let again = running(turn);
    assert_eq!(again.args()[4], "github:o/b");
    let turn = again.ends(exit(0, ""), &down());
    assert_eq!(brief(&finished(turn).unwrap()), vec![("b".to_string(), true, None)]);
}

#[test]
fn a_plugin_is_tried_again_only_so_often() {
    assert_eq!(MAX_ALLOW_LIST_RETRIES, 8);
    let mut turn = started(&["b"], &down());
    let mut runs = 0;
    loop {
        let run = running(turn);
        runs += 1;
        turn = run.ends(exit(-1, "allowBuilds:\n  k: true\n"), &down());
        if matches!(turn.step, InstallStep::Finish(_)) {
            break;
        }
        turn = allowing(turn).writes(Ok(()), &down());
    }
    assert_eq!(runs, 9);
    assert_eq!(
        brief(&finished(turn).unwrap()),
        vec![("b".to_string(), false, Some("dsh plugin exited with code -1".to_string()))]
    );
}

#[test]
fn a_workspace_that_cannot_be_written_fails_the_plugin() {
    let turn = running(started(&["b", "a"], &down()))
        .ends(exit(1, "allowBuilds:\n  k: true\n"), &down());
    let turn =
        allowing(turn).writes(Err(WorkspaceFailure::Write("disk full".to_string())), &down());
    assert_eq!(shown(&turn)[1], "b: failed (PREINSTALL_WRITE_WORKSPACE: disk full)");
    assert_eq!(running(turn).attempt.current.id, "a");
}

#[test]
fn a_cancelled_run_starts_nothing() {
    let error = "PREINSTALL_CANCELLED: install cancelled by user";
    assert_eq!(finished(started(&["a"], &up())).unwrap_err(), error);
    for reply in [exit(0, ""), exit(1, "allowBuilds:\n  k: true\n"), Err("x".to_string())] {
        let turn = running(started(&["a", "b"], &down())).ends(reply, &up());
        assert!(shown(&turn).is_empty());
        assert_eq!(finished(turn).unwrap_err(), error);
    }
    let turn = running(started(&["a", "b"], &down()))
        .ends(exit(1, "allowBuilds:\n  k: true\n"), &down());
    let turn = allowing(turn).writes(Err(WorkspaceFailure::NoProfileDir), &up());
    assert_eq!(finished(turn).unwrap_err(), error);
}

#[test]
fn the_flag_is_looked_at_between_two_plugins() {
    let error = "PREINSTALL_CANCELLED: install cancelled by user";
    for names in [&["a", "b"][..], &["a"][..]] {
        let turn = running(started(names, &down())).exited(exit(0, ""), &down());
        assert!(shown(&turn).is_empty());
        let turn = match turn.step {
            InstallStep::SettlePlugin(s) => s.settled(&down()),
            _ => panic!("the plugin has not ended"),
        };
        assert_eq!(shown(&turn), vec!["a: success"]);
        let turn = match turn.step {
            InstallStep::NextPlugin(s) => s.proceed(&up()),
            _ => panic!("the flag is not looked at"),
        };
        assert!(shown(&turn).is_empty());
        assert_eq!(finished(turn).unwrap_err(), error);
    }
    let turn = running(started(&["a", "b"], &down())).exited(exit(1, ""), &down());
    let turn = match turn.step {
        InstallStep::SettlePlugin(s) => s.settled(&up()),
        _ => panic!("the plugin has not ended"),
    };
    assert!(shown(&turn).is_empty());
    assert_eq!(finished(turn).unwrap_err(), error);
}

#[test]
fn a_cancelled_command_says_so() {
    assert!(matches!(
        install_one(0, exit(1, "allowBuilds:\n  k: true\n"), true),
        Verdict::Done(Err(e)) if e == "PREINSTALL_CANCELLED: user cancelled"
    ));
    assert!(matches!(install_one(0, exit(0, ""), true), Verdict::Done(Ok(()))));
    assert!(matches!(
        install_one(7, exit(1, "allowBuilds:\n  k: true\n"), false),
        Verdict::Retry(keys) if keys == vec!["k"]
    ));
    assert!(matches!(
        install_one(8, exit(1, "allowBuilds:\n  k: true\n"), false),
        Verdict::Done(Err(e)) if e == "dsh plugin exited with code 1"
    ));
}

#[test]
fn the_desktop_is_repaired_only_after_its_plugin() {
    let turn = running(started(&["dsh-win-terminal-inspector"], &down()))
        .ends(exit(0, ""), &down());
    match turn.step {
        InstallStep::ApplyInspector(s) => {
            let results = finished(s.applied()).unwrap();
            assert_eq!(results.len(), 1);
            assert!(results[0].success);
        }
        _ => panic!("the desktop is not repaired"),
    }
    let turn = running(started(&["dsh-win-terminal-inspector"], &down()))
        .ends(exit(1, ""), &down());
    assert!(!finished(turn).unwrap()[0].success);
}

#[test]
fn a_status_carries_its_error() {
    assert_eq!(PREINSTALL_STATUS_EVENT, "preinstall-plugin-status");
    let payload = status_payload("a", "failed", Some("why"));
    assert_eq!((payload.id.as_str(), payload.status.as_str()), ("a", "failed"));
    assert_eq!(payload.error.as_deref(), Some("why"));
    assert_eq!(status_payload("a", "success", None).error, None);
}
