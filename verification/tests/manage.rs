use plugin_setup::manage::{remove, upgrade, ManageStep, ManageTurn};
use plugin_setup::report::Notice;

fn logged(turn: &ManageTurn) -> Vec<String> {
    turn.notices
        .iter()
        .map(|n| match n {
            Notice::Log(line) => line.clone(),
            Notice::Status(_) => panic!("no status is announced"),
        })
        .collect()
}

/// Takes the task up to its command.
fn started(turn: ManageTurn, service: bool) -> ManageTurn {
    let mut turn = turn;
    loop {
        turn = match turn.step {
            ManageStep::EnsureShims(s) => s.ensured(Ok(())),
            ManageStep::ProbeRuntime(s) => s.found(true, true, true),
            ManageStep::QueryService(s) => s.running(service),
            ManageStep::StopService(s) => {
                assert!(service);
                s.stopped()
            }
            step => return ManageTurn { notices: turn.notices, step },
        }
    }
}

fn outcome(turn: ManageTurn) -> Result<(), String> {
    match turn.step {
        ManageStep::Finish(r) => r,
        _ => panic!("it is not over"),
    }
}

#[test]
fn an_upgrade_adds_the_package() {
    let turn = started(upgrade("p"), false);
    assert_eq!(logged(&turn), vec!["[dsh] plugin add p…"]);
    match turn.step {
        ManageStep::RunCommand(s) => {
            assert_eq!(s.args(), vec!["plugin", "--profile", "web", "add", "p"]);
            let vars: Vec<String> = s
                .envs("/home", None)
                .into_iter()
                .map(|v| format!("{}={}", v.name, v.value))
                .collect();
            assert_eq!(vars, vec!["DSH_HOME=/home", "DSH_TELEMETRY_DISABLED=1", "NO_COLOR=1"]);
            assert_eq!(outcome(s.exited(Ok((0, "out".to_string())))), Ok(()));
        }
        _ => panic!("no command is run"),
    }
}

#[test]
fn a_removal_removes_the_package() {
    let turn = started(remove("p"), true);
    assert_eq!(logged(&turn), vec!["[dsh] plugin remove p…"]);
    match turn.step {
        ManageStep::RunCommand(s) => {
            assert_eq!(s.args(), vec!["plugin", "--profile", "web", "remove", "p"]);
            assert_eq!(
                outcome(s.exited(Ok((1, String::new())))).unwrap_err(),
                "PLUGIN_remove_FAILED: dsh plugin exited with code 1"
            );
        }
        _ => panic!("no command is run"),
    }
}

#[test]
fn a_failing_upgrade_says_so() {
    match started(upgrade("p"), false).step {
        ManageStep::RunCommand(s) => assert_eq!(
            outcome(s.exited(Ok((-2, String::new())))).unwrap_err(),
            "PLUGIN_add_FAILED: dsh plugin exited with code -2"
        ),
        _ => panic!("no command is run"),
    }
    match started(upgrade("p"), false).step {
        ManageStep::RunCommand(s) => {
            assert_eq!(outcome(s.exited(Err("spawn".to_string()))).unwrap_err(), "spawn")
        }
        _ => panic!("no command is run"),
    }
}

#[test]
fn nothing_is_run_where_something_is_missing() {
    match upgrade("p").step {
        ManageStep::EnsureShims(s) => {
            assert_eq!(outcome(s.ensured(Err("no shim".to_string()))).unwrap_err(), "no shim")
        }
        _ => panic!("shims are not ensured"),
    }
    for (found, error) in [
        ((false, true, true), "NODE_NOT_FOUND: Node.js runtime missing"),
        ((true, false, true), "HARNESS_NOT_FOUND: dsh CLI missing"),
        ((true, true, false), "WINDOW_NOT_FOUND: main window missing"),
    ] {
        match remove("p").step {
            ManageStep::EnsureShims(s) => match s.ensured(Ok(())).step {
                ManageStep::ProbeRuntime(s) => {
                    assert_eq!(outcome(s.found(found.0, found.1, found.2)).unwrap_err(), error)
                }
                _ => panic!("the runtime is not probed"),
            },
            _ => panic!("shims are not ensured"),
        }
    }
}
