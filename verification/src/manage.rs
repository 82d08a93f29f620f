//! Upgrading and removing one installed plugin.
//!
//! Like an installation, this is a chain of steps: each names what the shell does
//! next, and handing back what came of it gives the next step.

use crate::command::{
    check_runtime, command_line, env_views, environment, missing_part, plugin_args, plugin_envs,
    text_view, EnvVar,
};
use crate::install::{exit_view, outcome_view, Exit};
use crate::number::{push_i32, signed_decimal};
use crate::report::{notice_views, Notice, NoticeView};
use crate::text::string_views;
use vstd::prelude::*;

verus! {

/// What is done to the plugin.
#[derive(Clone, Copy, PartialEq, Eq, Structural)]
pub enum ManageVerb {
    /// Install its newest version over the present one.
    Add,
    /// Take it out.
    Remove,
}

/// A verb as the command takes it.
pub open spec fn verb_text(verb: ManageVerb) -> Seq<char> {
    match verb {
        ManageVerb::Add => "add"@,
        ManageVerb::Remove => "remove"@,
    }
}

/// A verb as the command takes it.
pub fn verb_str(verb: ManageVerb) -> (text: &'static str)
    ensures
        text@ == verb_text(verb),
{
    match verb {
        ManageVerb::Add => "add",
        ManageVerb::Remove => "remove",
    }
}

/// What is done, and to which plugin.
pub struct ManageTask {
    pub verb: ManageVerb,
    pub id: String,
}

/// The model of a task.
pub struct TaskView {
    pub verb: ManageVerb,
    pub id: Seq<char>,
}

impl View for ManageTask {
    type V = TaskView;

    open spec fn view(&self) -> TaskView {
        TaskView { verb: self.verb, id: self.id@ }
    }
}

/// Waits until the shims of pnpm and of the command are in place.
pub struct ManageShims {
    pub task: ManageTask,
}

/// Waits for what the command needs to run.
pub struct ManageRuntime {
    pub task: ManageTask,
}

/// Waits to hear whether the service is running.
pub struct ManageService {
    pub task: ManageTask,
}

/// Waits until the service has been stopped.
pub struct ManageStop {
    pub task: ManageTask,
}

/// Waits for the command.
pub struct ManageExit {
    pub task: ManageTask,
}

/// What the shell does next.
pub enum ManageStep {
    /// See that the shims are in place.
    EnsureShims(ManageShims),
    /// See whether Node.js, the command and the window are there.
    ProbeRuntime(ManageRuntime),
    /// See whether the service is running.
    QueryService(ManageService),
    /// Stop the service.
    StopService(ManageStop),
    /// Run the command, in the profile directory.
    RunCommand(ManageExit),
    /// Nothing: it is over.
    Finish(Result<(), String>),
}

/// A step, and what is to be shown before it.
pub struct ManageTurn {
    pub notices: Vec<Notice>,
    pub step: ManageStep,
}

/// The model of a step.
pub enum ManageStepView {
    EnsureShims(TaskView),
    ProbeRuntime(TaskView),
    QueryService(TaskView),
    StopService(TaskView),
    RunCommand(TaskView),
    Finish(Result<(), Seq<char>>),
}

/// The model of a turn.
pub struct ManageTurnView {
    pub notices: Seq<NoticeView>,
    pub step: ManageStepView,
}

impl View for ManageStep {
    type V = ManageStepView;

    open spec fn view(&self) -> ManageStepView {
        match self {
            ManageStep::EnsureShims(s) => ManageStepView::EnsureShims(s.task@),
            ManageStep::ProbeRuntime(s) => ManageStepView::ProbeRuntime(s.task@),
            ManageStep::QueryService(s) => ManageStepView::QueryService(s.task@),
            ManageStep::StopService(s) => ManageStepView::StopService(s.task@),
            ManageStep::RunCommand(s) => ManageStepView::RunCommand(s.task@),
            ManageStep::Finish(outcome) => ManageStepView::Finish(outcome_view(*outcome)),
        }
    }
}

impl View for ManageTurn {
    type V = ManageTurnView;

    open spec fn view(&self) -> ManageTurnView {
        ManageTurnView { notices: notice_views(self.notices@), step: self.step@ }
    }
}

/// A step with nothing to be shown before it.
pub open spec fn silently(step: ManageStepView) -> ManageTurnView {
    ManageTurnView { notices: Seq::empty(), step }
}

pub open spec fn manage_after_shims(
    task: TaskView,
    outcome: Result<(), Seq<char>>,
) -> ManageStepView {
    match outcome {
        Ok(_) => ManageStepView::ProbeRuntime(task),
        Err(e) => ManageStepView::Finish(Err(e)),
    }
}

pub open spec fn manage_after_runtime(
    task: TaskView,
    node: bool,
    dsh: bool,
    window: bool,
) -> ManageStepView {
    match missing_part(node, dsh, window) {
        Some(e) => ManageStepView::Finish(Err(e)),
        None => ManageStepView::QueryService(task),
    }
}

/// The command is run, and the log says so.
pub open spec fn command_turn(task: TaskView) -> ManageTurnView {
    ManageTurnView {
        notices: seq![
            NoticeView::Log("[dsh] plugin "@ + verb_text(task.verb) + " "@ + task.id + "…"@),
        ],
        step: ManageStepView::RunCommand(task),
    }
}

pub open spec fn manage_after_service(task: TaskView, running: bool) -> ManageTurnView {
    if running {
        silently(ManageStepView::StopService(task))
    } else {
        command_turn(task)
    }
}

/// The exit code 0 is success, and any other a failure.
pub open spec fn manage_outcome(
    task: TaskView,
    exit: Result<(int, Seq<char>), Seq<char>>,
) -> Result<(), Seq<char>> {
    match exit {
        Err(e) => Err(e),
        Ok((code, _)) => if code == 0 {
            Ok(())
        } else {
            Err(
                "PLUGIN_"@ + verb_text(task.verb) + "_FAILED: dsh plugin exited with code "@
                    + signed_decimal(code),
            )
        },
    }
}

/// A turn with nothing to be shown.
fn silent_turn(step: ManageStep) -> (turn: ManageTurn)
    ensures
        turn@ == silently(step@),
{
    let notices: Vec<Notice> = Vec::new();
    assert(notice_views(notices@) == Seq::<NoticeView>::empty());
    ManageTurn { notices, step }
}

/// Starts bringing a plugin to its newest version.
pub fn upgrade(id: &str) -> (turn: ManageTurn)
    ensures
        turn@ == silently(
            ManageStepView::EnsureShims((TaskView { verb: ManageVerb::Add, id: id@ })),
        ),
{
    run_manage(id, ManageVerb::Add)
}

/// Starts taking a plugin out.
pub fn remove(id: &str) -> (turn: ManageTurn)
    ensures
        turn@ == silently(
            ManageStepView::EnsureShims((TaskView { verb: ManageVerb::Remove, id: id@ })),
        ),
{
    run_manage(id, ManageVerb::Remove)
}

/// Starts `dsh plugin --profile web <verb> <id>`.
fn run_manage(id: &str, verb: ManageVerb) -> (turn: ManageTurn)
    ensures
        turn@ == silently(ManageStepView::EnsureShims((TaskView { verb, id: id@ }))),
{
    silent_turn(
        ManageStep::EnsureShims(ManageShims { task: ManageTask { verb, id: id.to_string() } }),
    )
}

impl ManageShims {
    /// The shims are in place, or could not be put there.
    pub fn ensured(self, outcome: Result<(), String>) -> (turn: ManageTurn)
        ensures
            turn@ == silently(manage_after_shims(self.task@, outcome_view(outcome))),
    {
        match outcome {
            Ok(_) => silent_turn(ManageStep::ProbeRuntime(ManageRuntime { task: self.task })),
            Err(e) => silent_turn(ManageStep::Finish(Err(e))),
        }
    }
}

impl ManageRuntime {
    /// Whether Node.js, the command and the window are there.
    pub fn found(self, node: bool, dsh: bool, window: bool) -> (turn: ManageTurn)
        ensures
            turn@ == silently(manage_after_runtime(self.task@, node, dsh, window)),
    {
        match check_runtime(node, dsh, window) {
            Some(e) => silent_turn(ManageStep::Finish(Err(e))),
            None => silent_turn(ManageStep::QueryService(ManageService { task: self.task })),
        }
    }
}

/// Has the command run.
fn start_command(task: ManageTask) -> (turn: ManageTurn)
    ensures
        turn@ == command_turn(task@),
{
    let mut notices: Vec<Notice> = Vec::new();
    let line = "[dsh] plugin ".to_string().concat(verb_str(task.verb)).concat(" ").concat(
        task.id.as_str(),
    ).concat("…");
    notices.push(Notice::Log(line));
    assert(notice_views(notices@) == command_turn(task@).notices);
    ManageTurn { notices, step: ManageStep::RunCommand(ManageExit { task }) }
}

impl ManageService {
    /// Whether the service is running.
    pub fn running(self, running: bool) -> (turn: ManageTurn)
        ensures
            turn@ == manage_after_service(self.task@, running),
    {
        if running {
            silent_turn(ManageStep::StopService(ManageStop { task: self.task }))
        } else {
            start_command(self.task)
        }
    }
}

impl ManageStop {
    /// The service has been stopped, or would not stop: the command runs anyway.
    pub fn stopped(self) -> (turn: ManageTurn)
        ensures
            turn@ == command_turn(self.task@),
    {
        start_command(self.task)
    }
}

impl ManageExit {
    /// The arguments, after the program itself, of the command to be run.
    pub fn args(&self) -> (args: Vec<String>)
        ensures
            string_views(args@) == command_line(verb_text(self.task@.verb), self.task@.id),
    {
        plugin_args(verb_str(self.task.verb), self.task.id.as_str())
    }

    /// The variables of the command, given where its data lives and the search
    /// path. Which pnpm is used is left to the shim.
    pub fn envs(&self, home: &str, path: Option<&str>) -> (vars: Vec<EnvVar>)
        ensures
            env_views(vars@) == environment(home@, false, text_view(path)),
    {
        plugin_envs(home, false, path)
    }

    /// The command has ended, or did not run.
    pub fn exited(self, exit: Exit) -> (turn: ManageTurn)
        ensures
            turn@ == silently(
                ManageStepView::Finish(manage_outcome(self.task@, exit_view(exit))),
            ),
    {
        match exit {
            Err(e) => silent_turn(ManageStep::Finish(Err(e))),
            Ok((code, _)) => {
                if code == 0 {
                    return silent_turn(ManageStep::Finish(Ok(())));
                }
                let mut error = "PLUGIN_".to_string().concat(verb_str(self.task.verb)).concat(
                    "_FAILED: dsh plugin exited with code ",
                );
                push_i32(&mut error, code);
                silent_turn(ManageStep::Finish(Err(error)))
            },
        }
    }
}

/// A command succeeds exactly where it ran and exited with code 0.
pub proof fn law_success_is_exit_code_zero(
    task: TaskView,
    exit: Result<(int, Seq<char>), Seq<char>>,
)
    ensures
        manage_outcome(task, exit) is Ok <==> (exit matches Ok((code, _)) && code == 0),
{
}

/// Whether `b` can come right after `a`: some reply of the shell leads there.
pub open spec fn manage_follows(a: ManageStepView, b: ManageStepView) -> bool {
    match a {
        ManageStepView::EnsureShims(task) => exists|outcome: Result<(), Seq<char>>|
            b == #[trigger] manage_after_shims(task, outcome),
        ManageStepView::ProbeRuntime(task) => exists|node: bool, dsh: bool, window: bool|
            b == #[trigger] manage_after_runtime(task, node, dsh, window),
        ManageStepView::QueryService(task) => exists|running: bool|
            b == (#[trigger] manage_after_service(task, running)).step,
        ManageStepView::StopService(task) => b == command_turn(task).step,
        ManageStepView::RunCommand(task) => exists|exit: Result<(int, Seq<char>), Seq<char>>|
            b == ManageStepView::Finish(#[trigger] manage_outcome(task, exit)),
        ManageStepView::Finish(_) => false,
    }
}

/// How many steps can follow at most.
pub open spec fn manage_steps_left(step: ManageStepView) -> nat {
    match step {
        ManageStepView::EnsureShims(_) => 5,
        ManageStepView::ProbeRuntime(_) => 4,
        ManageStepView::QueryService(_) => 3,
        ManageStepView::StopService(_) => 2,
        ManageStepView::RunCommand(_) => 1,
        ManageStepView::Finish(_) => 0,
    }
}

/// The task that a step is about.
pub open spec fn task_at(step: ManageStepView) -> Option<TaskView> {
    match step {
        ManageStepView::EnsureShims(task) => Some(task),
        ManageStepView::ProbeRuntime(task) => Some(task),
        ManageStepView::QueryService(task) => Some(task),
        ManageStepView::StopService(task) => Some(task),
        ManageStepView::RunCommand(task) => Some(task),
        ManageStepView::Finish(_) => None,
    }
}

/// Every step brings the end nearer, and until then the task stays the same. It
/// succeeds only with the command, and fails only for want of the shims or of
/// what the command needs, or with the command.
pub proof fn law_manage_step(a: ManageStepView, b: ManageStepView)
    requires
        manage_follows(a, b),
    ensures
        manage_steps_left(b) < manage_steps_left(a),
        b is Finish || task_at(b) == task_at(a),
        b == ManageStepView::Finish(Ok(())) ==> a is RunCommand,
        b matches ManageStepView::Finish(Err(_)) ==> a is EnsureShims || a is ProbeRuntime
            || a is RunCommand,
{
}

/// The command never runs while the service is known to be running: a running
/// service is stopped first, and only then, or where none is running, the command
/// runs.
pub proof fn law_service_is_stopped_before_the_command(task: TaskView, a: ManageStepView)
    ensures
        manage_after_service(task, true).step == ManageStepView::StopService(task),
        manage_after_service(task, true).notices.len() == 0,
        manage_after_service(task, false).step == ManageStepView::RunCommand(task),
        manage_follows(a, ManageStepView::RunCommand(task)) <==> a == ManageStepView::StopService(
            task,
        ) || a == ManageStepView::QueryService(task),
{
    assert(manage_after_service(task, false).step == ManageStepView::RunCommand(task));
}

/// Right before the command runs, the log names what is done and to which plugin.
pub proof fn law_command_is_announced(task: TaskView)
    ensures
        command_turn(task).step == ManageStepView::RunCommand(task),
        command_turn(task).notices == seq![
            NoticeView::Log("[dsh] plugin "@ + verb_text(task.verb) + " "@ + task.id + "…"@),
        ],
        manage_after_service(task, false) == command_turn(task),
        verb_text(ManageVerb::Add) == "add"@,
        verb_text(ManageVerb::Remove) == "remove"@,
{
}

/// A task goes on exactly where the shims are in place and nothing is missing; what
/// stops it is passed on as it is.
pub proof fn law_what_is_missing_stops_a_task(
    task: TaskView,
    error: Seq<char>,
    node: bool,
    dsh: bool,
    window: bool,
)
    ensures
        manage_after_shims(task, Ok(())) == ManageStepView::ProbeRuntime(task),
        manage_after_shims(task, Err(error)) == ManageStepView::Finish(Err(error)),
        node && dsh && window ==> manage_after_runtime(task, node, dsh, window)
            == ManageStepView::QueryService(task),
        !node ==> manage_after_runtime(task, node, dsh, window) == ManageStepView::Finish(
            Err("NODE_NOT_FOUND: Node.js runtime missing"@),
        ),
        node && !dsh ==> manage_after_runtime(task, node, dsh, window) == ManageStepView::Finish(
            Err("HARNESS_NOT_FOUND: dsh CLI missing"@),
        ),
        node && dsh && !window ==> manage_after_runtime(task, node, dsh, window)
            == ManageStepView::Finish(Err("WINDOW_NOT_FOUND: main window missing"@)),
{
}

/// A command that fails names what was done and its exit code, and one that did not
/// run says why.
pub proof fn law_failed_command_says_why(
    task: TaskView,
    code: int,
    output: Seq<char>,
    error: Seq<char>,
)
    ensures
        manage_outcome(task, Ok((0, output))) == Ok::<(), Seq<char>>(()),
        code != 0 ==> manage_outcome(task, Ok((code, output))) == Err::<(), Seq<char>>(
            "PLUGIN_"@ + verb_text(task.verb) + "_FAILED: dsh plugin exited with code "@
                + signed_decimal(code),
        ),
        manage_outcome(task, Err(error)) == Err::<(), Seq<char>>(error),
{
}

/// A silent turn shows nothing, and goes on as it says.
pub proof fn law_silent_turns_show_nothing(step: ManageStepView)
    ensures
        silently(step).notices == Seq::<NoticeView>::empty(),
        silently(step).step == step,
{
}

/// The views of steps are what they hold.
pub proof fn law_manage_steps_are_seen_whole(task: ManageTask, turn: ManageTurn)
    ensures
        task@.verb == task.verb && task@.id == task.id@,
        ManageStep::EnsureShims(ManageShims { task })@ == ManageStepView::EnsureShims(task@),
        ManageStep::ProbeRuntime(ManageRuntime { task })@ == ManageStepView::ProbeRuntime(task@),
        ManageStep::QueryService(ManageService { task })@ == ManageStepView::QueryService(task@),
        ManageStep::StopService(ManageStop { task })@ == ManageStepView::StopService(task@),
        ManageStep::RunCommand(ManageExit { task })@ == ManageStepView::RunCommand(task@),
        ManageStep::Finish(Ok(()))@ == ManageStepView::Finish(Ok(())),
        forall|e: String| #[trigger]
            ManageStep::Finish(Err(e))@ == ManageStepView::Finish(Err(e@)),
        turn@.notices == notice_views(turn.notices@),
        turn@.step == turn.step@,
{
}

} // verus!
