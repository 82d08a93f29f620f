//! A run that installs plugins.
//!
//! A run is a chain of steps. Each step names one thing that the shell does next,
//! and carries the run up to that point; handing back what came of it gives the
//! next step, together with notices that are to be shown first.

use crate::allow_builds::{distinct, parse_allowlist_keys, requested_keys};
use crate::cancel::CancelFlag;
use crate::command::{
    check_runtime, command_line, env_views, environment, missing_part, plugin_args, plugin_envs,
    text_view, EnvVar,
};
use crate::number::{push_i32, signed_decimal};
use crate::pnpm::{
    describe_pnpm_failure, detected_major, download_file_name, file_name, is_trusted,
    trusts_user_pnpm, user_pnpm_major_version, Archive, ArchiveView, CommandOutput, PnpmFailure,
};
use crate::report::{
    failed, installing, notice_views, result_views, status_payload, succeeded, Notice, NoticeView,
    PreinstallResult, ResultView,
};
use crate::selection::{
    batch_of, plugin_views, select, Batch, BatchView, PluginView, PreinstallPluginInfo,
};
use crate::text::string_views;
use crate::workspace::{
    add_allow_build_keys, current_text, describe_workspace_failure, merged, nothing_to_add,
    workspace_failure_text, WorkspaceFailure,
};
use vstd::prelude::*;

verus! {

/// How often one plugin is tried again after keys have been added to the
/// allowlist. Every attempt settles what pnpm complained of last, and a plugin
/// with several native dependencies needs several; the bound ends a plugin that
/// complains for ever.
pub const MAX_ALLOW_LIST_RETRIES: usize = 8;

/// The plugin that needs a repair of the desktop once it is installed.
pub const INSPECTOR_ID: &'static str = "dsh-win-terminal-inspector";

/// What a command did: the exit code and the output, or why it did not run.
pub type Exit = Result<(i32, String), String>;

// ---------------------------------------------------------------------------
// Steps
// ---------------------------------------------------------------------------

/// Waits for the presets.
pub struct AwaitPresets {
    pub ids: Vec<String>,
}

/// Waits until the shims of pnpm and of the command are in place.
pub struct AwaitShims {
    pub batch: Batch,
}

/// Waits for what the command needs to run.
pub struct AwaitRuntime {
    pub batch: Batch,
}

/// Waits to hear whether the bundled pnpm is there.
pub struct AwaitBundledPnpm {
    pub batch: Batch,
}

/// Waits for what the pnpm of the user says of itself.
pub struct AwaitUserPnpm {
    pub batch: Batch,
}

/// Waits for the address of the bundled pnpm.
pub struct AwaitAddress {
    pub batch: Batch,
}

/// Waits for the archive of the bundled pnpm.
pub struct AwaitArchive {
    pub batch: Batch,
    pub url: String,
}

/// Waits to hear whether the archive is what was expected.
pub struct AwaitCheck {
    pub batch: Batch,
    pub archive: Archive,
}

/// Waits until the archive, found to be what was expected, has been unpacked.
pub struct AwaitUnpacking {
    pub batch: Batch,
    pub archive: Archive,
}

/// Waits to hear whether the service is running.
pub struct AwaitService {
    pub batch: Batch,
    pub prefer_bundled_pnpm: bool,
}

/// Waits until the service has been stopped.
pub struct AwaitStop {
    pub batch: Batch,
    pub prefer_bundled_pnpm: bool,
}

/// Waits for the environment of the command.
pub struct AwaitEnvironment {
    pub batch: Batch,
    pub prefer_bundled_pnpm: bool,
}

/// One plugin that is being installed, and the batch behind it.
pub struct Attempt {
    pub batch: Batch,
    pub current: PreinstallPluginInfo,
    pub retries: usize,
}

/// Waits for the command that installs a plugin.
pub struct AwaitExit {
    pub attempt: Attempt,
}

/// Waits until the keys are in the workspace file.
pub struct AwaitAllowBuilds {
    pub attempt: Attempt,
    pub keys: Vec<String>,
}

/// Waits to hear whether the user has cancelled the run, now that the
/// installation of a plugin has ended.
pub struct AwaitSettling {
    pub attempt: Attempt,
    pub outcome: Result<(), String>,
}

/// Waits to hear whether the user has cancelled the run, before the next plugin.
pub struct AwaitNext {
    pub batch: Batch,
}

/// Waits for the repair of the desktop.
pub struct AwaitInspector {
    pub results: Vec<PreinstallResult>,
}

/// What the shell does next.
pub enum InstallStep {
    /// Read the presets.
    LoadPresets(AwaitPresets),
    /// See that the shims are in place.
    EnsureShims(AwaitShims),
    /// See whether Node.js, the command and the window are there.
    ProbeRuntime(AwaitRuntime),
    /// See whether the bundled pnpm is there.
    ProbeBundledPnpm(AwaitBundledPnpm),
    /// Ask the pnpm of the user for its version.
    ProbeUserPnpm(AwaitUserPnpm),
    /// Find out where the bundled pnpm is to be had.
    LocatePnpm(AwaitAddress),
    /// Download it.
    FetchPnpm(AwaitArchive),
    /// Check it.
    VerifyPnpm(AwaitCheck),
    /// Unpack it.
    UnpackPnpm(AwaitUnpacking),
    /// See whether the service is running.
    QueryService(AwaitService),
    /// Stop the service.
    StopService(AwaitStop),
    /// Build the environment of the command.
    PrepareEnvironment(AwaitEnvironment),
    /// Run the command for a plugin.
    RunPlugin(AwaitExit),
    /// Add keys to the workspace file.
    AllowBuilds(AwaitAllowBuilds),
    /// Look at the cancel flag, now that a plugin has ended.
    SettlePlugin(AwaitSettling),
    /// Look at the cancel flag, before the next plugin.
    NextPlugin(AwaitNext),
    /// Repair the desktop.
    ApplyInspector(AwaitInspector),
    /// Nothing: the run is over.
    Finish(Result<Vec<PreinstallResult>, String>),
}

/// A step, and what is to be shown before it.
pub struct Turn {
    pub notices: Vec<Notice>,
    pub step: InstallStep,
}

// ---------------------------------------------------------------------------
// Model
// ---------------------------------------------------------------------------

/// The model of an attempt.
pub struct AttemptView {
    pub batch: BatchView,
    pub current: PluginView,
    pub retries: nat,
}

/// The model of a step.
pub enum StepView {
    LoadPresets(Seq<Seq<char>>),
    EnsureShims(BatchView),
    ProbeRuntime(BatchView),
    ProbeBundledPnpm(BatchView),
    ProbeUserPnpm(BatchView),
    LocatePnpm(BatchView),
    FetchPnpm(BatchView, Seq<char>),
    VerifyPnpm(BatchView, ArchiveView),
    UnpackPnpm(BatchView, ArchiveView),
    QueryService(BatchView, bool),
    StopService(BatchView, bool),
    PrepareEnvironment(BatchView, bool),
    RunPlugin(AttemptView),
    AllowBuilds(AttemptView, Seq<Seq<char>>),
    SettlePlugin(AttemptView, Result<(), Seq<char>>),
    NextPlugin(BatchView),
    ApplyInspector(Seq<ResultView>),
    Finish(Result<Seq<ResultView>, Seq<char>>),
}

/// The model of a turn.
pub struct TurnView {
    pub notices: Seq<NoticeView>,
    pub step: StepView,
}

impl View for Attempt {
    type V = AttemptView;

    open spec fn view(&self) -> AttemptView {
        AttemptView {
            batch: self.batch@,
            current: self.current@,
            retries: self.retries as nat,
        }
    }
}

impl View for InstallStep {
    type V = StepView;

    open spec fn view(&self) -> StepView {
        match self {
            InstallStep::LoadPresets(s) => StepView::LoadPresets(string_views(s.ids@)),
            InstallStep::EnsureShims(s) => StepView::EnsureShims(s.batch@),
            InstallStep::ProbeRuntime(s) => StepView::ProbeRuntime(s.batch@),
            InstallStep::ProbeBundledPnpm(s) => StepView::ProbeBundledPnpm(s.batch@),
            InstallStep::ProbeUserPnpm(s) => StepView::ProbeUserPnpm(s.batch@),
            InstallStep::LocatePnpm(s) => StepView::LocatePnpm(s.batch@),
            InstallStep::FetchPnpm(s) => StepView::FetchPnpm(s.batch@, s.url@),
            InstallStep::VerifyPnpm(s) => StepView::VerifyPnpm(s.batch@, s.archive@),
            InstallStep::UnpackPnpm(s) => StepView::UnpackPnpm(s.batch@, s.archive@),
            InstallStep::QueryService(s) => StepView::QueryService(s.batch@, s.prefer_bundled_pnpm),
            InstallStep::StopService(s) => StepView::StopService(s.batch@, s.prefer_bundled_pnpm),
            InstallStep::PrepareEnvironment(s) => StepView::PrepareEnvironment(
                s.batch@,
                s.prefer_bundled_pnpm,
            ),
            InstallStep::RunPlugin(s) => StepView::RunPlugin(s.attempt@),
            InstallStep::AllowBuilds(s) => StepView::AllowBuilds(s.attempt@, string_views(s.keys@)),
            InstallStep::SettlePlugin(s) => StepView::SettlePlugin(
                s.attempt@,
                outcome_view(s.outcome),
            ),
            InstallStep::NextPlugin(s) => StepView::NextPlugin(s.batch@),
            InstallStep::ApplyInspector(s) => StepView::ApplyInspector(result_views(s.results@)),
            InstallStep::Finish(Ok(results)) => StepView::Finish(Ok(result_views(results@))),
            InstallStep::Finish(Err(error)) => StepView::Finish(Err(error@)),
        }
    }
}

impl View for Turn {
    type V = TurnView;

    open spec fn view(&self) -> TurnView {
        TurnView { notices: notice_views(self.notices@), step: self.step@ }
    }
}

/// A step with nothing to be shown before it.
pub open spec fn quietly(step: StepView) -> TurnView {
    TurnView { notices: Seq::empty(), step }
}

/// What a run that the user has cancelled ends with.
pub open spec fn cancelled_step() -> StepView {
    StepView::Finish(Err("PREINSTALL_CANCELLED: install cancelled by user"@))
}

/// The first step of a run.
pub open spec fn first_step(ids: Seq<Seq<char>>) -> StepView {
    if ids.len() == 0 {
        StepView::Finish(Err("PREINSTALL_EMPTY: no plugins selected"@))
    } else {
        StepView::LoadPresets(ids)
    }
}

/// Where no id is known the run is over, and says so of each id.
pub open spec fn after_presets(ids: Seq<Seq<char>>, presets: Seq<PluginView>) -> StepView {
    let batch = batch_of(presets, ids);
    if batch.queue.len() == 0 {
        StepView::Finish(Ok(batch.results))
    } else {
        StepView::EnsureShims(batch)
    }
}

pub open spec fn after_shims(batch: BatchView, shims: Result<(), Seq<char>>) -> StepView {
    match shims {
        Ok(_) => StepView::ProbeRuntime(batch),
        Err(e) => StepView::Finish(Err(e)),
    }
}

pub open spec fn after_runtime(batch: BatchView, node: bool, dsh: bool, window: bool) -> StepView {
    match missing_part(node, dsh, window) {
        Some(e) => StepView::Finish(Err(e)),
        None => StepView::ProbeBundledPnpm(batch),
    }
}

/// The bundled pnpm is used wherever it is there.
pub open spec fn after_bundled_pnpm(batch: BatchView, present: bool) -> StepView {
    if present {
        StepView::QueryService(batch, true)
    } else {
        StepView::ProbeUserPnpm(batch)
    }
}

/// The pnpm of the user is used where it is new enough; otherwise the bundled
/// one is downloaded.
pub open spec fn after_user_pnpm(batch: BatchView, major: Option<u32>) -> TurnView {
    if is_trusted(major) {
        quietly(StepView::QueryService(batch, false))
    } else {
        TurnView {
            notices: seq![
                NoticeView::Log("[pnpm] bundled pnpm not found, downloading before plugin install"@),
            ],
            step: StepView::LocatePnpm(batch),
        }
    }
}

pub open spec fn after_address(batch: BatchView, url: Result<Seq<char>, Seq<char>>) -> StepView {
    match url {
        Ok(url) => StepView::FetchPnpm(batch, url),
        Err(e) => StepView::Finish(Err(e)),
    }
}

pub open spec fn after_fetch(
    batch: BatchView,
    url: Seq<char>,
    bytes: Result<Seq<u8>, Seq<char>>,
) -> StepView {
    match bytes {
        Ok(bytes) => StepView::VerifyPnpm(batch, ArchiveView { name: file_name(url), bytes }),
        Err(e) => StepView::Finish(Err("PNPM_DOWNLOAD_FAILED: "@ + e)),
    }
}

/// Only an archive that is what was expected is unpacked.
pub open spec fn after_check(
    batch: BatchView,
    archive: ArchiveView,
    outcome: Result<(), Seq<char>>,
) -> StepView {
    match outcome {
        Ok(_) => StepView::UnpackPnpm(batch, archive),
        Err(e) => StepView::Finish(Err("PNPM_INTEGRITY_FAILED: "@ + e)),
    }
}

pub open spec fn after_unpacking(batch: BatchView, outcome: Result<(), Seq<char>>) -> TurnView {
    match outcome {
        Ok(_) => TurnView {
            notices: seq![NoticeView::Log("[pnpm] bundled pnpm ready"@)],
            step: StepView::QueryService(batch, true),
        },
        Err(e) => quietly(StepView::Finish(Err("PNPM_EXTRACT_FAILED: "@ + e))),
    }
}

pub open spec fn after_service(
    batch: BatchView,
    prefer_bundled_pnpm: bool,
    running: bool,
) -> StepView {
    if running {
        StepView::StopService(batch, prefer_bundled_pnpm)
    } else {
        StepView::PrepareEnvironment(batch, prefer_bundled_pnpm)
    }
}

/// Whether the plugin that needs a repair of the desktop was installed.
pub open spec fn inspector_installed(results: Seq<ResultView>) -> bool {
    exists|i: int|
        0 <= i < results.len() && (#[trigger] results[i]).id == INSPECTOR_ID@ && results[i].success
}

/// The last step but, for the repair of the desktop, one.
pub open spec fn conclude(results: Seq<ResultView>) -> StepView {
    if inspector_installed(results) {
        StepView::ApplyInspector(results)
    } else {
        StepView::Finish(Ok(results))
    }
}

/// Goes on with the next plugin in the queue, unless the user has cancelled the
/// run or none is left.
pub open spec fn next_plugin(batch: BatchView, cancelled: bool) -> TurnView {
    if cancelled {
        quietly(cancelled_step())
    } else if batch.queue.len() == 0 {
        quietly(conclude(batch.results))
    } else {
        let current = batch.queue[0];
        TurnView {
            notices: seq![
                NoticeView::Log("[dsh] 开始安装 "@ + current.id + "…"@),
                NoticeView::Status(installing(current.id)),
            ],
            step: StepView::RunPlugin(
                AttemptView {
                    batch: BatchView { queue: batch.queue.drop_first(), results: batch.results },
                    current,
                    retries: 0,
                },
            ),
        }
    }
}

/// The result of a plugin, by how its installation ended.
pub open spec fn result_of(plugin: PluginView, outcome: Result<(), Seq<char>>) -> ResultView {
    ResultView {
        id: plugin.id,
        name: plugin.name,
        success: outcome is Ok,
        error: match outcome {
            Ok(_) => None,
            Err(e) => Some(e),
        },
    }
}

/// What is shown when the installation of a plugin has ended.
pub open spec fn outcome_notices(
    plugin: PluginView,
    outcome: Result<(), Seq<char>>,
) -> Seq<NoticeView> {
    match outcome {
        Ok(_) => seq![NoticeView::Status(succeeded(plugin.id))],
        Err(e) => seq![
            NoticeView::Log("[dsh] 插件 "@ + plugin.id + " 安装失败"@),
            NoticeView::Status(failed(plugin.id, e)),
        ],
    }
}

/// Records how the installation of a plugin ended. Where the user has cancelled
/// the run meanwhile, nothing is recorded.
pub open spec fn settle(
    attempt: AttemptView,
    outcome: Result<(), Seq<char>>,
    cancelled: bool,
) -> TurnView {
    if cancelled {
        quietly(cancelled_step())
    } else {
        TurnView {
            notices: outcome_notices(attempt.current, outcome),
            step: StepView::NextPlugin(
                BatchView {
                    queue: attempt.batch.queue,
                    results: attempt.batch.results.push(result_of(attempt.current, outcome)),
                },
            ),
        }
    }
}

/// What one end of the command means for a plugin.
pub enum VerdictView {
    /// The installation has ended.
    Done(Result<(), Seq<char>>),
    /// It is to be tried again once the keys are allowed.
    Retry(Seq<Seq<char>>),
}

/// The exit code 0 is success. Any other is a failure, unless pnpm says which
/// keys it misses and the plugin has retries left.
pub open spec fn verdict(
    retries: nat,
    exit: Result<(int, Seq<char>), Seq<char>>,
    cancelled: bool,
) -> VerdictView {
    match exit {
        Err(e) => VerdictView::Done(Err(e)),
        Ok((code, output)) => {
            let keys = distinct(requested_keys(output));
            if code == 0 {
                VerdictView::Done(Ok(()))
            } else if cancelled {
                VerdictView::Done(Err("PREINSTALL_CANCELLED: user cancelled"@))
            } else if keys.len() == 0 || retries >= MAX_ALLOW_LIST_RETRIES {
                VerdictView::Done(Err("dsh plugin exited with code "@ + signed_decimal(code)))
            } else {
                VerdictView::Retry(keys)
            }
        },
    }
}

pub open spec fn after_exit(
    attempt: AttemptView,
    exit: Result<(int, Seq<char>), Seq<char>>,
    cancelled: bool,
) -> StepView {
    match verdict(attempt.retries, exit, cancelled) {
        VerdictView::Done(outcome) => StepView::SettlePlugin(attempt, outcome),
        VerdictView::Retry(keys) => StepView::AllowBuilds(
            AttemptView {
                batch: attempt.batch,
                current: attempt.current,
                retries: attempt.retries + 1,
            },
            keys,
        ),
    }
}

pub open spec fn after_allow_builds(
    attempt: AttemptView,
    outcome: Result<(), Seq<char>>,
) -> TurnView {
    match outcome {
        Ok(_) => TurnView {
            notices: seq![NoticeView::Log("[pnpm] 已放行插件构建（allowBuilds），重试安装…"@)],
            step: StepView::RunPlugin(attempt),
        },
        Err(e) => quietly(StepView::SettlePlugin(attempt, Err(e))),
    }
}

// ---------------------------------------------------------------------------
// The run
// ---------------------------------------------------------------------------

/// What an end of the command holds.
pub open spec fn exit_view(exit: Exit) -> Result<(int, Seq<char>), Seq<char>> {
    match exit {
        Ok((code, output)) => Ok((code as int, output@)),
        Err(e) => Err(e@),
    }
}

/// What a plain outcome holds.
pub open spec fn outcome_view(outcome: Result<(), String>) -> Result<(), Seq<char>> {
    match outcome {
        Ok(_) => Ok(()),
        Err(e) => Err(e@),
    }
}

/// A turn with nothing to be shown.
fn quiet_turn(step: InstallStep) -> (turn: Turn)
    ensures
        turn@ == quietly(step@),
{
    let notices: Vec<Notice> = Vec::new();
    assert(notice_views(notices@) == Seq::<NoticeView>::empty());
    Turn { notices, step }
}

/// A run that the user has cancelled.
fn cancelled_turn() -> (turn: Turn)
    ensures
        turn@ == quietly(cancelled_step()),
{
    quiet_turn(
        InstallStep::Finish(Err("PREINSTALL_CANCELLED: install cancelled by user".to_string())),
    )
}

/// A turn with one line for the log.
fn logged_turn(line: &str, step: InstallStep) -> (turn: Turn)
    ensures
        turn@ == (TurnView { notices: seq![NoticeView::Log(line@)], step: step@ }),
{
    let mut notices: Vec<Notice> = Vec::new();
    notices.push(Notice::Log(line.to_string()));
    assert(notice_views(notices@) == seq![NoticeView::Log(line@)]);
    Turn { notices, step }
}

/// Starts a run for the plugins with the given ids. A cancellation that came
/// before does not count.
pub fn install(flag: &mut CancelFlag, ids: Vec<String>) -> (turn: Turn)
    ensures
        !final(flag).cancelled,
        turn@ == quietly(first_step(string_views(ids@))),
{
    flag.cancelled = false;
    if ids.len() == 0 {
        quiet_turn(
            InstallStep::Finish(Err("PREINSTALL_EMPTY: no plugins selected".to_string())),
        )
    } else {
        quiet_turn(InstallStep::LoadPresets(AwaitPresets { ids }))
    }
}

impl AwaitPresets {
    /// The presets are these.
    pub fn loaded(self, presets: &[PreinstallPluginInfo]) -> (turn: Turn)
        ensures
            turn@ == quietly(after_presets(string_views(self.ids@), plugin_views(presets@))),
    {
        let batch = select(&self.ids, presets);
        if batch.queue.len() == 0 {
            quiet_turn(InstallStep::Finish(Ok(batch.results)))
        } else {
            quiet_turn(InstallStep::EnsureShims(AwaitShims { batch }))
        }
    }
}

impl AwaitShims {
    /// The shims are in place, or could not be put there.
    pub fn ensured(self, outcome: Result<(), String>) -> (turn: Turn)
        ensures
            turn@ == quietly(after_shims(self.batch@, outcome_view(outcome))),
    {
        match outcome {
            Ok(_) => quiet_turn(InstallStep::ProbeRuntime(AwaitRuntime { batch: self.batch })),
            Err(e) => quiet_turn(InstallStep::Finish(Err(e))),
        }
    }
}

impl AwaitRuntime {
    /// Whether Node.js, the command and the window are there.
    pub fn found(self, node: bool, dsh: bool, window: bool) -> (turn: Turn)
        ensures
            turn@ == quietly(after_runtime(self.batch@, node, dsh, window)),
    {
        match check_runtime(node, dsh, window) {
            Some(e) => quiet_turn(InstallStep::Finish(Err(e))),
            None => quiet_turn(
                InstallStep::ProbeBundledPnpm(AwaitBundledPnpm { batch: self.batch }),
            ),
        }
    }
}

impl AwaitBundledPnpm {
    /// Whether the bundled pnpm is there.
    pub fn probed(self, present: bool) -> (turn: Turn)
        ensures
            turn@ == quietly(after_bundled_pnpm(self.batch@, present)),
    {
        if present {
            quiet_turn(
                InstallStep::QueryService(
                    AwaitService { batch: self.batch, prefer_bundled_pnpm: true },
                ),
            )
        } else {
            quiet_turn(InstallStep::ProbeUserPnpm(AwaitUserPnpm { batch: self.batch }))
        }
    }
}

impl AwaitUserPnpm {
    /// What `pnpm --version` left behind, where the user has a pnpm that runs.
    pub fn answered(self, probe: Option<CommandOutput>) -> (turn: Turn)
        ensures
            turn@ == after_user_pnpm(self.batch@, detected_major(probe)),
    {
        let major = user_pnpm_major_version(&probe);
        if trusts_user_pnpm(major) {
            quiet_turn(
                InstallStep::QueryService(
                    AwaitService { batch: self.batch, prefer_bundled_pnpm: false },
                ),
            )
        } else {
            logged_turn(
                "[pnpm] bundled pnpm not found, downloading before plugin install",
                InstallStep::LocatePnpm(AwaitAddress { batch: self.batch }),
            )
        }
    }
}

impl AwaitAddress {
    /// The bundled pnpm is to be had here, or there is no saying where.
    pub fn located(self, url: Result<String, String>) -> (turn: Turn)
        ensures
            turn@ == quietly(
                after_address(
                    self.batch@,
                    match url {
                        Ok(url) => Ok(url@),
                        Err(e) => Err(e@),
                    },
                ),
            ),
    {
        match url {
            Ok(url) => quiet_turn(InstallStep::FetchPnpm(AwaitArchive { batch: self.batch, url })),
            Err(e) => quiet_turn(
                InstallStep::Finish(Err(describe_pnpm_failure(PnpmFailure::Address(e)))),
            ),
        }
    }
}

impl AwaitArchive {
    /// What was downloaded from the address, or why nothing was.
    pub fn fetched(self, bytes: Result<Vec<u8>, String>) -> (turn: Turn)
        ensures
            turn@ == quietly(
                after_fetch(
                    self.batch@,
                    self.url@,
                    match bytes {
                        Ok(bytes) => Ok(bytes@),
                        Err(e) => Err(e@),
                    },
                ),
            ),
    {
        match bytes {
            Ok(bytes) => {
                let archive = Archive { name: download_file_name(self.url.as_str()), bytes };
                quiet_turn(InstallStep::VerifyPnpm(AwaitCheck { batch: self.batch, archive }))
            },
            Err(e) => quiet_turn(
                InstallStep::Finish(Err(describe_pnpm_failure(PnpmFailure::Download(e)))),
            ),
        }
    }
}

impl AwaitCheck {
    /// The archive is what was expected, or it is not.
    pub fn verified(self, outcome: Result<(), String>) -> (turn: Turn)
        ensures
            turn@ == quietly(after_check(self.batch@, self.archive@, outcome_view(outcome))),
    {
        match outcome {
            Ok(_) => quiet_turn(
                InstallStep::UnpackPnpm(
                    AwaitUnpacking { batch: self.batch, archive: self.archive },
                ),
            ),
            Err(e) => quiet_turn(
                InstallStep::Finish(Err(describe_pnpm_failure(PnpmFailure::Integrity(e)))),
            ),
        }
    }
}

impl AwaitUnpacking {
    /// The bundled pnpm is in place, or could not be unpacked.
    pub fn unpacked(self, outcome: Result<(), String>) -> (turn: Turn)
        ensures
            turn@ == after_unpacking(self.batch@, outcome_view(outcome)),
    {
        match outcome {
            Ok(_) => logged_turn(
                "[pnpm] bundled pnpm ready",
                InstallStep::QueryService(
                    AwaitService { batch: self.batch, prefer_bundled_pnpm: true },
                ),
            ),
            Err(e) => quiet_turn(
                InstallStep::Finish(Err(describe_pnpm_failure(PnpmFailure::Extract(e)))),
            ),
        }
    }
}

impl AwaitService {
    /// Whether the service is running.
    pub fn running(self, running: bool) -> (turn: Turn)
        ensures
            turn@ == quietly(after_service(self.batch@, self.prefer_bundled_pnpm, running)),
    {
        let batch = self.batch;
        let prefer_bundled_pnpm = self.prefer_bundled_pnpm;
        if running {
            quiet_turn(InstallStep::StopService(AwaitStop { batch, prefer_bundled_pnpm }))
        } else {
            quiet_turn(
                InstallStep::PrepareEnvironment(AwaitEnvironment { batch, prefer_bundled_pnpm }),
            )
        }
    }
}

impl AwaitStop {
    /// The service has been stopped, or would not stop: the run goes on.
    pub fn stopped(self) -> (turn: Turn)
        ensures
            turn@ == quietly(StepView::PrepareEnvironment(self.batch@, self.prefer_bundled_pnpm)),
    {
        quiet_turn(
            InstallStep::PrepareEnvironment(
                AwaitEnvironment {
                    batch: self.batch,
                    prefer_bundled_pnpm: self.prefer_bundled_pnpm,
                },
            ),
        )
    }
}

impl AwaitEnvironment {
    /// The variables of the command, given where its data lives and the search
    /// path: they say which pnpm the run has settled on.
    pub fn envs(&self, home: &str, path: Option<&str>) -> (vars: Vec<EnvVar>)
        ensures
            env_views(vars@) == environment(home@, self.prefer_bundled_pnpm, text_view(path)),
    {
        plugin_envs(home, self.prefer_bundled_pnpm, path)
    }

    /// The environment is ready.
    pub fn ready(self) -> (turn: Turn)
        ensures
            turn@ == quietly(StepView::NextPlugin(self.batch@)),
    {
        quiet_turn(InstallStep::NextPlugin(AwaitNext { batch: self.batch }))
    }
}

/// Whether the plugin that needs a repair of the desktop was installed.
fn has_inspector(results: &Vec<PreinstallResult>) -> (yes: bool)
    ensures
        yes == inspector_installed(result_views(results@)),
{
    let ghost views = result_views(results@);
    let wanted = INSPECTOR_ID.to_string();
    for i in 0..results.len()
        invariant
            views == result_views(results@),
            wanted@ == INSPECTOR_ID@,
            forall|j: int|
                0 <= j < i ==> !((#[trigger] views[j]).id == INSPECTOR_ID@ && views[j].success),
    {
        assert(views[i as int] == results@[i as int]@);
        if results[i].id == wanted && results[i].success {
            return true;
        }
    }
    false
}

impl AwaitNext {
    /// Whether the user has cancelled the run.
    pub fn proceed(self, flag: &CancelFlag) -> (turn: Turn)
        ensures
            turn@ == next_plugin(self.batch@, flag.cancelled),
    {
        if flag.cancelled {
            return cancelled_turn();
        }
        let mut queue = self.batch.queue;
        let results = self.batch.results;
        if queue.len() == 0 {
            if has_inspector(&results) {
                return quiet_turn(InstallStep::ApplyInspector(AwaitInspector { results }));
            }
            return quiet_turn(InstallStep::Finish(Ok(results)));
        }
        let ghost waiting = plugin_views(queue@);
        let current = queue.remove(0);
        assert(waiting[0] == current@);
        assert(plugin_views(queue@) == waiting.drop_first());
        let mut notices: Vec<Notice> = Vec::new();
        notices.push(
            Notice::Log("[dsh] 开始安装 ".to_string().concat(current.id.as_str()).concat("…")),
        );
        notices.push(Notice::Status(status_payload(current.id.as_str(), "installing", None)));
        assert(notice_views(notices@) == seq![
            NoticeView::Log("[dsh] 开始安装 "@ + current@.id + "…"@),
            NoticeView::Status(installing(current@.id)),
        ]);
        let attempt = Attempt { batch: Batch { queue, results }, current, retries: 0 };
        Turn { notices, step: InstallStep::RunPlugin(AwaitExit { attempt }) }
    }
}

impl AwaitSettling {
    /// Whether the user has cancelled the run.
    pub fn settled(self, flag: &CancelFlag) -> (turn: Turn)
        ensures
            turn@ == settle(self.attempt@, outcome_view(self.outcome), flag.cancelled),
    {
        if flag.cancelled {
            return cancelled_turn();
        }
        let ghost before = self.attempt@;
        let ghost ended = outcome_view(self.outcome);
        let attempt = self.attempt;
        let mut notices: Vec<Notice> = Vec::new();
        let id = attempt.current.id;
        let success: bool;
        let error: Option<String>;
        match self.outcome {
            Ok(_) => {
                notices.push(Notice::Status(status_payload(id.as_str(), "success", None)));
                success = true;
                error = None;
            },
            Err(e) => {
                notices.push(
                    Notice::Log("[dsh] 插件 ".to_string().concat(id.as_str()).concat(" 安装失败")),
                );
                notices.push(
                    Notice::Status(status_payload(id.as_str(), "failed", Some(e.as_str()))),
                );
                success = false;
                error = Some(e);
            },
        }
        assert(notice_views(notices@) == outcome_notices(before.current, ended));
        let result = PreinstallResult { id, name: attempt.current.name, success, error };
        assert(result@ == result_of(before.current, ended));
        let queue = attempt.batch.queue;
        let mut results = attempt.batch.results;
        results.push(result);
        assert(result_views(results@) == before.batch.results.push(result@));
        Turn { notices, step: InstallStep::NextPlugin(AwaitNext { batch: Batch { queue, results } }) }
    }
}

/// What one end of the command means for a plugin.
pub enum Verdict {
    /// The installation has ended.
    Done(Result<(), String>),
    /// It is to be tried again once the keys are allowed.
    Retry(Vec<String>),
}

impl View for Verdict {
    type V = VerdictView;

    open spec fn view(&self) -> VerdictView {
        match self {
            Verdict::Done(outcome) => VerdictView::Done(outcome_view(*outcome)),
            Verdict::Retry(keys) => VerdictView::Retry(string_views(keys@)),
        }
    }
}

/// Decides, when the command for a plugin has ended, whether the plugin is
/// installed, has failed, or is tried again.
pub fn install_one(retries: usize, exit: Exit, cancelled: bool) -> (decision: Verdict)
    ensures
        decision@ == verdict(retries as nat, exit_view(exit), cancelled),
{
    match exit {
        Err(e) => Verdict::Done(Err(e)),
        Ok((code, output)) => {
            if code == 0 {
                return Verdict::Done(Ok(()));
            }
            if cancelled {
                return Verdict::Done(Err("PREINSTALL_CANCELLED: user cancelled".to_string()));
            }
            let keys = parse_allowlist_keys(output.as_str());
            if keys.len() == 0 || retries >= MAX_ALLOW_LIST_RETRIES {
                let mut error = "dsh plugin exited with code ".to_string();
                push_i32(&mut error, code);
                Verdict::Done(Err(error))
            } else {
                Verdict::Retry(keys)
            }
        },
    }
}

impl AwaitExit {
    /// The arguments, after the program itself, of the command to be run.
    pub fn args(&self) -> (args: Vec<String>)
        ensures
            string_views(args@) == command_line("add"@, self.attempt.current@.spec),
    {
        plugin_args("add", self.attempt.current.spec.as_str())
    }

    /// The command has ended, or did not run.
    pub fn exited(self, exit: Exit, flag: &CancelFlag) -> (turn: Turn)
        ensures
            turn@ == quietly(after_exit(self.attempt@, exit_view(exit), flag.cancelled)),
    {
        let attempt = self.attempt;
        match install_one(attempt.retries, exit, flag.cancelled) {
            Verdict::Done(outcome) => quiet_turn(
                InstallStep::SettlePlugin(AwaitSettling { attempt, outcome }),
            ),
            Verdict::Retry(keys) => quiet_turn(
                InstallStep::AllowBuilds(
                    AwaitAllowBuilds {
                        attempt: Attempt {
                            batch: attempt.batch,
                            current: attempt.current,
                            retries: attempt.retries + 1,
                        },
                        keys,
                    },
                ),
            ),
        }
    }
}

/// What an attempt to write the workspace file holds.
pub open spec fn write_view(outcome: Result<(), WorkspaceFailure>) -> Result<(), Seq<char>> {
    match outcome {
        Ok(_) => Ok(()),
        Err(e) => Err(workspace_failure_text(e)),
    }
}

impl AwaitAllowBuilds {
    /// The workspace file with the keys merged in, given its text or nothing where
    /// it does not exist. There is nothing to be written where the file lists all
    /// keys already.
    pub fn merged(&self, file: Option<&str>) -> (text: Option<String>)
        ensures
            text is None <==> nothing_to_add(current_text(file), string_views(self.keys@)),
            text matches Some(t) ==> t@ == merged(current_text(file), string_views(self.keys@)),
    {
        add_allow_build_keys(file, self.keys.as_slice())
    }

    /// The keys are in the workspace file, or something went wrong on the way.
    pub fn written(self, outcome: Result<(), WorkspaceFailure>) -> (turn: Turn)
        ensures
            turn@ == after_allow_builds(self.attempt@, write_view(outcome)),
    {
        match outcome {
            Ok(_) => logged_turn(
                "[pnpm] 已放行插件构建（allowBuilds），重试安装…",
                InstallStep::RunPlugin(AwaitExit { attempt: self.attempt }),
            ),
            Err(e) => quiet_turn(
                InstallStep::SettlePlugin(
                    AwaitSettling {
                        attempt: self.attempt,
                        outcome: Err(describe_workspace_failure(e)),
                    },
                ),
            ),
        }
    }
}

impl AwaitInspector {
    /// The desktop has been repaired, or could not be: the run is over.
    pub fn applied(self) -> (turn: Turn)
        ensures
            turn@ == quietly(StepView::Finish(Ok(result_views(self.results@)))),
    {
        quiet_turn(InstallStep::Finish(Ok(self.results)))
    }
}

} // verus!
