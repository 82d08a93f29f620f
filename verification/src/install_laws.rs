//! What holds of every run that installs plugins.

use crate::install::{
    after_address, after_allow_builds, after_bundled_pnpm, after_check, after_exit, after_fetch,
    after_presets, after_runtime, after_service, after_shims, after_unpacking, after_user_pnpm,
    cancelled_step, first_step, inspector_installed, next_plugin, quietly, result_of, settle,
    verdict, AttemptView, StepView, TurnView, VerdictView, MAX_ALLOW_LIST_RETRIES,
};
use crate::pnpm::{file_name, ArchiveView, MIN_TRUSTED_PNPM_MAJOR};
use crate::report::{NoticeView, ResultView};
use crate::selection::{
    batch_of, chosen, preset_for, rejected, unknown_result, BatchView, PluginView,
};
use vstd::prelude::*;

verus! {

// ---------------------------------------------------------------------------
// Vocabulary
// ---------------------------------------------------------------------------

/// Whether `b` can come right after `a`: some reply of the shell leads there.
pub open spec fn follows(a: StepView, b: StepView) -> bool {
    match a {
        StepView::LoadPresets(ids) => exists|presets: Seq<PluginView>|
            b == #[trigger] after_presets(ids, presets),
        StepView::EnsureShims(batch) => exists|outcome: Result<(), Seq<char>>|
            b == #[trigger] after_shims(batch, outcome),
        StepView::ProbeRuntime(batch) => exists|node: bool, dsh: bool, window: bool|
            b == #[trigger] after_runtime(batch, node, dsh, window),
        StepView::ProbeBundledPnpm(batch) => exists|present: bool|
            b == #[trigger] after_bundled_pnpm(batch, present),
        StepView::ProbeUserPnpm(batch) => exists|major: Option<u32>|
            b == (#[trigger] after_user_pnpm(batch, major)).step,
        StepView::LocatePnpm(batch) => exists|url: Result<Seq<char>, Seq<char>>|
            b == #[trigger] after_address(batch, url),
        StepView::FetchPnpm(batch, url) => exists|bytes: Result<Seq<u8>, Seq<char>>|
            b == #[trigger] after_fetch(batch, url, bytes),
        StepView::VerifyPnpm(batch, archive) => exists|outcome: Result<(), Seq<char>>|
            b == #[trigger] after_check(batch, archive, outcome),
        StepView::UnpackPnpm(batch, _) => exists|outcome: Result<(), Seq<char>>|
            b == (#[trigger] after_unpacking(batch, outcome)).step,
        StepView::QueryService(batch, prefer) => exists|running: bool|
            b == #[trigger] after_service(batch, prefer, running),
        StepView::StopService(batch, prefer) => b == StepView::PrepareEnvironment(batch, prefer),
        StepView::PrepareEnvironment(batch, _) => b == StepView::NextPlugin(batch),
        StepView::RunPlugin(attempt) => exists|
            exit: Result<(int, Seq<char>), Seq<char>>,
            cancelled: bool,
        |
            b == #[trigger] after_exit(attempt, exit, cancelled),
        StepView::AllowBuilds(attempt, _) => exists|outcome: Result<(), Seq<char>>|
            b == (#[trigger] after_allow_builds(attempt, outcome)).step,
        StepView::SettlePlugin(attempt, outcome) => exists|cancelled: bool|
            b == (#[trigger] settle(attempt, outcome, cancelled)).step,
        StepView::NextPlugin(batch) => exists|cancelled: bool|
            b == (#[trigger] next_plugin(batch, cancelled)).step,
        StepView::ApplyInspector(results) => b == StepView::Finish(Ok(results)),
        StepView::Finish(_) => false,
    }
}

/// Whether `steps` is a run, or the beginning of one, for the given ids.
pub open spec fn is_run(ids: Seq<Seq<char>>, steps: Seq<StepView>) -> bool {
    &&& steps.len() > 0
    &&& steps[0] == first_step(ids)
    &&& forall|i: int, j: int|
        0 <= i && j == i + 1 && j < steps.len() ==> follows(#[trigger] steps[i], #[trigger] steps[j])
}

/// Which plugin a result is about: its id and its name.
pub open spec fn result_label(r: ResultView) -> (Seq<char>, Seq<char>) {
    (r.id, r.name)
}

/// Which plugin this is: its id and its name.
pub open spec fn plugin_label(p: PluginView) -> (Seq<char>, Seq<char>) {
    (p.id, p.name)
}

pub open spec fn result_labels(results: Seq<ResultView>) -> Seq<(Seq<char>, Seq<char>)> {
    results.map_values(|r: ResultView| result_label(r))
}

pub open spec fn plugin_labels(plugins: Seq<PluginView>) -> Seq<(Seq<char>, Seq<char>)> {
    plugins.map_values(|p: PluginView| plugin_label(p))
}

/// The plugins of a batch: those with a result, then those that wait.
pub open spec fn batch_roster(batch: BatchView) -> Seq<(Seq<char>, Seq<char>)> {
    result_labels(batch.results) + plugin_labels(batch.queue)
}

/// The plugins that a step still knows of, in the order in which they have
/// results or will have them. A run that has not looked the ids up yet, or that
/// has ended with an error, has none.
pub open spec fn roster(step: StepView) -> Option<Seq<(Seq<char>, Seq<char>)>> {
    match step {
        StepView::LoadPresets(_) => None,
        StepView::EnsureShims(batch) => Some(batch_roster(batch)),
        StepView::ProbeRuntime(batch) => Some(batch_roster(batch)),
        StepView::ProbeBundledPnpm(batch) => Some(batch_roster(batch)),
        StepView::ProbeUserPnpm(batch) => Some(batch_roster(batch)),
        StepView::LocatePnpm(batch) => Some(batch_roster(batch)),
        StepView::FetchPnpm(batch, _) => Some(batch_roster(batch)),
        StepView::VerifyPnpm(batch, _) => Some(batch_roster(batch)),
        StepView::UnpackPnpm(batch, _) => Some(batch_roster(batch)),
        StepView::QueryService(batch, _) => Some(batch_roster(batch)),
        StepView::StopService(batch, _) => Some(batch_roster(batch)),
        StepView::PrepareEnvironment(batch, _) => Some(batch_roster(batch)),
        StepView::RunPlugin(attempt) => Some(attempt_roster(attempt)),
        StepView::AllowBuilds(attempt, _) => Some(attempt_roster(attempt)),
        StepView::SettlePlugin(attempt, _) => Some(attempt_roster(attempt)),
        StepView::NextPlugin(batch) => Some(batch_roster(batch)),
        StepView::ApplyInspector(results) => Some(result_labels(results)),
        StepView::Finish(Ok(results)) => Some(result_labels(results)),
        StepView::Finish(Err(_)) => None,
    }
}

/// The plugins of an attempt: those with a result, the one being installed, and
/// those that wait.
pub open spec fn attempt_roster(attempt: AttemptView) -> Seq<(Seq<char>, Seq<char>)> {
    result_labels(attempt.batch.results).push(plugin_label(attempt.current)) + plugin_labels(
        attempt.batch.queue,
    )
}

/// The results so far.
pub open spec fn results_at(step: StepView) -> Seq<ResultView> {
    match step {
        StepView::LoadPresets(_) => Seq::empty(),
        StepView::EnsureShims(batch) => batch.results,
        StepView::ProbeRuntime(batch) => batch.results,
        StepView::ProbeBundledPnpm(batch) => batch.results,
        StepView::ProbeUserPnpm(batch) => batch.results,
        StepView::LocatePnpm(batch) => batch.results,
        StepView::FetchPnpm(batch, _) => batch.results,
        StepView::VerifyPnpm(batch, _) => batch.results,
        StepView::UnpackPnpm(batch, _) => batch.results,
        StepView::QueryService(batch, _) => batch.results,
        StepView::StopService(batch, _) => batch.results,
        StepView::PrepareEnvironment(batch, _) => batch.results,
        StepView::RunPlugin(attempt) => attempt.batch.results,
        StepView::AllowBuilds(attempt, _) => attempt.batch.results,
        StepView::SettlePlugin(attempt, _) => attempt.batch.results,
        StepView::NextPlugin(batch) => batch.results,
        StepView::ApplyInspector(results) => results,
        StepView::Finish(Ok(results)) => results,
        StepView::Finish(Err(_)) => Seq::empty(),
    }
}

/// Whether the run has come to the plugins themselves.
pub open spec fn is_installing(step: StepView) -> bool {
    match step {
        StepView::RunPlugin(_) => true,
        StepView::AllowBuilds(..) => true,
        StepView::SettlePlugin(..) => true,
        StepView::NextPlugin(_) => true,
        StepView::ApplyInspector(_) => true,
        StepView::Finish(Ok(_)) => true,
        _ => false,
    }
}

/// How many steps one plugin takes at most.
pub open spec fn steps_per_plugin() -> nat {
    (2 * MAX_ALLOW_LIST_RETRIES + 3) as nat
}

/// How many steps can follow at most.
pub open spec fn steps_left(step: StepView) -> nat {
    match step {
        StepView::LoadPresets(ids) => ids.len() * steps_per_plugin() + 14,
        StepView::EnsureShims(batch) => batch.queue.len() * steps_per_plugin() + 13,
        StepView::ProbeRuntime(batch) => batch.queue.len() * steps_per_plugin() + 12,
        StepView::ProbeBundledPnpm(batch) => batch.queue.len() * steps_per_plugin() + 11,
        StepView::ProbeUserPnpm(batch) => batch.queue.len() * steps_per_plugin() + 10,
        StepView::LocatePnpm(batch) => batch.queue.len() * steps_per_plugin() + 9,
        StepView::FetchPnpm(batch, _) => batch.queue.len() * steps_per_plugin() + 8,
        StepView::VerifyPnpm(batch, _) => batch.queue.len() * steps_per_plugin() + 7,
        StepView::UnpackPnpm(batch, _) => batch.queue.len() * steps_per_plugin() + 6,
        StepView::QueryService(batch, _) => batch.queue.len() * steps_per_plugin() + 5,
        StepView::StopService(batch, _) => batch.queue.len() * steps_per_plugin() + 4,
        StepView::PrepareEnvironment(batch, _) => batch.queue.len() * steps_per_plugin() + 3,
        StepView::RunPlugin(attempt) => (attempt.batch.queue.len() * steps_per_plugin() + 2 * (
        MAX_ALLOW_LIST_RETRIES - attempt.retries) + 4) as nat,
        StepView::AllowBuilds(attempt, _) => (attempt.batch.queue.len() * steps_per_plugin() + 2 * (
        MAX_ALLOW_LIST_RETRIES - attempt.retries) + 5) as nat,
        StepView::SettlePlugin(attempt, _) => attempt.batch.queue.len() * steps_per_plugin() + 3,
        StepView::NextPlugin(batch) => batch.queue.len() * steps_per_plugin() + 2,
        StepView::ApplyInspector(_) => 1,
        StepView::Finish(_) => 0,
    }
}

/// No plugin is tried again more often than the bound allows.
pub open spec fn retries_bounded(step: StepView) -> bool {
    match step {
        StepView::RunPlugin(attempt) => attempt.retries <= MAX_ALLOW_LIST_RETRIES,
        StepView::AllowBuilds(attempt, _) => attempt.retries <= MAX_ALLOW_LIST_RETRIES,
        StepView::SettlePlugin(attempt, _) => attempt.retries <= MAX_ALLOW_LIST_RETRIES,
        _ => true,
    }
}

// ---------------------------------------------------------------------------
// Choosing plugins
// ---------------------------------------------------------------------------

/// Every id leads to exactly one plugin or one rejection.
pub proof fn law_every_id_counts(presets: Seq<PluginView>, ids: Seq<Seq<char>>)
    ensures
        chosen(presets, ids).len() + rejected(presets, ids).len() == ids.len(),
    decreases ids.len(),
{
    if ids.len() > 0 {
        law_every_id_counts(presets, ids.drop_last());
    }
}

/// An id that no preset has is a failure that names the id.
pub proof fn law_rejections_are_failures(presets: Seq<PluginView>, ids: Seq<Seq<char>>, i: int)
    requires
        0 <= i < rejected(presets, ids).len(),
    ensures
        ({
            let r = rejected(presets, ids)[i];
            r == unknown_result(r.id) && ids.contains(r.id) && preset_for(presets, r.id) is None
        }),
    decreases ids.len(),
{
    if ids.len() > 0 {
        let front = ids.drop_last();
        let before = rejected(presets, front);
        if i < before.len() {
            law_rejections_are_failures(presets, front, i);
            let r = before[i];
            let k = choose|k: int| 0 <= k < front.len() && front[k] == r.id;
            assert(ids[k] == r.id);
        } else {
            assert(ids[ids.len() - 1] == ids.last());
        }
    }
}

/// A chosen plugin is a preset with one of the given ids.
pub proof fn law_chosen_plugins_are_presets(
    presets: Seq<PluginView>,
    ids: Seq<Seq<char>>,
    i: int,
)
    requires
        0 <= i < chosen(presets, ids).len(),
    ensures
        ({
            let p = chosen(presets, ids)[i];
            presets.contains(p) && ids.contains(p.id)
        }),
    decreases ids.len(),
{
    if ids.len() > 0 {
        let front = ids.drop_last();
        let before = chosen(presets, front);
        if i < before.len() {
            law_chosen_plugins_are_presets(presets, front, i);
            let p = before[i];
            let k = choose|k: int| 0 <= k < front.len() && front[k] == p.id;
            assert(ids[k] == p.id);
        } else {
            lemma_preset_for(presets, ids.last());
            assert(ids[ids.len() - 1] == ids.last());
        }
    }
}

proof fn lemma_preset_for(presets: Seq<PluginView>, id: Seq<char>)
    ensures
        preset_for(presets, id) matches Some(p) ==> presets.contains(p) && p.id == id,
    decreases presets.len(),
{
    if presets.len() > 0 {
        if presets.last().id == id {
            assert(presets[presets.len() - 1] == presets.last());
        } else {
            lemma_preset_for(presets.drop_last(), id);
            if let Some(p) = preset_for(presets.drop_last(), id) {
                let k = choose|k: int|
                    0 <= k < presets.drop_last().len() && presets.drop_last()[k] == p;
                assert(presets[k] == p);
            }
        }
    }
}

// ---------------------------------------------------------------------------
// One step
// ---------------------------------------------------------------------------

proof fn lemma_next_keeps_roster(batch: BatchView, cancelled: bool)
    ensures
        ({
            let b = next_plugin(batch, cancelled).step;
            b == cancelled_step() || roster(b) == Some(batch_roster(batch))
        }),
        !cancelled ==> results_at(next_plugin(batch, cancelled).step) == batch.results,
{
    if !cancelled {
        let queue = batch.queue;
        if queue.len() == 0 {
            assert(batch_roster(batch) == result_labels(batch.results));
        } else {
            let rest = BatchView { queue: queue.drop_first(), results: batch.results };
            let attempt = AttemptView { batch: rest, current: queue[0], retries: 0 };
            assert(attempt_roster(attempt) == batch_roster(batch));
        }
    }
}

proof fn lemma_settle_keeps_roster(
    attempt: AttemptView,
    outcome: Result<(), Seq<char>>,
    cancelled: bool,
)
    ensures
        ({
            let b = settle(attempt, outcome, cancelled).step;
            b == cancelled_step() || roster(b) == Some(attempt_roster(attempt))
        }),
        !cancelled ==> results_at(settle(attempt, outcome, cancelled).step)
            == attempt.batch.results.push(result_of(attempt.current, outcome)),
{
    let results = attempt.batch.results.push(result_of(attempt.current, outcome));
    let batch = BatchView { queue: attempt.batch.queue, results };
    assert(result_labels(results) == result_labels(attempt.batch.results).push(
        plugin_label(attempt.current),
    ));
    assert(batch_roster(batch) == attempt_roster(attempt));
}

/// What a step leaves of the plugins and the results, by the turn that it came
/// from: the run ends with an error, or the plugins stay the same and at most one
/// result is added.
proof fn lemma_origin(a: StepView, b: StepView)
    requires
        follows(a, b),
        roster(a) is Some,
    ensures
        b matches StepView::Finish(Err(_)) || {
            &&& roster(b) == roster(a)
            &&& results_at(b) == results_at(a) || exists|r: ResultView|
                is_consistent(r) && results_at(b) == #[trigger] results_at(a).push(r)
        },
{
    match a {
        StepView::SettlePlugin(attempt, outcome) => {
            let cancelled = choose|cancelled: bool|
                b == (#[trigger] settle(attempt, outcome, cancelled)).step;
            lemma_settle_keeps_roster(attempt, outcome, cancelled);
            assert(is_consistent(result_of(attempt.current, outcome)));
        },
        StepView::NextPlugin(batch) => {
            let cancelled = choose|cancelled: bool|
                b == (#[trigger] next_plugin(batch, cancelled)).step;
            lemma_next_keeps_roster(batch, cancelled);
        },
        _ => {},
    }
}

/// No step loses a plugin or adds one: unless the run ends with an error, the
/// plugins with a result, being installed and waiting stay the same, in the same
/// order.
pub proof fn law_step_keeps_roster(a: StepView, b: StepView)
    requires
        follows(a, b),
        roster(a) is Some,
    ensures
        b matches StepView::Finish(Err(_)) || roster(b) == roster(a),
{
    lemma_origin(a, b);
}

/// A result that was recorded stays: results are only ever added at the end.
pub proof fn law_step_keeps_results(a: StepView, b: StepView)
    requires
        follows(a, b),
        roster(a) is Some,
    ensures
        b matches StepView::Finish(Err(_)) || (results_at(a).len() <= results_at(b).len()
            && results_at(b).take(results_at(a).len() as int) == results_at(a)),
{
    let r = results_at(a);
    lemma_origin(a, b);
    assert(r.take(r.len() as int) == r);
    assert forall|added: ResultView| #[trigger] r.push(added).take(r.len() as int) == r by {}
}

/// The failure of one plugin does not stop the others: however its installation
/// ended, its result is recorded and the next plugin in the queue is installed,
/// unless the user cancels the run.
pub proof fn law_failure_does_not_stop_the_rest(
    attempt: AttemptView,
    outcome: Result<(), Seq<char>>,
)
    requires
        attempt.batch.queue.len() > 0,
    ensures
        ({
            let queue = attempt.batch.queue;
            let results = attempt.batch.results.push(result_of(attempt.current, outcome));
            &&& settle(attempt, outcome, false).step == StepView::NextPlugin(
                BatchView { queue, results },
            )
            &&& next_plugin(BatchView { queue, results }, false).step == StepView::RunPlugin(
                AttemptView {
                    batch: BatchView { queue: queue.drop_first(), results },
                    current: queue[0],
                    retries: 0,
                },
            )
        }),
{
}

/// A plugin counts as installed exactly where its command exited with code 0.
pub proof fn law_installed_is_exit_code_zero(
    retries: nat,
    exit: Result<(int, Seq<char>), Seq<char>>,
    cancelled: bool,
)
    ensures
        verdict(retries, exit, cancelled) == VerdictView::Done(Ok(())) <==> (exit matches Ok(
            (code, _),
        ) && code == 0),
{
}

/// A run that has been cancelled starts no plugin and records nothing more:
/// wherever it looks at the flag between two plugins, it ends with the error that
/// says so; and a command that has ended is not run again.
pub proof fn law_cancelled_run_ends(
    attempt: AttemptView,
    outcome: Result<(), Seq<char>>,
    exit: Result<(int, Seq<char>), Seq<char>>,
    batch: BatchView,
)
    ensures
        settle(attempt, outcome, true) == quietly(cancelled_step()),
        next_plugin(batch, true) == quietly(cancelled_step()),
        after_exit(attempt, exit, true) matches StepView::SettlePlugin(own, _) && own == attempt,
{
}

/// Every plugin is started from a look at the flag that found it down: a plugin
/// is run for the first time only right after such a look.
pub proof fn law_flag_is_looked_at_before_each_plugin(a: StepView, attempt: AttemptView)
    requires
        follows(a, StepView::RunPlugin(attempt)),
    ensures
        a == StepView::NextPlugin(
            BatchView {
                queue: seq![attempt.current] + attempt.batch.queue,
                results: attempt.batch.results,
            },
        ) && attempt.retries == 0 || (a matches StepView::AllowBuilds(own, _) && own == attempt),
{
    if let StepView::NextPlugin(batch) = a {
        assert(batch.queue == seq![batch.queue[0]] + batch.queue.drop_first());
    }
}

/// Once a plugin has been started, the run ends with an error only where the
/// user has cancelled it.
pub proof fn law_only_cancelling_fails_an_installation(a: StepView, b: StepView)
    requires
        is_installing(a),
        follows(a, b),
    ensures
        is_installing(b) || b == cancelled_step(),
{
}

/// The user's pnpm is used exactly where its major version is new enough;
/// otherwise the bundled one is downloaded.
pub proof fn law_old_pnpm_is_not_used(batch: BatchView, major: Option<u32>)
    ensures
        after_user_pnpm(batch, major).step == (if major matches Some(m) && m
            >= MIN_TRUSTED_PNPM_MAJOR {
            StepView::QueryService(batch, false)
        } else {
            StepView::LocatePnpm(batch)
        }),
{
}

/// Only a checked archive is unpacked: right before, the very same archive was
/// checked, and found to be what was expected. What is checked has just been
/// downloaded, and goes by the name of the file at its address.
pub proof fn law_only_checked_pnpm_is_unpacked(a: StepView, batch: BatchView, archive: ArchiveView)
    ensures
        follows(a, StepView::UnpackPnpm(batch, archive)) <==> a == StepView::VerifyPnpm(
            batch,
            archive,
        ),
        forall|outcome: Result<(), Seq<char>>|
            (#[trigger] after_check(batch, archive, outcome)) is UnpackPnpm <==> outcome is Ok,
        follows(a, StepView::VerifyPnpm(batch, archive)) ==> (a matches StepView::FetchPnpm(own, url)
            && own == batch && archive.name == file_name(url)),
{
    if a == StepView::VerifyPnpm(batch, archive) {
        let passed: Result<(), Seq<char>> = Ok(());
        assert(after_check(batch, archive, passed) == StepView::UnpackPnpm(batch, archive));
    }
}

/// The bundled pnpm is used only where it is there: it was found in its place, or
/// has just been unpacked.
pub proof fn law_bundled_pnpm_is_there(a: StepView, batch: BatchView)
    requires
        follows(a, StepView::QueryService(batch, true)),
    ensures
        a == StepView::ProbeBundledPnpm(batch) || (a matches StepView::UnpackPnpm(own, _) && own
            == batch),
{
}

/// Whether `line` is shown in the log on the way.
pub open spec fn logs(turn: TurnView, line: Seq<char>) -> bool {
    turn.notices.contains(NoticeView::Log(line))
}

/// The log says that the bundled pnpm is ready exactly where it has been unpacked.
pub proof fn law_ready_means_unpacked(
    batch: BatchView,
    unpacking: Result<(), Seq<char>>,
    major: Option<u32>,
    attempt: AttemptView,
    outcome: Result<(), Seq<char>>,
    cancelled: bool,
)
    ensures
        logs(after_unpacking(batch, unpacking), "[pnpm] bundled pnpm ready"@) <==> unpacking is Ok,
        !logs(after_user_pnpm(batch, major), "[pnpm] bundled pnpm ready"@),
        !logs(next_plugin(batch, cancelled), "[pnpm] bundled pnpm ready"@),
        !logs(settle(attempt, outcome, cancelled), "[pnpm] bundled pnpm ready"@),
        !logs(after_allow_builds(attempt, outcome), "[pnpm] bundled pnpm ready"@),
{
    let ready = "[pnpm] bundled pnpm ready"@;
    if unpacking is Ok {
        assert(after_unpacking(batch, unpacking).notices[0] == NoticeView::Log(ready));
    }
    reveal_strlit("[pnpm] bundled pnpm ready");
    reveal_strlit("[pnpm] bundled pnpm not found, downloading before plugin install");
    reveal_strlit("[pnpm] 已放行插件构建（allowBuilds），重试安装…");
    reveal_strlit("[dsh] 开始安装 ");
    reveal_strlit("[dsh] 插件 ");
    assert(ready[1] == 'p' && ready[7] == 'b');
    assert(ready.len()
        != "[pnpm] bundled pnpm not found, downloading before plugin install"@.len());
    assert(("[dsh] 开始安装 "@ + batch.queue[0].id + "…"@)[1] == 'd');
    assert(("[dsh] 插件 "@ + attempt.current.id + " 安装失败"@)[1] == 'd');
}

/// A run ends with an error only for one of these reasons: the shims, what the
/// command needs, or the bundled pnpm could not be had; or the user has cancelled
/// the run, and then the error says so.
pub proof fn law_errors_have_a_cause(a: StepView, error: Seq<char>)
    requires
        follows(a, StepView::Finish(Err(error))),
    ensures
        a is EnsureShims || a is ProbeRuntime || a is LocatePnpm || a is FetchPnpm || a is VerifyPnpm
            || a is UnpackPnpm || StepView::Finish(Err(error)) == cancelled_step(),
{
}

/// Whether a notice is one that the window knows how to show: the state of a
/// plugin is one of three, and exactly a failure carries an error.
pub open spec fn is_proper(notice: NoticeView) -> bool {
    match notice {
        NoticeView::Log(_) => true,
        NoticeView::Status(s) => {
            &&& s.status == "installing"@ || s.status == "success"@ || s.status == "failed"@
            &&& s.error is Some <==> s.status == "failed"@
        },
    }
}

/// Every notice of a run is one that the window knows how to show.
pub proof fn law_notices_are_proper(
    batch: BatchView,
    attempt: AttemptView,
    outcome: Result<(), Seq<char>>,
    cancelled: bool,
)
    ensures
        forall|i: int|
            0 <= i < next_plugin(batch, cancelled).notices.len() ==> is_proper(
                #[trigger] next_plugin(batch, cancelled).notices[i],
            ),
        forall|i: int|
            0 <= i < settle(attempt, outcome, cancelled).notices.len() ==> is_proper(
                #[trigger] settle(attempt, outcome, cancelled).notices[i],
            ),
        forall|i: int|
            0 <= i < after_allow_builds(attempt, outcome).notices.len() ==> is_proper(
                #[trigger] after_allow_builds(attempt, outcome).notices[i],
            ),
{
    reveal_strlit("installing");
    reveal_strlit("success");
    reveal_strlit("failed");
    assert("installing"@.len() != "failed"@.len());
    assert("success"@.len() != "failed"@.len());
}

/// Whether a result carries an error exactly where it is a failure.
pub open spec fn is_consistent(r: ResultView) -> bool {
    r.success <==> r.error is None
}

/// Whether all of `results` are consistent.
pub open spec fn all_consistent(results: Seq<ResultView>) -> bool {
    forall|i: int| 0 <= i < results.len() ==> is_consistent(#[trigger] results[i])
}

proof fn lemma_step_keeps_consistency(a: StepView, b: StepView)
    requires
        follows(a, b),
        all_consistent(results_at(a)),
    ensures
        all_consistent(results_at(b)),
{
    match a {
        StepView::LoadPresets(ids) => {
            let presets = choose|presets: Seq<PluginView>|
                b == #[trigger] after_presets(ids, presets);
            let results = rejected(presets, ids);
            assert forall|i: int| 0 <= i < results.len() implies is_consistent(
                #[trigger] results[i],
            ) by {
                law_rejections_are_failures(presets, ids, i);
            }
        },
        StepView::Finish(_) => {},
        _ => {
            lemma_origin(a, b);
        },
    }
}

// ---------------------------------------------------------------------------
// Whole runs
// ---------------------------------------------------------------------------

/// In every run a result carries an error exactly where it is a failure.
pub proof fn law_failures_say_why(ids: Seq<Seq<char>>, steps: Seq<StepView>, i: int)
    requires
        is_run(ids, steps),
        0 <= i < steps.len(),
    ensures
        all_consistent(results_at(steps[i])),
    decreases i,
{
    if i > 0 {
        law_failures_say_why(ids, steps, i - 1);
        assert(follows(steps[i - 1], steps[i]));
        lemma_step_keeps_consistency(steps[i - 1], steps[i]);
    }
}

/// Every step brings the end nearer.
pub proof fn law_step_makes_progress(a: StepView, b: StepView)
    requires
        follows(a, b),
        retries_bounded(a),
    ensures
        retries_bounded(b),
        steps_left(b) < steps_left(a),
{
    match a {
        StepView::LoadPresets(ids) => {
            let presets = choose|presets: Seq<PluginView>|
                b == #[trigger] after_presets(ids, presets);
            law_every_id_counts(presets, ids);
            let n = chosen(presets, ids).len();
            assert(n * steps_per_plugin() <= ids.len() * steps_per_plugin()) by (nonlinear_arith)
                requires
                    n <= ids.len(),
            ;
        },
        StepView::NextPlugin(batch) => {
            lemma_queue_step(batch.queue);
        },
        _ => {},
    }
}

proof fn lemma_queue_step(queue: Seq<PluginView>)
    ensures
        queue.len() > 0 ==> queue.len() * steps_per_plugin() == queue.drop_first().len()
            * steps_per_plugin() + steps_per_plugin(),
{
    if queue.len() > 0 {
        let n = queue.len();
        let w = steps_per_plugin();
        assert(n * w == (n - 1) * w + w) by (nonlinear_arith);
    }
}

/// Every run ends, after a number of steps that depends on the number of
/// plugins alone, and no plugin is tried again more often than the bound allows.
pub proof fn law_runs_end(ids: Seq<Seq<char>>, steps: Seq<StepView>)
    requires
        is_run(ids, steps),
    ensures
        steps.len() <= ids.len() * steps_per_plugin() + 15,
        forall|i: int| 0 <= i < steps.len() ==> retries_bounded(#[trigger] steps[i]),
{
    let n = steps.len() as int;
    lemma_progress(ids, steps, n - 1);
    assert forall|i: int| 0 <= i < steps.len() implies retries_bounded(#[trigger] steps[i]) by {
        lemma_progress(ids, steps, i);
    }
}

proof fn lemma_progress(ids: Seq<Seq<char>>, steps: Seq<StepView>, i: int)
    requires
        is_run(ids, steps),
        0 <= i < steps.len(),
    ensures
        retries_bounded(steps[i]),
        i + steps_left(steps[i]) <= ids.len() * steps_per_plugin() + 14,
    decreases i,
{
    if i > 0 {
        lemma_progress(ids, steps, i - 1);
        assert(follows(steps[i - 1], steps[i]));
        law_step_makes_progress(steps[i - 1], steps[i]);
    } else {
        assert(0 <= ids.len() * steps_per_plugin()) by (nonlinear_arith);
    }
}

/// A run that ends well has one result for each id: first those that no preset
/// has, then the chosen plugins, both in the order of the ids.
pub proof fn law_every_plugin_gets_a_result(
    ids: Seq<Seq<char>>,
    presets: Seq<PluginView>,
    steps: Seq<StepView>,
    results: Seq<ResultView>,
)
    requires
        is_run(ids, steps),
        steps.len() >= 2,
        steps[1] == after_presets(ids, presets),
        steps.last() == StepView::Finish(Ok(results)),
    ensures
        results.len() == ids.len(),
        results.take(rejected(presets, ids).len() as int) == rejected(presets, ids),
        result_labels(results) == result_labels(rejected(presets, ids)) + plugin_labels(
            chosen(presets, ids),
        ),
{
    let batch = batch_of(presets, ids);
    let n = steps.len() - 1;
    law_every_id_counts(presets, ids);
    lemma_first_batch(ids, presets);
    lemma_kept(steps, n);
    assert(batch_roster(batch).len() == ids.len());
    assert(result_labels(results).len() == results.len());
}

/// What the step after the presets holds.
proof fn lemma_first_batch(ids: Seq<Seq<char>>, presets: Seq<PluginView>)
    ensures
        roster(after_presets(ids, presets)) == Some(batch_roster(batch_of(presets, ids))),
        results_at(after_presets(ids, presets)) == rejected(presets, ids),
{
    let batch = batch_of(presets, ids);
    if batch.queue.len() == 0 {
        assert(batch_roster(batch) == result_labels(batch.results));
    }
}

proof fn lemma_kept(steps: Seq<StepView>, i: int)
    requires
        1 <= i < steps.len(),
        forall|i: int, j: int|
            0 <= i && j == i + 1 && j < steps.len() ==> follows(
                #[trigger] steps[i],
                #[trigger] steps[j],
            ),
        roster(steps[1]) is Some,
    ensures
        steps[i] matches StepView::Finish(Err(_)) || {
            &&& roster(steps[i]) == roster(steps[1])
            &&& results_at(steps[1]).len() <= results_at(steps[i]).len()
            &&& results_at(steps[i]).take(results_at(steps[1]).len() as int) == results_at(steps[1])
        },
    decreases i,
{
    let first = results_at(steps[1]);
    if i > 1 {
        lemma_kept(steps, i - 1);
        assert(follows(steps[i - 1], steps[i]));
        law_step_keeps_roster(steps[i - 1], steps[i]);
        law_step_keeps_results(steps[i - 1], steps[i]);
        let middle = results_at(steps[i - 1]);
        let last = results_at(steps[i]);
        if !(steps[i] matches StepView::Finish(Err(_))) {
            assert(last.take(middle.len() as int).take(first.len() as int) == last.take(
                first.len() as int,
            ));
        }
    } else {
        assert(first.take(first.len() as int) == first);
    }
}

/// From the first plugin on, a run ends with results or with the error that says
/// that it was cancelled.
pub proof fn law_started_runs_fail_only_when_cancelled(
    ids: Seq<Seq<char>>,
    steps: Seq<StepView>,
    i: int,
    j: int,
)
    requires
        is_run(ids, steps),
        0 <= i <= j < steps.len(),
        steps[i] is RunPlugin,
    ensures
        is_installing(steps[j]) || steps[j] == cancelled_step(),
    decreases j,
{
    if i < j {
        law_started_runs_fail_only_when_cancelled(ids, steps, i, j - 1);
        assert(follows(steps[j - 1], steps[j]));
        law_only_cancelling_fails_an_installation(steps[j - 1], steps[j]);
    }
}

/// The desktop is repaired exactly in the runs that installed the plugin that
/// needs it, and then as the last thing.
pub proof fn law_repair_follows_inspector(
    ids: Seq<Seq<char>>,
    steps: Seq<StepView>,
    results: Seq<ResultView>,
)
    requires
        is_run(ids, steps),
        steps.len() >= 2,
        steps.last() == StepView::Finish(Ok(results)),
    ensures
        inspector_installed(results) <==> steps[steps.len() - 2] == StepView::ApplyInspector(
            results,
        ),
{
    let n = steps.len() - 1;
    let a = steps[n - 1];
    let b = steps[n];
    assert(follows(a, b));
    match a {
        StepView::LoadPresets(own) => {
            let presets = choose|presets: Seq<PluginView>|
                b == #[trigger] after_presets(own, presets);
            assert forall|i: int| 0 <= i < results.len() implies !(#[trigger] results[i]).success by {
                law_rejections_are_failures(presets, own, i);
            }
        },
        StepView::ApplyInspector(own) => {
            assert(n - 1 > 0);
            assert(follows(steps[n - 2], steps[n - 1]));
            lemma_repair_has_cause(steps[n - 2], own);
        },
        _ => {},
    }
}

proof fn lemma_repair_has_cause(a: StepView, results: Seq<ResultView>)
    requires
        follows(a, StepView::ApplyInspector(results)),
    ensures
        inspector_installed(results),
{
}

} // verus!
