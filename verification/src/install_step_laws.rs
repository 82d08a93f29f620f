//! What each step of a run does with each reply.

use crate::allow_builds::{distinct, law_keys_are_distinct, requested_keys};
use crate::allow_builds_laws::{
    can_be_listed, law_different_keys_all_stay, law_ignored_packages_are_asked_for, list_text,
    names_of,
};
use crate::install::{
    after_address, after_allow_builds, after_bundled_pnpm, after_check, after_exit, after_fetch,
    after_presets, after_runtime, after_service, after_shims, after_unpacking, after_user_pnpm,
    cancelled_step, exit_view, first_step, inspector_installed, next_plugin, outcome_view, quietly,
    result_of, settle, verdict, write_view, Attempt, AttemptView, AwaitAddress, AwaitAllowBuilds,
    AwaitArchive, AwaitBundledPnpm, AwaitCheck, AwaitEnvironment, AwaitExit, AwaitInspector,
    AwaitNext, AwaitPresets, AwaitRuntime, AwaitService, AwaitSettling, AwaitShims, AwaitStop,
    AwaitUnpacking, AwaitUserPnpm, InstallStep, StepView, Turn, TurnView, Verdict,
    VerdictView,
};
use crate::install_laws::{follows, is_run};
use crate::number::signed_decimal;
use crate::pnpm::ArchiveView;
use crate::report::{notice_views, result_views, NoticeView, ResultView, StatusView};
use crate::selection::{batch_of, chosen, preset_for, BatchView, PluginView};
use crate::text::string_views;
use crate::text_laws::stands_at;
use crate::workspace::{workspace_failure_text, WorkspaceFailure};
use vstd::prelude::*;

verus! {

// ---------------------------------------------------------------------------
// Up to the plugins
// ---------------------------------------------------------------------------

/// A run needs at least one id, and looks all of them up.
pub proof fn law_run_needs_an_id(ids: Seq<Seq<char>>)
    ensures
        ids.len() == 0 ==> first_step(ids) == StepView::Finish(
            Err("PREINSTALL_EMPTY: no plugins selected"@),
        ),
        ids.len() > 0 ==> first_step(ids) == StepView::LoadPresets(ids),
{
}

proof fn lemma_chosen_some(presets: Seq<PluginView>, ids: Seq<Seq<char>>)
    ensures
        chosen(presets, ids).len() > 0 <==> exists|i: int|
            0 <= i < ids.len() && preset_for(presets, #[trigger] ids[i]) is Some,
    decreases ids.len(),
{
    if ids.len() > 0 {
        let front = ids.drop_last();
        lemma_chosen_some(presets, front);
        if preset_for(presets, ids.last()) is Some {
            assert(preset_for(presets, ids[ids.len() - 1]) is Some);
        }
        if exists|i: int| 0 <= i < front.len() && preset_for(presets, #[trigger] front[i]) is Some {
            let i = choose|i: int|
                0 <= i < front.len() && preset_for(presets, #[trigger] front[i]) is Some;
            assert(ids[i] == front[i]);
        }
        if exists|i: int| 0 <= i < ids.len() && preset_for(presets, #[trigger] ids[i]) is Some {
            let i = choose|i: int|
                0 <= i < ids.len() && preset_for(presets, #[trigger] ids[i]) is Some;
            if i < front.len() {
                assert(front[i] == ids[i]);
            }
        }
    }
}

/// A run goes on exactly where some id is known; otherwise it is over, with a
/// result for each id.
pub proof fn law_run_goes_on_where_some_id_is_known(
    ids: Seq<Seq<char>>,
    presets: Seq<PluginView>,
)
    ensures
        (exists|i: int| 0 <= i < ids.len() && preset_for(presets, #[trigger] ids[i]) is Some)
            ==> after_presets(ids, presets) == StepView::EnsureShims(batch_of(presets, ids)),
        (forall|i: int| 0 <= i < ids.len() ==> preset_for(presets, #[trigger] ids[i]) is None)
            ==> after_presets(ids, presets) == StepView::Finish(
            Ok(batch_of(presets, ids).results),
        ),
{
    lemma_chosen_some(presets, ids);
}

/// A run goes on exactly where the shims are in place and nothing is missing; what
/// stops it is passed on as it is.
pub proof fn law_what_is_missing_stops_a_run(
    batch: BatchView,
    error: Seq<char>,
    node: bool,
    dsh: bool,
    window: bool,
)
    ensures
        after_shims(batch, Ok(())) == StepView::ProbeRuntime(batch),
        after_shims(batch, Err(error)) == StepView::Finish(Err(error)),
        node && dsh && window ==> after_runtime(batch, node, dsh, window)
            == StepView::ProbeBundledPnpm(batch),
        !node ==> after_runtime(batch, node, dsh, window) == StepView::Finish(
            Err("NODE_NOT_FOUND: Node.js runtime missing"@),
        ),
        node && !dsh ==> after_runtime(batch, node, dsh, window) == StepView::Finish(
            Err("HARNESS_NOT_FOUND: dsh CLI missing"@),
        ),
        node && dsh && !window ==> after_runtime(batch, node, dsh, window) == StepView::Finish(
            Err("WINDOW_NOT_FOUND: main window missing"@),
        ),
{
}

/// The bundled pnpm is preferred wherever it is there; otherwise the user's is asked
/// for its version, and used from the tenth on. An older one, or one without a
/// version, is replaced by the bundled one, and the log says so.
pub proof fn law_pnpm_is_chosen_by_version(batch: BatchView, major: Option<u32>)
    ensures
        after_bundled_pnpm(batch, true) == StepView::QueryService(batch, true),
        after_bundled_pnpm(batch, false) == StepView::ProbeUserPnpm(batch),
        major matches Some(m) && m >= 10 ==> after_user_pnpm(batch, major) == quietly(
            StepView::QueryService(batch, false),
        ),
        !(major matches Some(m) && m >= 10) ==> after_user_pnpm(batch, major) == (TurnView {
            notices: seq![
                NoticeView::Log("[pnpm] bundled pnpm not found, downloading before plugin install"@),
            ],
            step: StepView::LocatePnpm(batch),
        }),
{
}

/// The bundled pnpm comes through four stages, and each names its own failure: the
/// archive is what was downloaded, and it is unpacked only when it has been checked.
pub proof fn law_bundled_pnpm_comes_in_stages(
    batch: BatchView,
    url: Seq<char>,
    bytes: Seq<u8>,
    archive: ArchiveView,
    error: Seq<char>,
)
    ensures
        after_address(batch, Ok(url)) == StepView::FetchPnpm(batch, url),
        after_address(batch, Err(error)) == StepView::Finish(Err(error)),
        after_fetch(batch, url, Ok(bytes)) matches StepView::VerifyPnpm(own, fetched) && own == batch
            && fetched.bytes == bytes,
        after_fetch(batch, url, Err(error)) == StepView::Finish(
            Err("PNPM_DOWNLOAD_FAILED: "@ + error),
        ),
        after_check(batch, archive, Ok(())) == StepView::UnpackPnpm(batch, archive),
        after_check(batch, archive, Err(error)) == StepView::Finish(
            Err("PNPM_INTEGRITY_FAILED: "@ + error),
        ),
        after_unpacking(batch, Ok(())) == (TurnView {
            notices: seq![NoticeView::Log("[pnpm] bundled pnpm ready"@)],
            step: StepView::QueryService(batch, true),
        }),
        after_unpacking(batch, Err(error)) == quietly(
            StepView::Finish(Err("PNPM_EXTRACT_FAILED: "@ + error)),
        ),
{
}

/// A running service is stopped before the first plugin, and which pnpm is preferred
/// does not depend on that: the environment is prepared with the preference that
/// the run had settled on.
pub proof fn law_service_does_not_change_the_preference(
    batch: BatchView,
    prefer: bool,
    a: StepView,
    b: StepView,
)
    ensures
        after_service(batch, prefer, true) == StepView::StopService(batch, prefer),
        after_service(batch, prefer, false) == StepView::PrepareEnvironment(batch, prefer),
        follows(StepView::QueryService(batch, prefer), b) ==> b == StepView::StopService(
            batch,
            prefer,
        ) || b == StepView::PrepareEnvironment(batch, prefer),
        follows(StepView::StopService(batch, prefer), b) <==> b == StepView::PrepareEnvironment(
            batch,
            prefer,
        ),
        follows(a, StepView::PrepareEnvironment(batch, prefer)) ==> a == StepView::QueryService(
            batch,
            prefer,
        ) || a == StepView::StopService(batch, prefer),
        follows(a, StepView::StopService(batch, prefer)) ==> a == StepView::QueryService(
            batch,
            prefer,
        ),
{
}

/// In every run the environment prefers the bundled pnpm exactly where it was found
/// or has been unpacked, and the user's exactly where that one is new enough.
pub proof fn law_environment_prefers_the_pnpm_that_was_chosen(
    ids: Seq<Seq<char>>,
    steps: Seq<StepView>,
    i: int,
    batch: BatchView,
    prefer: bool,
)
    requires
        is_run(ids, steps),
        0 <= i < steps.len(),
        steps[i] == StepView::PrepareEnvironment(batch, prefer),
    ensures
        exists|j: int|
            #![trigger steps[j]]
            {
                &&& 0 <= j < i
                &&& prefer ==> steps[j] is ProbeBundledPnpm || steps[j] is UnpackPnpm
                &&& !prefer ==> steps[j] is ProbeUserPnpm
                &&& follows(steps[j], StepView::QueryService(batch, prefer))
            },
{
    assert(i > 0);
    assert(follows(steps[i - 1], steps[i]));
    law_service_does_not_change_the_preference(batch, prefer, steps[i - 1], steps[i]);
    let q = if steps[i - 1] == StepView::QueryService(batch, prefer) {
        i - 1
    } else {
        assert(i - 1 > 0);
        assert(follows(steps[i - 2], steps[i - 1]));
        law_service_does_not_change_the_preference(batch, prefer, steps[i - 2], steps[i - 1]);
        i - 2
    };
    assert(steps[q] == StepView::QueryService(batch, prefer));
    assert(q > 0);
    assert(follows(steps[q - 1], steps[q]));
    lemma_before_service(steps[q - 1], batch, prefer);
}

proof fn lemma_before_service(a: StepView, batch: BatchView, prefer: bool)
    requires
        follows(a, StepView::QueryService(batch, prefer)),
    ensures
        prefer ==> a is ProbeBundledPnpm || a is UnpackPnpm,
        !prefer ==> a is ProbeUserPnpm,
{
}

// ---------------------------------------------------------------------------
// One plugin
// ---------------------------------------------------------------------------

/// A command that fails while pnpm names keys is tried again, with exactly the keys
/// that pnpm asks for, however many; it fails only where pnpm asks for none or the
/// retries are used up.
pub proof fn law_named_keys_are_allowed_and_tried_again(
    retries: nat,
    code: int,
    output: Seq<char>,
)
    requires
        code != 0,
    ensures
        requested_keys(output).len() > 0 && retries < 8 ==> verdict(
            retries,
            Ok((code, output)),
            false,
        ) == VerdictView::Retry(distinct(requested_keys(output))),
        requested_keys(output).len() == 0 || retries >= 8 ==> verdict(
            retries,
            Ok((code, output)),
            false,
        ) == VerdictView::Done(Err("dsh plugin exited with code "@ + signed_decimal(code))),
{
    let keys = requested_keys(output);
    law_keys_are_distinct(output);
    if keys.len() > 0 {
        assert(keys.contains(keys[0]));
        assert(distinct(keys).contains(keys[0]));
    } else {
        if distinct(keys).len() > 0 {
            assert(distinct(keys).contains(distinct(keys)[0]));
        }
    }
}

/// Packages that pnpm has ignored are all allowed at once, and the plugin is tried
/// again.
pub proof fn law_ignored_packages_are_tried_again(
    retries: nat,
    code: int,
    before: Seq<char>,
    packages: Seq<(Seq<char>, Seq<char>)>,
)
    requires
        code != 0,
        retries < 8,
        packages.len() > 0,
        can_be_listed(packages),
        names_of(packages).no_duplicates(),
        ({
            let line = before + "Ignored build scripts:"@ + list_text(packages);
            &&& !line.contains('\n')
            &&& line.last() != '\r'
            &&& forall|i: int| #[trigger]
                stands_at(line, "Ignored build scripts:"@, i) ==> i == before.len()
        }),
    ensures
        ({
            let line = before + "Ignored build scripts:"@ + list_text(packages);
            verdict(retries, Ok((code, line.push('\n'))), false) == VerdictView::Retry(
                names_of(packages),
            )
        }),
{
    let line = before + "Ignored build scripts:"@ + list_text(packages);
    law_ignored_packages_are_asked_for(before, packages);
    law_named_keys_are_allowed_and_tried_again(retries, code, line.push('\n'));
    law_different_keys_all_stay(names_of(packages));
}

/// The exit code 0 is success whatever was printed, a command that did not run
/// fails with its own error, and a cancelled one that failed is not tried again.
pub proof fn law_other_ends_settle_the_plugin(
    retries: nat,
    code: int,
    output: Seq<char>,
    error: Seq<char>,
    cancelled: bool,
)
    ensures
        verdict(retries, Ok((0, output)), cancelled) == VerdictView::Done(Ok(())),
        verdict(retries, Err(error), cancelled) == VerdictView::Done(Err(error)),
        code != 0 ==> verdict(retries, Ok((code, output)), true) == VerdictView::Done(
            Err("PREINSTALL_CANCELLED: user cancelled"@),
        ),
{
}

/// What was decided on is done: a plugin that is done with is settled, and one that
/// is tried again gets its keys allowed first, and has one retry less.
pub proof fn law_decision_is_carried_out(
    attempt: AttemptView,
    exit: Result<(int, Seq<char>), Seq<char>>,
    cancelled: bool,
    outcome: Result<(), Seq<char>>,
    keys: Seq<Seq<char>>,
)
    ensures
        verdict(attempt.retries, exit, cancelled) == VerdictView::Done(outcome) ==> after_exit(
            attempt,
            exit,
            cancelled,
        ) == StepView::SettlePlugin(attempt, outcome),
        verdict(attempt.retries, exit, cancelled) == VerdictView::Retry(keys) ==> after_exit(
            attempt,
            exit,
            cancelled,
        ) == StepView::AllowBuilds(
            AttemptView {
                batch: attempt.batch,
                current: attempt.current,
                retries: attempt.retries + 1,
            },
            keys,
        ),
{
}

/// Once its keys are allowed the same plugin is run again, and the log says so;
/// where they could not be written the plugin has failed for that reason.
pub proof fn law_allowed_plugin_is_run_again(attempt: AttemptView, error: Seq<char>)
    ensures
        after_allow_builds(attempt, Ok(())) == (TurnView {
            notices: seq![NoticeView::Log("[pnpm] 已放行插件构建（allowBuilds），重试安装…"@)],
            step: StepView::RunPlugin(attempt),
        }),
        after_allow_builds(attempt, Err(error)) == quietly(
            StepView::SettlePlugin(attempt, Err(error)),
        ),
{
}

/// A plugin that is done with gets one result: its own id and name, success exactly
/// where it was installed, and the error where it was not. The window is told the
/// same, and the plugins that wait go on waiting.
pub proof fn law_outcome_is_recorded_and_shown(attempt: AttemptView, error: Seq<char>)
    ensures
        settle(attempt, Ok(()), false) == (TurnView {
            notices: seq![
                NoticeView::Status(
                    StatusView { id: attempt.current.id, status: "success"@, error: None },
                ),
            ],
            step: StepView::NextPlugin(
                BatchView {
                    queue: attempt.batch.queue,
                    results: attempt.batch.results.push(
                        ResultView {
                            id: attempt.current.id,
                            name: attempt.current.name,
                            success: true,
                            error: None,
                        },
                    ),
                },
            ),
        }),
        settle(attempt, Err(error), false) == (TurnView {
            notices: seq![
                NoticeView::Log("[dsh] 插件 "@ + attempt.current.id + " 安装失败"@),
                NoticeView::Status(
                    StatusView {
                        id: attempt.current.id,
                        status: "failed"@,
                        error: Some(error),
                    },
                ),
            ],
            step: StepView::NextPlugin(
                BatchView {
                    queue: attempt.batch.queue,
                    results: attempt.batch.results.push(
                        ResultView {
                            id: attempt.current.id,
                            name: attempt.current.name,
                            success: false,
                            error: Some(error),
                        },
                    ),
                },
            ),
        }),
{
}

/// The plugins are run in the order of the queue, each for the first time without
/// retries, and announced.
pub proof fn law_queue_is_worked_off_in_order(
    plugin: PluginView,
    queue: Seq<PluginView>,
    results: Seq<ResultView>,
)
    ensures
        next_plugin(BatchView { queue: seq![plugin] + queue, results }, false) == (TurnView {
            notices: seq![
                NoticeView::Log("[dsh] 开始安装 "@ + plugin.id + "…"@),
                NoticeView::Status(
                    StatusView { id: plugin.id, status: "installing"@, error: None },
                ),
            ],
            step: StepView::RunPlugin(
                AttemptView {
                    batch: BatchView { queue, results },
                    current: plugin,
                    retries: 0,
                },
            ),
        }),
{
    assert((seq![plugin] + queue).drop_first() == queue);
}

/// When no plugin is left the run ends with its results; the desktop is repaired
/// before exactly where the terminal inspector was installed.
pub proof fn law_run_ends_with_its_results(results: Seq<ResultView>)
    ensures
        ({
            let repair = exists|i: int|
                0 <= i < results.len() && (#[trigger] results[i]).id
                    == "dsh-win-terminal-inspector"@ && results[i].success;
            let done = BatchView { queue: Seq::empty(), results };
            &&& inspector_installed(results) <==> repair
            &&& next_plugin(done, false) == quietly(
                if repair {
                    StepView::ApplyInspector(results)
                } else {
                    StepView::Finish(Ok(results))
                },
            )
        }),
        forall|b: StepView| #[trigger]
            follows(StepView::ApplyInspector(results), b) <==> b == StepView::Finish(Ok(results)),
{
}

/// A cancelled run ends with the error that says so, and nothing is shown.
pub proof fn law_cancelling_is_an_error(batch: BatchView)
    ensures
        next_plugin(batch, true).notices.len() == 0,
        next_plugin(batch, true).step == StepView::Finish(
            Err("PREINSTALL_CANCELLED: install cancelled by user"@),
        ),
        cancelled_step() == StepView::Finish(
            Err("PREINSTALL_CANCELLED: install cancelled by user"@),
        ),
        quietly(cancelled_step()).notices.len() == 0,
        quietly(cancelled_step()).step == cancelled_step(),
{
}

/// A quiet turn shows nothing, and goes on as it says.
pub proof fn law_quiet_turns_show_nothing(step: StepView)
    ensures
        quietly(step).notices == Seq::<NoticeView>::empty(),
        quietly(step).step == step,
{
}

/// A result is about its plugin, and carries the error where there is one.
pub proof fn law_result_is_about_its_plugin(plugin: PluginView, outcome: Result<(), Seq<char>>)
    ensures
        result_of(plugin, outcome).id == plugin.id,
        result_of(plugin, outcome).name == plugin.name,
        result_of(plugin, outcome).success <==> outcome is Ok,
        outcome matches Err(e) ==> result_of(plugin, outcome).error == Some(e),
        outcome is Ok ==> result_of(plugin, outcome).error is None,
{
}

// ---------------------------------------------------------------------------
// Replies and steps
// ---------------------------------------------------------------------------

/// The views of replies are what they hold.
pub proof fn law_replies_are_seen_whole(code: i32, output: String, e: String, failure: WorkspaceFailure)
    ensures
        exit_view(Ok((code, output))) == Ok::<(int, Seq<char>), Seq<char>>((code as int, output@)),
        exit_view(Err(e)) == Err::<(int, Seq<char>), Seq<char>>(e@),
        outcome_view(Ok(())) == Ok::<(), Seq<char>>(()),
        outcome_view(Err(e)) == Err::<(), Seq<char>>(e@),
        write_view(Ok(())) == Ok::<(), Seq<char>>(()),
        write_view(Err(failure)) == Err::<(), Seq<char>>(workspace_failure_text(failure)),
{
}

/// The views of decisions, attempts and turns are what they hold.
pub proof fn law_turns_are_seen_whole(
    outcome: Result<(), String>,
    keys: Vec<String>,
    attempt: Attempt,
    turn: Turn,
)
    ensures
        Verdict::Done(outcome)@ == VerdictView::Done(outcome_view(outcome)),
        Verdict::Retry(keys)@ == VerdictView::Retry(string_views(keys@)),
        attempt@.batch == attempt.batch@,
        attempt@.current == attempt.current@,
        attempt@.retries == attempt.retries,
        turn@.notices == notice_views(turn.notices@),
        turn@.step == turn.step@,
{
}

/// The view of a step is what it holds.
pub proof fn law_steps_are_seen_whole(step: InstallStep)
    ensures
        match step {
            InstallStep::LoadPresets(AwaitPresets { ids }) => step@ == StepView::LoadPresets(
                string_views(ids@),
            ),
            InstallStep::EnsureShims(AwaitShims { batch }) => step@ == StepView::EnsureShims(batch@),
            InstallStep::ProbeRuntime(AwaitRuntime { batch }) => step@ == StepView::ProbeRuntime(
                batch@,
            ),
            InstallStep::ProbeBundledPnpm(AwaitBundledPnpm { batch }) => step@
                == StepView::ProbeBundledPnpm(batch@),
            InstallStep::ProbeUserPnpm(AwaitUserPnpm { batch }) => step@ == StepView::ProbeUserPnpm(
                batch@,
            ),
            InstallStep::LocatePnpm(AwaitAddress { batch }) => step@ == StepView::LocatePnpm(batch@),
            InstallStep::FetchPnpm(AwaitArchive { batch, url }) => step@ == StepView::FetchPnpm(
                batch@,
                url@,
            ),
            InstallStep::VerifyPnpm(AwaitCheck { batch, archive }) => step@ == StepView::VerifyPnpm(
                batch@,
                archive@,
            ),
            InstallStep::UnpackPnpm(AwaitUnpacking { batch, archive }) => step@
                == StepView::UnpackPnpm(batch@, archive@),
            InstallStep::QueryService(AwaitService { batch, prefer_bundled_pnpm }) => step@
                == StepView::QueryService(batch@, prefer_bundled_pnpm),
            InstallStep::StopService(AwaitStop { batch, prefer_bundled_pnpm }) => step@
                == StepView::StopService(batch@, prefer_bundled_pnpm),
            InstallStep::PrepareEnvironment(AwaitEnvironment { batch, prefer_bundled_pnpm }) => step@
                == StepView::PrepareEnvironment(batch@, prefer_bundled_pnpm),
            InstallStep::RunPlugin(AwaitExit { attempt }) => step@ == StepView::RunPlugin(attempt@),
            InstallStep::AllowBuilds(AwaitAllowBuilds { attempt, keys }) => step@
                == StepView::AllowBuilds(attempt@, string_views(keys@)),
            InstallStep::SettlePlugin(AwaitSettling { attempt, outcome }) => step@
                == StepView::SettlePlugin(attempt@, outcome_view(outcome)),
            InstallStep::NextPlugin(AwaitNext { batch }) => step@ == StepView::NextPlugin(batch@),
            InstallStep::ApplyInspector(AwaitInspector { results }) => step@
                == StepView::ApplyInspector(result_views(results@)),
            InstallStep::Finish(Ok(results)) => step@ == StepView::Finish(
                Ok(result_views(results@)),
            ),
            InstallStep::Finish(Err(error)) => step@ == StepView::Finish(Err(error@)),
        },
{
}

} // verus!
