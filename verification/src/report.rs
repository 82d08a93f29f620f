//! What a run reports: one result for each plugin, and notices on the way.

use vstd::prelude::*;

verus! {

/// The event under which the state of one plugin is announced.
pub const PREINSTALL_STATUS_EVENT: &'static str = "preinstall-plugin-status";

/// The state of one plugin, as it is announced.
#[derive(Clone)]
pub struct PreinstallStatusPayload {
    pub id: String,
    /// `installing`, `success` or `failed`.
    pub status: String,
    /// Why it failed; only with `failed`.
    pub error: Option<String>,
}

/// What became of one plugin.
#[derive(Debug, Clone)]
pub struct PreinstallResult {
    pub id: String,
    pub name: String,
    pub success: bool,
    /// Why it failed.
    pub error: Option<String>,
}

/// What an optional string holds.
pub open spec fn option_view(s: Option<String>) -> Option<Seq<char>> {
    match s {
        Some(s) => Some(s@),
        None => None,
    }
}

/// The model of a status payload.
pub struct StatusView {
    pub id: Seq<char>,
    pub status: Seq<char>,
    pub error: Option<Seq<char>>,
}

impl View for PreinstallStatusPayload {
    type V = StatusView;

    open spec fn view(&self) -> StatusView {
        StatusView { id: self.id@, status: self.status@, error: option_view(self.error) }
    }
}

/// The model of a result.
pub struct ResultView {
    pub id: Seq<char>,
    pub name: Seq<char>,
    pub success: bool,
    pub error: Option<Seq<char>>,
}

impl View for PreinstallResult {
    type V = ResultView;

    open spec fn view(&self) -> ResultView {
        ResultView {
            id: self.id@,
            name: self.name@,
            success: self.success,
            error: option_view(self.error),
        }
    }
}

/// What a sequence of results holds.
pub open spec fn result_views(results: Seq<PreinstallResult>) -> Seq<ResultView> {
    results.map_values(|r: PreinstallResult| r@)
}

/// The states of a plugin, as they are announced.
pub open spec fn installing(id: Seq<char>) -> StatusView {
    StatusView { id, status: "installing"@, error: None }
}

pub open spec fn succeeded(id: Seq<char>) -> StatusView {
    StatusView { id, status: "success"@, error: None }
}

pub open spec fn failed(id: Seq<char>, error: Seq<char>) -> StatusView {
    StatusView { id, status: "failed"@, error: Some(error) }
}

/// The payload that announces a state; an error belongs to `failed` only.
pub fn status_payload(id: &str, status: &str, error: Option<&str>) -> (
    payload: PreinstallStatusPayload)
    ensures
        payload@ == (StatusView {
            id: id@,
            status: status@,
            error: match error {
                Some(e) => Some(e@),
                None => None,
            },
        }),
{
    PreinstallStatusPayload {
        id: id.to_string(),
        status: status.to_string(),
        error: match error {
            Some(e) => Some(e.to_string()),
            None => None,
        },
    }
}

/// Something to be shown on the way.
pub enum Notice {
    /// A line for the log.
    Log(String),
    /// The state of a plugin.
    Status(PreinstallStatusPayload),
}

/// The model of a notice.
pub enum NoticeView {
    Log(Seq<char>),
    Status(StatusView),
}

impl View for Notice {
    type V = NoticeView;

    open spec fn view(&self) -> NoticeView {
        match self {
            Notice::Log(line) => NoticeView::Log(line@),
            Notice::Status(payload) => NoticeView::Status(payload@),
        }
    }
}

/// What a sequence of notices holds.
pub open spec fn notice_views(notices: Seq<Notice>) -> Seq<NoticeView> {
    notices.map_values(|n: Notice| n@)
}

/// How many of `results` are successes.
pub open spec fn success_count(results: Seq<ResultView>) -> nat
    decreases results.len(),
{
    if results.len() == 0 {
        0
    } else if results.last().success {
        success_count(results.drop_last()) + 1
    } else {
        success_count(results.drop_last())
    }
}

/// How many plugins were installed, and how many were not.
pub fn tally(results: &[PreinstallResult]) -> (counts: (usize, usize))
    ensures
        counts.0 == success_count(result_views(results@)),
        counts.0 + counts.1 == results@.len(),
{
    let mut succeeded: usize = 0;
    let ghost views = result_views(results@);
    assert(views.take(0) == Seq::<ResultView>::empty());
    for i in 0..results.len()
        invariant
            views == result_views(results@),
            succeeded == success_count(views.take(i as int)),
            succeeded <= i,
    {
        assert(views.take(i + 1).drop_last() == views.take(i as int));
        assert(views.take(i + 1).last() == results@[i as int]@);
        if results[i].success {
            succeeded += 1;
        }
    }
    assert(views.take(views.len() as int) == views);
    (succeeded, results.len() - succeeded)
}

/// Every success counts, and nothing else does.
pub proof fn law_every_success_counts(results: Seq<ResultView>, result: ResultView)
    ensures
        success_count(Seq::<ResultView>::empty()) == 0,
        success_count(results.push(result)) == success_count(results) + (if result.success {
            1nat
        } else {
            0nat
        }),
{
    assert(results.push(result).drop_last() == results);
}

/// A state names the plugin that it is about, and only a failure carries an error:
/// the one that was given.
pub proof fn law_states_name_their_plugin(id: Seq<char>, error: Seq<char>)
    ensures
        installing(id).id == id && succeeded(id).id == id && failed(id, error).id == id,
        installing(id).status == "installing"@ && installing(id).error is None,
        succeeded(id).status == "success"@ && succeeded(id).error is None,
        failed(id, error).status == "failed"@ && failed(id, error).error == Some(error),
{
}

/// The views of results and notices are what they hold, one by one.
pub proof fn law_reports_are_seen_whole(
    result: PreinstallResult,
    payload: PreinstallStatusPayload,
    line: String,
    results: Seq<PreinstallResult>,
    notices: Seq<Notice>,
)
    ensures
        result@.id == result.id@ && result@.name == result.name@,
        result@.success == result.success,
        result@.error is Some <==> result.error is Some,
        result.error matches Some(e) ==> result@.error == Some(e@),
        payload@.id == payload.id@ && payload@.status == payload.status@,
        payload@.error is Some <==> payload.error is Some,
        payload.error matches Some(e) ==> payload@.error == Some(e@),
        Notice::Log(line)@ == NoticeView::Log(line@),
        Notice::Status(payload)@ == NoticeView::Status(payload@),
        result_views(results).len() == results.len(),
        forall|i: int| 0 <= i < results.len() ==> #[trigger] result_views(results)[i] == results[i]@,
        notice_views(notices).len() == notices.len(),
        forall|i: int| 0 <= i < notices.len() ==> #[trigger] notice_views(notices)[i] == notices[i]@,
{
}

} // verus!
