//! Decisions of the follower that mirrors a task run by the Python desktop
//! server: the URLs it calls, how each reply is judged, how a polled task
//! updates the local record, and which directory is registered as the
//! resulting artifact. The HTTP calls and the waiting stay with the caller.

use crate::desktop::{trim_end_char, trim_end_slashes};
use crate::text::{concat2, concat3, str_eq};
use vstd::prelude::*;

verus! {

/// `base` without trailing slashes, followed by `suffix`.
pub open spec fn api_url_spec(base: Seq<char>, suffix: Seq<char>) -> Seq<char> {
    trim_end_char(base, '/') + suffix
}

/// The URL of the server's health check.
pub fn health_url(base: &str) -> (r: String)
    ensures
        r@ == api_url_spec(base@, "/api/health"@),
{
    concat2(trim_end_slashes(base).as_str(), "/api/health")
}

/// The URL that creates a task.
pub fn create_task_url(base: &str) -> (r: String)
    ensures
        r@ == api_url_spec(base@, "/api/tasks"@),
{
    concat2(trim_end_slashes(base).as_str(), "/api/tasks")
}

/// The URL that reports a task.
pub fn task_url(base: &str, id: &str) -> (r: String)
    ensures
        r@ == api_url_spec(base@, "/api/tasks/"@ + id@),
{
    let r = concat3(trim_end_slashes(base).as_str(), "/api/tasks/", id);
    assert(r@ =~= api_url_spec(base@, "/api/tasks/"@ + id@));
    r
}

/// The URL that cancels a task.
pub fn cancel_url(base: &str, id: &str) -> (r: String)
    ensures
        r@ == api_url_spec(base@, "/api/tasks/"@ + id@ + "/cancel"@),
{
    let t = task_url(base, id);
    let r = concat2(t.as_str(), "/cancel");
    assert(r@ =~= api_url_spec(base@, "/api/tasks/"@ + id@ + "/cancel"@));
    r
}

/// The first line the follower writes to a task's log.
pub fn bridge_start_log(base: &str) -> (r: String)
    ensures
        r@ == "[bridge] Phase 2: execution still via Python desktop_server at "@ + base@,
{
    concat2("[bridge] Phase 2: execution still via Python desktop_server at ", base)
}

/// The refusal when the health check answered with an error status.
pub fn unhealthy_message(status: &str) -> (r: String)
    ensures
        r@ == "Python desktop_server unhealthy: HTTP "@ + status@,
{
    concat2("Python desktop_server unhealthy: HTTP ", status)
}

/// The refusal when the server could not be reached.
pub fn unreachable_message(base: &str, error: &str) -> (r: String)
    ensures
        r@ == "Python desktop_server unreachable at "@ + base@ + ": "@ + error@
            + ". Start with scripts/run_geoforge.sh"@,
{
    let a = concat3("Python desktop_server unreachable at ", base, ": ");
    concat3(a.as_str(), error, ". Start with scripts/run_geoforge.sh")
}

/// The refusal when creating the task answered with an error status.
pub fn create_failed_message(status: &str, body: &str) -> (r: String)
    ensures
        r@ == "Python create task HTTP "@ + status@ + ": "@ + body@,
{
    concat3(concat2("Python create task HTTP ", status).as_str(), ": ", body)
}

/// The log line once the remote task is known.
pub fn linked_log(py_id: &str) -> (r: String)
    ensures
        r@ == "[bridge] linked Python task "@ + py_id@,
{
    concat2("[bridge] linked Python task ", py_id)
}

/// A remote status after which the task does not change any more.
pub open spec fn is_final_status(s: Seq<char>) -> bool {
    s == "succeeded"@ || s == "completed"@ || s == "failed"@ || s == "cancelled"@ || s
        == "interrupted"@
}

/// A remote status that reports success.
pub open spec fn is_success_status(s: Seq<char>) -> bool {
    s == "succeeded"@ || s == "completed"@
}

/// Whether a polled status ends the follow.
pub fn final_status(s: &str) -> (r: bool)
    ensures
        r == is_final_status(s@),
{
    str_eq(s, "succeeded") || str_eq(s, "completed") || str_eq(s, "failed") || str_eq(
        s,
        "cancelled",
    ) || str_eq(s, "interrupted")
}

/// Whether a polled status reports success.
pub fn success_status(s: &str) -> (r: bool)
    ensures
        r == is_success_status(s@),
{
    str_eq(s, "succeeded") || str_eq(s, "completed")
}

/// The local record of a followed task, as far as polling changes it.
#[derive(Debug, Clone)]
pub struct FollowedTask {
    pub status: String,
    pub stage: String,
    pub error: Option<String>,
    pub log: String,
    /// The task's progress, as JSON text.
    pub progress: String,
    /// A finish time has been recorded.
    pub finished: bool,
}

/// One poll's report of the remote task; absent fields are `None`.
#[derive(Debug, Clone)]
pub struct PollReport {
    pub status: Option<String>,
    pub stage: Option<String>,
    pub error: Option<String>,
    pub log: Option<String>,
    /// The reported progress, as JSON text.
    pub progress: Option<String>,
}

/// The status a poll reports: `running` when it reports none.
pub open spec fn polled_status(p: PollReport) -> Seq<char> {
    match p.status {
        Some(s) => s@,
        None => "running"@,
    }
}

/// The record after one poll: the status is taken over; the stage and the
/// log only when the poll reports them non-empty; the error when reported;
/// the progress is replaced by the reported one (`{}` when none is
/// reported); a finished status records the finish.
pub open spec fn apply_poll_spec(t: FollowedTask, p: PollReport) -> (Seq<char>, Seq<char>, Option<
    Seq<char>,
>, Seq<char>, Seq<char>, bool) {
    let status = polled_status(p);
    let stage = match p.stage {
        Some(s) => if s@.len() > 0 {
            s@
        } else {
            t.stage@
        },
        None => t.stage@,
    };
    let error = match p.error {
        Some(e) => Some(e@),
        None => match t.error {
            Some(e) => Some(e@),
            None => None,
        },
    };
    let log = match p.log {
        Some(l) => if l@.len() > 0 {
            l@
        } else {
            t.log@
        },
        None => t.log@,
    };
    let progress = match p.progress {
        Some(x) => x@,
        None => "{}"@,
    };
    (status, stage, error, log, progress, t.finished || is_final_status(status))
}

/// The fields of a record as plain values.
pub open spec fn followed_view(t: FollowedTask) -> (Seq<char>, Seq<char>, Option<Seq<char>>, Seq<
    char,
>, Seq<char>, bool) {
    (
        t.status@,
        t.stage@,
        match t.error {
            Some(e) => Some(e@),
            None => None,
        },
        t.log@,
        t.progress@,
        t.finished,
    )
}

/// Apply one poll to the local record.
pub fn apply_poll(t: FollowedTask, p: PollReport) -> (r: FollowedTask)
    ensures
        followed_view(r) == apply_poll_spec(t, p),
{
    let ghost t0 = t;
    let ghost p0 = p;
    let status: String = match p.status {
        Some(s) => s,
        None => "running".to_owned(),
    };
    let stage: String = match p.stage {
        Some(s) => if crate::text::chars_of(s.as_str()).len() > 0 {
            s
        } else {
            t.stage
        },
        None => t.stage,
    };
    let error: Option<String> = match p.error {
        Some(e) => Some(e),
        None => t.error,
    };
    let log: String = match p.log {
        Some(l) => if crate::text::chars_of(l.as_str()).len() > 0 {
            l
        } else {
            t.log
        },
        None => t.log,
    };
    let progress: String = match p.progress {
        Some(x) => x,
        None => "{}".to_owned(),
    };
    let fin = final_status(status.as_str());
    let r = FollowedTask { status, stage, error, log, progress, finished: t.finished || fin };
    assert(followed_view(r) == apply_poll_spec(t0, p0));
    r
}

/// Once a record is finished, no later poll unfinishes it.
pub proof fn lemma_poll_keeps_finished(t: FollowedTask, p: PollReport)
    requires
        t.finished,
    ensures
        apply_poll_spec(t, p).5,
{
}

/// Which directory a succeeded follow registers as an artifact.
#[derive(Debug, Clone, Copy, PartialEq, Eq)]
pub enum ArtifactRoot {
    /// The output directory itself (it holds `tileset.json`).
    Output,
    /// The directory of the output, which is a `tileset.json` file.
    OutputParent,
    /// Nothing is registered.
    Nothing,
}

/// The artifact root of a succeeded output: none for an empty output path;
/// the output when `tileset.json` is a file inside it; its parent when the
/// output is itself a file named `tileset.json`.
pub fn artifact_root(out: &str, tileset_inside: bool, out_is_file: bool, file_name: Option<&str>) -> (r:
    ArtifactRoot)
    ensures
        out@.len() == 0 ==> r == ArtifactRoot::Nothing,
        out@.len() > 0 && tileset_inside ==> r == ArtifactRoot::Output,
        out@.len() > 0 && !tileset_inside ==> (r == ArtifactRoot::OutputParent <==> (out_is_file
            && (file_name matches Some(n) && n@ == "tileset.json"@))),
        out@.len() > 0 && !tileset_inside ==> r != ArtifactRoot::Output,
{
    if crate::text::chars_of(out).len() == 0 {
        return ArtifactRoot::Nothing;
    }
    if tileset_inside {
        return ArtifactRoot::Output;
    }
    let named = match file_name {
        Some(n) => str_eq(n, "tileset.json"),
        None => false,
    };
    if out_is_file && named {
        ArtifactRoot::OutputParent
    } else {
        ArtifactRoot::Nothing
    }
}

/// The log line after the artifact was registered.
pub fn registered_log(artifact_id: &str) -> (r: String)
    ensures
        r@ == "[bridge] registered artifact "@ + artifact_id@ + " → Rust resource server"@,
{
    concat3("[bridge] registered artifact ", artifact_id, " → Rust resource server")
}

/// The log line when registering the artifact failed.
pub fn register_failed_log(e: &str) -> (r: String)
    ensures
        r@ == "[bridge] artifact register failed: "@ + e@,
{
    concat2("[bridge] artifact register failed: ", e)
}

/// A forwarded cancel succeeded when the server accepted it or no longer
/// knows the task.
pub fn cancel_accepted(success: bool, status_code: u16) -> (r: bool)
    ensures
        r == (success || status_code == 404),
{
    success || status_code == 404
}

/// The refusal of a forwarded cancel.
pub fn cancel_refused_message(status: &str) -> (r: String)
    ensures
        r@ == "cancel HTTP "@ + status@,
{
    concat2("cancel HTTP ", status)
}

} // verus!
