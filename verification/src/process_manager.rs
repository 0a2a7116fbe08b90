//! Decisions of the desktop's processor runner: reading one bounded
//! protocol record from the child's stdout, how a finished child changes
//! the task, and how protocol events update the task record.

use crate::task_store::{TaskState, TaskStatus};
use crate::text::{chars_of, chars_start_with, int_chars, int_string, starts_with, str_contains, str_eq, contains};
use vstd::prelude::*;
use vstd::string::StringExecFns;

verus! {

/// Longest protocol record kept for parsing; longer records are reported
/// as truncated and skipped.
pub const MAX_PROTOCOL_LINE_BYTES: usize = 65536;

/// Longest stderr display fragment of the child.
pub const MAX_DIAGNOSTIC_DISPLAY_BYTES: usize = 65536;

/// Position of the first newline in `c`, if any.
pub open spec fn first_newline(c: Seq<u8>) -> Option<int>
    decreases c.len(),
{
    if c.len() == 0 {
        None
    } else if c[0] == 0x0au8 {
        Some(0)
    } else {
        match first_newline(c.subrange(1, c.len() as int)) {
            Some(i) => Some(i + 1),
            None => None,
        }
    }
}

/// How many bytes of a buffered chunk belong to the current record: up to
/// and including the first newline, or the whole chunk.
pub open spec fn record_take(c: Seq<u8>) -> int {
    match first_newline(c) {
        Some(i) => i + 1,
        None => c.len() as int,
    }
}

proof fn lemma_first_newline(c: Seq<u8>)
    ensures
        match first_newline(c) {
            Some(i) => 0 <= i < c.len() && c[i] == 0x0au8 && forall|k: int|
                0 <= k < i ==> c[k] != 0x0au8,
            None => forall|k: int| 0 <= k < c.len() ==> c[k] != 0x0au8,
        },
    decreases c.len(),
{
    if c.len() > 0 && c[0] != 0x0au8 {
        let t = c.subrange(1, c.len() as int);
        lemma_first_newline(t);
        match first_newline(t) {
            Some(i) => {
                assert forall|k: int| 0 <= k < i + 1 implies c[k] != 0x0au8 by {
                    if k > 0 {
                        assert(c[k] == t[k - 1]);
                    }
                }
            },
            None => {
                assert forall|k: int| 0 <= k < c.len() implies c[k] != 0x0au8 by {
                    if k > 0 {
                        assert(c[k] == t[k - 1]);
                    }
                }
            },
        }
    }
}

/// The first `MAX_PROTOCOL_LINE_BYTES` bytes of `s` (all of it when shorter).
pub open spec fn bounded_prefix(s: Seq<u8>) -> Seq<u8> {
    if s.len() <= MAX_PROTOCOL_LINE_BYTES {
        s
    } else {
        s.take(MAX_PROTOCOL_LINE_BYTES as int)
    }
}

/// One protocol record being read: the bounded prefix kept for parsing and
/// whether bytes beyond the bound were dropped.
pub struct ProtocolLine {
    display: Vec<u8>,
    truncated: bool,
}

impl ProtocolLine {
    pub closed spec fn display(&self) -> Seq<u8> {
        self.display@
    }

    pub closed spec fn is_truncated(&self) -> bool {
        self.truncated
    }

    /// Nothing read yet.
    pub fn new() -> (r: Self)
        ensures
            r.display() == Seq::<u8>::empty(),
            !r.is_truncated(),
    {
        ProtocolLine { display: Vec::new(), truncated: false }
    }

    /// Take in the next buffered chunk of the stream. Returns how many bytes
    /// of it belong to this record (the caller writes exactly those to the
    /// raw diagnostics and consumes them) and whether the record ended.
    pub fn step(&mut self, chunk: &[u8]) -> (r: (usize, bool))
        requires
            old(self).display().len() <= MAX_PROTOCOL_LINE_BYTES,
        ensures
            r.0 == record_take(chunk@),
            r.1 == (first_newline(chunk@) is Some),
            final(self).display() == bounded_prefix(
                old(self).display() + chunk@.subrange(0, r.0 as int),
            ),
            final(self).display().len() <= MAX_PROTOCOL_LINE_BYTES,
            final(self).is_truncated() == (old(self).is_truncated() || old(self).display().len() + r.0
                > MAX_PROTOCOL_LINE_BYTES),
    {
        proof {
            lemma_first_newline(chunk@);
        }
        let mut i: usize = 0;
        while i < chunk.len() && chunk[i] != 0x0a
            invariant
                i <= chunk@.len(),
                forall|k: int| 0 <= k < i ==> chunk@[k] != 0x0au8,
            decreases chunk.len() - i,
        {
            i += 1;
        }
        let found = i < chunk.len();
        let consume = if found {
            i + 1
        } else {
            i
        };
        proof {
            match first_newline(chunk@) {
                Some(j) => {
                    assert(j == i as int);
                },
                None => {},
            }
        }
        let ghost old_display = self.display@;
        if self.display.len() < MAX_PROTOCOL_LINE_BYTES {
            let room = MAX_PROTOCOL_LINE_BYTES - self.display.len();
            let take = if room < consume {
                room
            } else {
                consume
            };
            crate::bytes::push_all(&mut self.display, vstd::slice::slice_subrange(chunk, 0, take));
            if take < consume {
                self.truncated = true;
            }
            if take < consume {
                assert((old_display + chunk@.subrange(0, consume as int)).take(
                    MAX_PROTOCOL_LINE_BYTES as int,
                ) =~= old_display + chunk@.subrange(0, take as int));
            }
        } else if consume > 0 {
            self.truncated = true;
            assert((old_display + chunk@.subrange(0, consume as int)).take(
                MAX_PROTOCOL_LINE_BYTES as int,
            ) =~= old_display);
        } else {
            assert(chunk@.subrange(0, 0) =~= Seq::<u8>::empty());
            assert(old_display + chunk@.subrange(0, 0) =~= old_display);
        }
        (consume, found)
    }

    /// At end of stream: the record read so far, or `None` when nothing was
    /// read for it.
    pub fn finish(self) -> (r: Option<(Vec<u8>, bool)>)
        ensures
            match r {
                Some((d, t)) => d@ == self.display() && t == self.is_truncated() && (d@.len() > 0
                    || t),
                None => self.display().len() == 0 && !self.is_truncated(),
            },
    {
        if self.display.len() == 0 && !self.truncated {
            None
        } else {
            Some((self.display, self.truncated))
        }
    }
}

/// Reading a record in several chunks keeps exactly its first
/// `MAX_PROTOCOL_LINE_BYTES` bytes and flags it as truncated exactly when it
/// is longer.
pub proof fn lemma_protocol_line_prefix(read: Seq<u8>, more: Seq<u8>, display: Seq<u8>, truncated: bool)
    requires
        display == bounded_prefix(read),
        truncated == (read.len() > MAX_PROTOCOL_LINE_BYTES),
    ensures
        bounded_prefix(display + more) == bounded_prefix(read + more),
        (truncated || display.len() + more.len() > MAX_PROTOCOL_LINE_BYTES) == ((read
            + more).len() > MAX_PROTOCOL_LINE_BYTES),
{
    let m = MAX_PROTOCOL_LINE_BYTES as int;
    if read.len() > m {
        assert((display + more).take(m) =~= (read + more).take(m));
    } else if (read + more).len() > m {
        assert((display + more).take(m) =~= (read + more).take(m));
    }
}

/// How a finished processor child changes its task.
pub enum ProcessorEnd {
    /// The desktop is shutting down and has already recorded the task as
    /// interrupted: nothing is rewritten.
    Untouched,
    /// The output was committed; record success at this path.
    Succeeded { path: String },
    /// Record cancellation (unless the task already succeeded).
    Cancelled,
    /// The child failed with this message.
    Failed { message: String },
    /// The child exited normally without a result; nothing to record.
    NoResult,
}

/// The end of a processor run. A child that exited 0 after reporting a
/// result (or after its commit was observed) succeeded, however a cancel
/// request arrived meanwhile; an exit during shutdown rewrites nothing.
pub fn processor_outcome(
    stopping: bool,
    exit_code: i32,
    result_path: Option<String>,
    committed: bool,
    output_path: String,
    cancel_requested: bool,
    force_killed: bool,
) -> (r: ProcessorEnd)
    ensures
        stopping ==> r == ProcessorEnd::Untouched,
        !stopping && exit_code == 0 && (result_path is Some || committed) ==> r == (
        ProcessorEnd::Succeeded {
            path: match result_path {
                Some(p) => p,
                None => output_path,
            },
        }),
        !stopping && !(exit_code == 0 && (result_path is Some || committed)) && (cancel_requested
            || exit_code == 2 || force_killed) ==> r == ProcessorEnd::Cancelled,
        !stopping && !(exit_code == 0 && (result_path is Some || committed)) && !(cancel_requested
            || exit_code == 2 || force_killed) && exit_code != 0 ==> (r matches ProcessorEnd::Failed {
            message,
        } && message@ == "processor exited "@ + int_chars(exit_code as int)),
        !stopping && !(exit_code == 0 && (result_path is Some || committed)) && !(cancel_requested
            || exit_code == 2 || force_killed) && exit_code == 0 ==> r == ProcessorEnd::NoResult,
{
    if stopping {
        return ProcessorEnd::Untouched;
    }
    if exit_code == 0 && (result_path.is_some() || committed) {
        let path = match result_path {
            Some(p) => p,
            None => output_path,
        };
        return ProcessorEnd::Succeeded { path };
    }
    if cancel_requested || exit_code == 2 || force_killed {
        return ProcessorEnd::Cancelled;
    }
    if exit_code != 0 {
        let message = "processor exited ".to_owned().concat(int_string(exit_code as i64).as_str());
        return ProcessorEnd::Failed { message };
    }
    ProcessorEnd::NoResult
}

/// `r` is `t` after a recorded cancellation: a succeeded task is left as
/// it is; any other ends cancelled, at the stage `cancelled`, finished.
pub open spec fn cancel_record(t: TaskState, r: TaskState) -> bool {
    &&& t.status == TaskStatus::Succeeded ==> r == t
    &&& t.status != TaskStatus::Succeeded ==> r.status == TaskStatus::Cancelled && r.stage@
        == "cancelled"@ && r.finished && r.error == t.error && r.cancel_requested
        == t.cancel_requested
}

/// Apply a recorded cancellation to a task that has not succeeded.
pub fn apply_cancelled(t: TaskState) -> (r: TaskState)
    ensures
        cancel_record(t, r),
{
    match t.status {
        TaskStatus::Succeeded => t,
        _ => TaskState {
            status: TaskStatus::Cancelled,
            stage: "cancelled".to_owned(),
            error: t.error,
            cancel_requested: t.cancel_requested,
            finished: true,
        },
    }
}

/// `r` is `t` recorded as succeeded: at the stage `done`, finished, with
/// its error and cancel request kept.
pub open spec fn success_record(t: TaskState, r: TaskState) -> bool {
    &&& r.status == TaskStatus::Succeeded
    &&& r.stage@ == "done"@
    &&& r.finished
    &&& r.error == t.error
    &&& r.cancel_requested == t.cancel_requested
}

/// The task after its processor committed its output.
pub fn apply_succeeded(t: TaskState) -> (r: TaskState)
    ensures
        success_record(t, r),
{
    TaskState {
        status: TaskStatus::Succeeded,
        stage: "done".to_owned(),
        error: t.error,
        cancel_requested: t.cancel_requested,
        finished: true,
    }
}

/// A success is never rewritten as a cancellation: a cancellation recorded
/// after a success leaves the task as the success left it.
pub proof fn lemma_success_survives_cancel(t: TaskState, s: TaskState, c: TaskState)
    requires
        success_record(t, s),
        cancel_record(s, c),
    ensures
        c == s,
        c.status == TaskStatus::Succeeded,
{
}

/// Error code recorded for a runner failure message.
pub open spec fn runner_error_code(e: Seq<char>) -> Seq<char> {
    if contains(e, "exited"@) {
        "PROCESSOR_EXIT_NONZERO"@
    } else {
        "PROCESSOR_FAILED"@
    }
}

/// Record of a runner failure: the new task state and, for a failed task,
/// the error code and the stage that failed.
pub struct FailureUpdate {
    pub state: TaskState,
    pub error_code: Option<&'static str>,
    pub failed_stage: Option<String>,
}

/// The task after the runner reported failure `e`. During shutdown nothing
/// changes. A cancelling or cancelled task ends cancelled. Otherwise the
/// task fails; the first useful error is kept, and a more specific earlier
/// error is extended with `e` unless `e` is only an exit status.
pub fn scheduler_failure(t: TaskState, e: String, stopping: bool) -> (r: FailureUpdate)
    ensures
        stopping ==> r.state == t && r.error_code is None && r.failed_stage is None,
        !stopping && (t.status == TaskStatus::Cancelled || t.status == TaskStatus::Cancelling) ==> {
            &&& r.state.status == TaskStatus::Cancelled
            &&& r.state.stage@ == "cancelled"@
            &&& r.state.finished
            &&& r.state.error == t.error
            &&& r.error_code is None
        },
        !stopping && !(t.status == TaskStatus::Cancelled || t.status == TaskStatus::Cancelling) ==> {
            &&& r.state.status == TaskStatus::Failed
            &&& r.state.stage@ == "failed"@
            &&& r.state.finished
            &&& r.state.cancel_requested == t.cancel_requested
            &&& r.error_code matches Some(c) && c@ == runner_error_code(e@)
            &&& r.failed_stage matches Some(s) && s@ == t.stage@
            &&& match t.error {
                None => r.state.error matches Some(x) && x@ == e@,
                Some(prev) => if prev@.len() == 0 {
                    r.state.error matches Some(x) && x@ == e@
                } else if contains(e@, "exited"@) {
                    r.state.error matches Some(x) && x@ == prev@
                } else {
                    r.state.error matches Some(x) && x@ == prev@ + "; "@ + e@
                },
            }
        },
{
    if stopping {
        return FailureUpdate { state: t, error_code: None, failed_stage: None };
    }
    let cancelled_like = match t.status {
        TaskStatus::Cancelled | TaskStatus::Cancelling => true,
        _ => false,
    };
    if cancelled_like {
        return FailureUpdate {
            state: TaskState {
                status: TaskStatus::Cancelled,
                stage: "cancelled".to_owned(),
                error: t.error,
                cancel_requested: t.cancel_requested,
                finished: true,
            },
            error_code: None,
            failed_stage: None,
        };
    }
    let exited = str_contains(e.as_str(), "exited");
    let code: &'static str = if exited {
        "PROCESSOR_EXIT_NONZERO"
    } else {
        "PROCESSOR_FAILED"
    };
    let error = match t.error {
        None => Some(e),
        Some(prev) => {
            if prev.as_str().is_empty() {
                Some(e)
            } else if exited {
                Some(prev)
            } else {
                Some(crate::text::concat3(prev.as_str(), "; ", e.as_str()))
            }
        },
    };
    FailureUpdate {
        state: TaskState {
            status: TaskStatus::Failed,
            stage: "failed".to_owned(),
            error,
            cancel_requested: t.cancel_requested,
            finished: true,
        },
        error_code: Some(code),
        failed_stage: Some(t.stage),
    }
}

/// The task stage shown for a protocol stage name: the rebuild sub-stages
/// collapse to "rebuild" and "validate" is shown as "check".
pub open spec fn display_stage_spec(stage: Seq<char>) -> Seq<char> {
    if starts_with(stage, "rebuild"@) {
        "rebuild"@
    } else if stage == "validate"@ {
        "check"@
    } else {
        stage
    }
}

/// Map a protocol stage name to the stage shown for the task.
pub fn display_stage(stage: &str) -> (r: String)
    ensures
        r@ == display_stage_spec(stage@),
{
    let s = chars_of(stage);
    let p = chars_of("rebuild");
    if chars_start_with(&s, &p) {
        "rebuild".to_owned()
    } else if str_eq(stage, "validate") {
        "check".to_owned()
    } else {
        stage.to_owned()
    }
}

/// Apply an `error` event: the message becomes the task error unless an
/// error is already recorded or the event reports a cancellation.
pub fn apply_error_event(t: TaskState, code: &str, message: &str) -> (r: TaskState)
    ensures
        r.status == t.status,
        r.stage == t.stage,
        r.cancel_requested == t.cancel_requested,
        r.finished == t.finished,
        (code@ != "CANCELLED"@ && match t.error {
            None => true,
            Some(x) => x@.len() == 0,
        }) ==> (r.error matches Some(x) && x@ == message@),
        !(code@ != "CANCELLED"@ && match t.error {
            None => true,
            Some(x) => x@.len() == 0,
        }) ==> r.error == t.error,
{
    let empty = match &t.error {
        None => true,
        Some(x) => x.as_str().is_empty(),
    };
    if !str_eq(code, "CANCELLED") && empty {
        TaskState {
            status: t.status,
            stage: t.stage,
            error: Some(message.to_owned()),
            cancel_requested: t.cancel_requested,
            finished: t.finished,
        }
    } else {
        t
    }
}

/// Log line recorded for an `error` event.
pub fn error_log_line(code: &str, message: &str) -> (r: String)
    ensures
        r@ == "[error:"@ + code@ + "] "@ + message@,
{
    "[error:".to_owned().concat(code).concat("] ").concat(message)
}

/// Log line recorded for a `warning` event.
pub fn warning_log_line(code: &str, message: &str) -> (r: String)
    ensures
        r@ == "[warning:"@ + code@ + "] "@ + message@,
{
    "[warning:".to_owned().concat(code).concat("] ").concat(message)
}

/// One event of the processor's protocol stream, as the desktop reads it
/// (absent fields already replaced by their defaults).
pub enum ProtocolEvent {
    Stage { stage: String, message: String },
    /// Progress: each of its fields that the event holds, as JSON text.
    Progress { completed: Option<String>, total: Option<String>, stage: Option<String> },
    Log { message: Option<String> },
    Warning { code: String, message: String },
    Error { code: String, message: String },
    Result { path: Option<String> },
    /// A metric, with its value as JSON text.
    Metric { name: String, value: String },
    /// Any other event, as JSON text.
    Other { text: String },
}

/// The task-log line an event adds, if any.
pub open spec fn event_log_text(ev: ProtocolEvent) -> Option<Seq<char>> {
    match ev {
        ProtocolEvent::Stage { stage, message } => if message@.len() > 0 {
            Some("["@ + stage@ + "] "@ + message@)
        } else {
            None
        },
        ProtocolEvent::Progress { .. } => None,
        ProtocolEvent::Log { message } => match message {
            Some(m) => Some(m@),
            None => None,
        },
        ProtocolEvent::Warning { code, message } => Some("[warning:"@ + code@ + "] "@ + message@),
        ProtocolEvent::Error { code, message } => Some("[error:"@ + code@ + "] "@ + message@),
        ProtocolEvent::Result { path } => match path {
            Some(p) => Some("[result] "@ + p@),
            None => None,
        },
        ProtocolEvent::Metric { name, value } => Some("[metric] "@ + name@ + "="@ + value@),
        ProtocolEvent::Other { text } => Some("[event] "@ + text@),
    }
}

/// The task-log line an event adds.
pub fn event_log_line(ev: &ProtocolEvent) -> (r: Option<String>)
    ensures
        match (r, event_log_text(*ev)) {
            (Some(a), Some(b)) => a@ == b,
            (None, None) => true,
            _ => false,
        },
{
    match ev {
        ProtocolEvent::Stage { stage, message } => {
            if message.as_str().is_empty() {
                None
            } else {
                Some("[".to_owned().concat(stage.as_str()).concat("] ").concat(message.as_str()))
            }
        },
        ProtocolEvent::Progress { .. } => None,
        ProtocolEvent::Log { message } => match message {
            Some(m) => Some(m.clone()),
            None => None,
        },
        ProtocolEvent::Warning { code, message } => Some(warning_log_line(code.as_str(), message.as_str())),
        ProtocolEvent::Error { code, message } => Some(error_log_line(code.as_str(), message.as_str())),
        ProtocolEvent::Result { path } => match path {
            Some(p) => Some("[result] ".to_owned().concat(p.as_str())),
            None => None,
        },
        ProtocolEvent::Metric { name, value } => Some(
            "[metric] ".to_owned().concat(name.as_str()).concat("=").concat(value.as_str()),
        ),
        ProtocolEvent::Other { text } => Some("[event] ".to_owned().concat(text.as_str())),
    }
}

/// The task after an event: a stage event with a stage name moves the
/// shown stage; an error event records its message as the task error
/// (see `apply_error_event`); other events leave the task record alone.
pub fn apply_event_state(t: TaskState, ev: &ProtocolEvent) -> (r: TaskState)
    ensures
        match ev {
            ProtocolEvent::Stage { stage, .. } => if stage@.len() > 0 {
                r.status == t.status && r.stage@ == display_stage_spec(stage@) && r.error == t.error
                    && r.cancel_requested == t.cancel_requested && r.finished == t.finished
            } else {
                r == t
            },
            ProtocolEvent::Error { code, message } => {
                &&& r.status == t.status && r.stage == t.stage
                &&& r.cancel_requested == t.cancel_requested && r.finished == t.finished
                &&& (code@ != "CANCELLED"@ && match t.error {
                    None => true,
                    Some(x) => x@.len() == 0,
                }) ==> (r.error matches Some(x) && x@ == message@)
                &&& !(code@ != "CANCELLED"@ && match t.error {
                    None => true,
                    Some(x) => x@.len() == 0,
                }) ==> r.error == t.error
            },
            _ => r == t,
        },
{
    match ev {
        ProtocolEvent::Stage { stage, .. } => {
            if stage.as_str().is_empty() {
                t
            } else {
                TaskState {
                    status: t.status,
                    stage: display_stage(stage.as_str()),
                    error: t.error,
                    cancel_requested: t.cancel_requested,
                    finished: t.finished,
                }
            }
        },
        ProtocolEvent::Error { code, message } => apply_error_event(t, code.as_str(), message.as_str()),
        _ => t,
    }
}

/// The output path a `result` event reports, if any.
pub fn event_result_path(ev: &ProtocolEvent) -> (r: Option<String>)
    ensures
        match ev {
            ProtocolEvent::Result { path } => r == *path,
            _ => r is None,
        },
{
    match ev {
        ProtocolEvent::Result { path } => path.clone(),
        _ => None,
    }
}

/// What to do with one line read from the processor's stdout.
pub enum LineAction {
    /// Blank: nothing.
    Skip,
    /// Too long to parse: log this note (the bytes are in the raw sidecar).
    Truncated(String),
    /// Parse this (trimmed) text as an event.
    Parse(String),
}

/// How a stdout line is handled: decoded (lossily) and trimmed; blank
/// lines are skipped and truncated ones only noted.
pub fn protocol_line_action(bytes: &[u8], truncated: bool) -> (r: LineAction)
    ensures
        ({
            let line = crate::text::trim(crate::util::utf8_lossy(bytes@));
            if line.len() == 0 {
                r is Skip
            } else if truncated {
                r matches LineAction::Truncated(m) && m@
                    == "[processor:raw] protocol line exceeded 65536 bytes; see stdout diagnostics"@
            } else {
                r matches LineAction::Parse(l) && l@ == line
            }
        }),
{
    let text = crate::util::decode_lossy(bytes);
    let line = crate::text::trim_str(text.as_str());
    if line.as_str().is_empty() {
        LineAction::Skip
    } else if truncated {
        LineAction::Truncated(
            "[processor:raw] protocol line exceeded 65536 bytes; see stdout diagnostics".to_owned(),
        )
    } else {
        LineAction::Parse(line)
    }
}

/// The log line of a stdout line that is not a protocol event.
pub fn raw_line_log(line: &str) -> (r: String)
    ensures
        r@ == "[processor:raw] "@ + line@,
{
    "[processor:raw] ".to_owned().concat(line)
}

/// A task found cancel-requested when the scheduler claims it ends
/// cancelled without running.
pub fn claim_cancelled(t: TaskState) -> (r: TaskState)
    ensures
        r.status == TaskStatus::Cancelled,
        r.stage@ == "cancelled"@,
        r.finished,
        r.error == t.error,
        r.cancel_requested == t.cancel_requested,
{
    TaskState {
        status: TaskStatus::Cancelled,
        stage: "cancelled".to_owned(),
        error: t.error,
        cancel_requested: t.cancel_requested,
        finished: true,
    }
}

/// A task whose output could not be registered as an artifact still
/// succeeded: its files are kept and the error says so.
pub fn register_failed(t: TaskState, e: &str) -> (r: TaskState)
    ensures
        r.status == TaskStatus::Succeeded,
        r.error matches Some(x) && x@ == "处理已完成，成果登记失败: "@ + e@,
        r.stage == t.stage,
        r.cancel_requested == t.cancel_requested,
        r.finished == t.finished,
{
    TaskState {
        status: TaskStatus::Succeeded,
        stage: t.stage,
        error: Some("处理已完成，成果登记失败: ".to_owned().concat(e)),
        cancel_requested: t.cancel_requested,
        finished: t.finished,
    }
}

/// The task after its processor started (unless the desktop is stopping).
pub fn mark_running(t: TaskState, stopping: bool) -> (r: TaskState)
    ensures
        stopping ==> r == t,
        !stopping ==> r.status == TaskStatus::Running && r.stage@ == "scan"@ && r.error == t.error
            && r.cancel_requested == t.cancel_requested && r.finished == t.finished,
{
    if stopping {
        t
    } else {
        TaskState {
            status: TaskStatus::Running,
            stage: "scan".to_owned(),
            error: t.error,
            cancel_requested: t.cancel_requested,
            finished: t.finished,
        }
    }
}

/// Seconds a cancelled processor is given to stop by itself before it is
/// killed.
pub const CANCEL_GRACE_SECS: u64 = 10;

/// The grace period: the `GEOFORGE_CANCEL_GRACE_SECS` value when it parses
/// as an unsigned integer, else the default.
pub fn cancel_grace_secs(var: Option<&str>) -> (r: u64)
    ensures
        r == match var {
            Some(v) => match crate::numbers::parse_uint_upto(v@, u64::MAX as int) {
                Some(n) => n,
                None => CANCEL_GRACE_SECS as int,
            },
            None => CANCEL_GRACE_SECS as int,
        },
{
    match var {
        Some(v) => match crate::numbers::parse_u64(v) {
            Some(n) => n,
            None => CANCEL_GRACE_SECS,
        },
        None => CANCEL_GRACE_SECS,
    }
}

/// What the cancel watcher does at one look at the processor.
#[derive(Debug, Clone, Copy, PartialEq, Eq, Structural)]
pub enum CancelWatch {
    /// The output was committed or the child is gone: stop watching and
    /// leave it alone.
    Stop,
    /// Still within the grace period: look again later.
    Wait,
    /// The grace period is over: kill the processor.
    ForceKill,
}

/// One look of the cancel watcher: a committed output is never killed, a
/// child that already ended needs nothing, and only after the grace period
/// is the processor killed.
pub fn cancel_watch_step(committed: bool, child_gone: bool, past_deadline: bool) -> (r: CancelWatch)
    ensures
        committed ==> r == CancelWatch::Stop,
        !committed && child_gone && !past_deadline ==> r == CancelWatch::Stop,
        !committed && !child_gone && !past_deadline ==> r == CancelWatch::Wait,
        !committed && past_deadline ==> r == CancelWatch::ForceKill,
{
    if committed {
        CancelWatch::Stop
    } else if past_deadline {
        CancelWatch::ForceKill
    } else if child_gone {
        CancelWatch::Stop
    } else {
        CancelWatch::Wait
    }
}

/// The progress fields an `error` event sets on its task: the code, the
/// message and the stage the task was in.
pub fn error_progress_fields(code: &str, message: &str, current_stage: &str) -> (r: Vec<(String, String)>)
    ensures
        r@.len() == 3,
        r@[0].0@ == "errorCode"@ && r@[0].1@ == code@,
        r@[1].0@ == "errorMessage"@ && r@[1].1@ == message@,
        r@[2].0@ == "failedStage"@ && r@[2].1@ == current_stage@,
{
    let mut v: Vec<(String, String)> = Vec::new();
    v.push(("errorCode".to_owned(), code.to_owned()));
    v.push(("errorMessage".to_owned(), message.to_owned()));
    v.push(("failedStage".to_owned(), current_stage.to_owned()));
    v
}

/// A progress field named `name`, when the event holds it.
pub open spec fn present_field(name: Seq<char>, v: Option<String>) -> Seq<(Seq<char>, Seq<char>)> {
    match v {
        Some(x) => seq![(name, x@)],
        None => Seq::empty(),
    }
}

/// The progress fields as plain text pairs.
pub open spec fn field_views(f: Seq<(String, String)>) -> Seq<(Seq<char>, Seq<char>)> {
    f.map_values(|p: (String, String)| (p.0@, p.1@))
}

/// The progress fields a `progress` event sets: `completed`, `total` and
/// `stage`, each only when the event holds it, with its value unchanged.
pub fn progress_event_fields(ev: &ProtocolEvent) -> (r: Vec<(String, String)>)
    ensures
        match ev {
            ProtocolEvent::Progress { completed, total, stage } => field_views(r@) == present_field(
                "completed"@,
                *completed,
            ) + present_field("total"@, *total) + present_field("stage"@, *stage),
            _ => r@.len() == 0,
        },
{
    let mut v: Vec<(String, String)> = Vec::new();
    match ev {
        ProtocolEvent::Progress { completed, total, stage } => {
            if let Some(c) = completed {
                v.push(("completed".to_owned(), c.clone()));
            }
            let ghost a = v@;
            if let Some(x) = total {
                v.push(("total".to_owned(), x.clone()));
            }
            let ghost b = v@;
            if let Some(x) = stage {
                v.push(("stage".to_owned(), x.clone()));
            }
            proof {
                assert(field_views(a) =~= present_field("completed"@, *completed));
                assert(field_views(b) =~= field_views(a) + present_field("total"@, *total));
                assert(field_views(v@) =~= field_views(b) + present_field("stage"@, *stage));
            }
        },
        _ => {},
    }
    v
}

/// The progress fields a `stage` event sets: the stage as reported, and
/// the message when it is not empty.
pub fn stage_progress_fields(stage: &str, message: &str) -> (r: Vec<(String, String)>)
    ensures
        r@.len() == if message@.len() > 0 {
            2int
        } else {
            1int
        },
        r@[0].0@ == "stage"@ && r@[0].1@ == stage@,
        message@.len() > 0 ==> r@[1].0@ == "message"@ && r@[1].1@ == message@,
{
    let mut v: Vec<(String, String)> = Vec::new();
    v.push(("stage".to_owned(), stage.to_owned()));
    if chars_of(message).len() > 0 {
        v.push(("message".to_owned(), message.to_owned()));
    }
    v
}

} // verus!
