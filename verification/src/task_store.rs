//! Task bookkeeping rules of the desktop task store: status transitions
//! (cancel requests, interruption on restart), composing the stored log
//! text, and bounding it without splitting a character.

use crate::text::{chars_of, ends_with};
use vstd::prelude::*;
use vstd::string::StringExecFns;
use vstd::utf8::{encode_utf8, is_char_boundary, is_continuation_byte, valid_utf8};

verus! {

broadcast use vstd::utf8::group_utf8_lib;

/// Largest stored log text, in bytes.
pub const MAX_LOG_TEXT_BYTES: usize = 200000;

/// Life-cycle status of a task.
#[derive(Clone, Debug, PartialEq, Eq)]
pub enum TaskStatus {
    Queued,
    Running,
    Cancelling,
    Cancelled,
    Succeeded,
    Failed,
    Interrupted,
    /// A status written by another component and kept verbatim.
    Other(String),
}

impl TaskStatus {
    /// Is the task finished (no further progress expected)?
    pub open spec fn is_terminal(self) -> bool {
        match self {
            TaskStatus::Cancelled | TaskStatus::Succeeded | TaskStatus::Failed
            | TaskStatus::Interrupted => true,
            _ => false,
        }
    }
}

/// The parts of a task record that the status rules read and write.
pub struct TaskState {
    pub status: TaskStatus,
    pub stage: String,
    pub error: Option<String>,
    pub cancel_requested: bool,
    /// A finish time has been recorded.
    pub finished: bool,
}

/// The state after a cancel request: a queued task is cancelled at once, a
/// running one is asked to stop; any other state is left as it is.
pub open spec fn request_cancel_spec(t: TaskState) -> TaskState {
    match t.status {
        TaskStatus::Queued => TaskState {
            status: TaskStatus::Cancelled,
            stage: t.stage,
            error: t.error,
            cancel_requested: true,
            finished: true,
        },
        TaskStatus::Running => TaskState {
            status: TaskStatus::Cancelling,
            stage: t.stage,
            error: t.error,
            cancel_requested: true,
            finished: t.finished,
        },
        _ => t,
    }
}

/// Apply a cancel request to a task.
pub fn request_cancel(t: TaskState) -> (r: TaskState)
    ensures
        r.status == request_cancel_spec(t).status,
        r.stage@ == (match t.status {
            TaskStatus::Queued => "cancelled"@,
            _ => t.stage@,
        }),
        r.error == t.error,
        r.cancel_requested == request_cancel_spec(t).cancel_requested,
        r.finished == request_cancel_spec(t).finished,
{
    match t.status {
        TaskStatus::Queued => TaskState {
            status: TaskStatus::Cancelled,
            stage: "cancelled".to_owned(),
            error: t.error,
            cancel_requested: true,
            finished: true,
        },
        TaskStatus::Running => TaskState {
            status: TaskStatus::Cancelling,
            stage: t.stage,
            error: t.error,
            cancel_requested: true,
            finished: t.finished,
        },
        _ => t,
    }
}

/// After a restart, tasks that were queued, running or cancelling are
/// marked interrupted; an empty stage becomes "interrupted".
pub fn mark_stale_interrupted(t: TaskState) -> (r: TaskState)
    ensures
        (t.status == TaskStatus::Queued || t.status == TaskStatus::Running || t.status
            == TaskStatus::Cancelling) ==> {
            &&& r.status == TaskStatus::Interrupted
            &&& r.stage@ == if t.stage@.len() == 0 {
                "interrupted"@
            } else {
                t.stage@
            }
            &&& r.error == t.error
            &&& r.cancel_requested == t.cancel_requested
            &&& r.finished == t.finished
        },
        !(t.status == TaskStatus::Queued || t.status == TaskStatus::Running || t.status
            == TaskStatus::Cancelling) ==> r == t,
{
    let stale = match t.status {
        TaskStatus::Queued | TaskStatus::Running | TaskStatus::Cancelling => true,
        _ => false,
    };
    if stale {
        let stage = if t.stage.as_str().is_empty() {
            "interrupted".to_owned()
        } else {
            t.stage
        };
        TaskState {
            status: TaskStatus::Interrupted,
            stage,
            error: t.error,
            cancel_requested: t.cancel_requested,
            finished: t.finished,
        }
    } else {
        t
    }
}

/// A second cancel request changes nothing more than the first did.
pub proof fn lemma_request_cancel_idempotent(t: TaskState)
    ensures
        request_cancel_spec(request_cancel_spec(t)).status == request_cancel_spec(t).status,
        request_cancel_spec(request_cancel_spec(t)).cancel_requested
            == request_cancel_spec(t).cancel_requested,
{
}

/// A cancel request never reopens or rewrites a finished task.
pub proof fn lemma_request_cancel_keeps_terminal(t: TaskState)
    requires
        t.status.is_terminal(),
    ensures
        request_cancel_spec(t) == t,
{
}

/// The first index at or after `k` that does not hold a UTF-8 continuation
/// byte (or the length).
pub open spec fn next_boundary(b: Seq<u8>, k: int) -> int
    decreases b.len() - k,
{
    if k >= b.len() {
        b.len() as int
    } else if !is_continuation_byte(b[k]) {
        k
    } else {
        next_boundary(b, k + 1)
    }
}

/// Where the kept tail of `b` starts when at most `max` bytes are kept.
pub open spec fn utf8_tail_start(b: Seq<u8>, max: int) -> int {
    if b.len() <= max {
        0
    } else {
        next_boundary(b, b.len() - max)
    }
}

proof fn lemma_next_boundary_range(b: Seq<u8>, k: int)
    requires
        0 <= k <= b.len(),
    ensures
        k <= next_boundary(b, k) <= b.len(),
        next_boundary(b, k) < b.len() ==> !is_continuation_byte(b[next_boundary(b, k)]),
        forall|j: int| k <= j < next_boundary(b, k) ==> is_continuation_byte(b[j]),
    decreases b.len() - k,
{
    if k < b.len() && is_continuation_byte(b[k]) {
        lemma_next_boundary_range(b, k + 1);
    }
}

/// The last at most `max_bytes` bytes of `value`, starting at a character
/// boundary.
pub fn truncate_utf8_tail(value: &str, max_bytes: usize) -> (r: String)
    ensures
        encode_utf8(r@) == encode_utf8(value@).subrange(
            utf8_tail_start(encode_utf8(value@), max_bytes as int),
            encode_utf8(value@).len() as int,
        ),
        encode_utf8(r@).len() <= max_bytes || encode_utf8(value@).len() <= max_bytes,
{
    let bytes = value.as_bytes();
    let ghost b = encode_utf8(value@);
    assert(bytes@ == b);
    if bytes.len() <= max_bytes {
        assert(b.subrange(0, b.len() as int) =~= b);
        return value.to_owned();
    }
    let mut start = bytes.len() - max_bytes;
    proof {
        lemma_next_boundary_range(b, start as int);
    }
    while start < bytes.len() && !value.is_char_boundary(start)
        invariant
            encode_utf8(value@) == b,
            bytes@ == b,
            valid_utf8(b),
            b.len() - max_bytes <= start <= b.len(),
            next_boundary(b, start as int) == next_boundary(b, b.len() - max_bytes),
        decreases b.len() - start,
    {
        start += 1;
    }
    proof {
        if start < b.len() {
            assert(!is_continuation_byte(b[start as int]));
        }
        is_char_boundary_start_end_of_seq_ok(b);
    }
    let (_, tail) = value.split_at(start);
    tail.to_owned()
}

proof fn is_char_boundary_start_end_of_seq_ok(b: Seq<u8>)
    requires
        valid_utf8(b),
    ensures
        is_char_boundary(b, b.len() as int),
{
    vstd::utf8::is_char_boundary_start_end_of_seq(b);
}

/// How many leading bytes of a byte window are UTF-8 continuation bytes
/// (dropped so the window starts at a character).
pub fn leading_continuation_bytes(bytes: &[u8]) -> (n: usize)
    ensures
        n as int == next_boundary(bytes@, 0),
{
    let mut i: usize = 0;
    while i < bytes.len() && bytes[i] >= 0x80 && bytes[i] <= 0xbf
        invariant
            i <= bytes@.len(),
            next_boundary(bytes@, i as int) == next_boundary(bytes@, 0),
        decreases bytes.len() - i,
    {
        i += 1;
    }
    i
}

/// The line as written to the task's log file: with a newline at its end.
pub open spec fn log_entry_spec(line: Seq<char>) -> Seq<char> {
    if ends_with(line, "\n"@) {
        line
    } else {
        line + "\n"@
    }
}

/// The stored log text after appending `line`: a newline first when the
/// text does not end with one, then the entry without its trailing
/// newlines.
pub open spec fn appended_log_spec(log: Seq<char>, line: Seq<char>) -> Seq<char> {
    let sep = if log.len() > 0 && !ends_with(log, "\n"@) {
        "\n"@
    } else {
        Seq::<char>::empty()
    };
    log + sep + crate::desktop::trim_end_char(log_entry_spec(line), '\n')
}

/// The log file entry of a line.
pub fn log_entry(line: &str) -> (r: String)
    ensures
        r@ == log_entry_spec(line@),
{
    proof {
        reveal_strlit("\n");
    }
    if crate::text::chars_end_with(&chars_of(line), &chars_of("\n")) {
        line.to_owned()
    } else {
        crate::text::concat2(line, "\n")
    }
}

/// The stored log text after appending a line, bounded to its last
/// `MAX_LOG_TEXT_BYTES` bytes (starting at a character).
pub fn append_log_text(log: &str, line: &str) -> (r: String)
    ensures
        encode_utf8(r@) == encode_utf8(appended_log_spec(log@, line@)).subrange(
            utf8_tail_start(encode_utf8(appended_log_spec(log@, line@)), MAX_LOG_TEXT_BYTES as int),
            encode_utf8(appended_log_spec(log@, line@)).len() as int,
        ),
        encode_utf8(r@).len() <= MAX_LOG_TEXT_BYTES,
{
    proof {
        reveal_strlit("\n");
    }
    let entry = log_entry(line);
    let needs_sep = chars_of(log).len() > 0 && !crate::text::chars_end_with(
        &chars_of(log),
        &chars_of("\n"),
    );
    let head: String = if needs_sep {
        crate::text::concat2(log, "\n")
    } else {
        log.to_owned()
    };
    let body = crate::desktop::trim_end_newlines(entry.as_str());
    let composed = crate::text::concat2(head.as_str(), body.as_str());
    assert(composed@ =~= appended_log_spec(log@, line@));
    truncate_utf8_tail(composed.as_str(), MAX_LOG_TEXT_BYTES)
}

/// `s` without one trailing carriage return.
pub open spec fn strip_cr(s: Seq<char>) -> Seq<char> {
    if s.len() > 0 && s.last() == '\r' {
        s.drop_last()
    } else {
        s
    }
}

/// The lines of a text as `str::lines` yields them: split at `\n`, a `\r`
/// before a `\n` dropped, and no empty last line after a final newline.
pub open spec fn text_lines(t: Seq<char>) -> Seq<Seq<char>> {
    let parts = crate::validation::split_on(t, '\n');
    let body = Seq::new((parts.len() - 1) as nat, |i: int| strip_cr(parts[i]));
    if parts.last().len() == 0 {
        body
    } else {
        body.push(parts.last())
    }
}

/// How many lines a log view shows: 500 when no count is asked, else the
/// count up to 5000.
pub open spec fn view_line_cap(tail: int) -> int {
    if tail == 0 {
        500
    } else if tail < 5000 {
        tail
    } else {
        5000
    }
}

/// The lines a log view shows: the last `view_line_cap(tail)` lines.
pub open spec fn view_lines_spec(t: Seq<char>, tail: int) -> Seq<Seq<char>> {
    let ls = text_lines(t);
    if ls.len() > view_line_cap(tail) {
        ls.skip(ls.len() - view_line_cap(tail))
    } else {
        ls
    }
}

fn strip_cr_exec(v: &Vec<char>) -> (r: String)
    ensures
        r@ == strip_cr(v@),
{
    if v.len() > 0 && v[v.len() - 1] == '\r' {
        let p = crate::text::slice_chars(v, 0, v.len() - 1);
        assert(p@ =~= v@.drop_last());
        crate::text::string_of_chars(&p)
    } else {
        crate::text::string_of_chars(v)
    }
}

/// The lines of `text` as `str::lines` yields them.
pub fn lines_of(text: &str) -> (r: Vec<String>)
    ensures
        crate::scan::strs(r@) == text_lines(text@),
{
    let parts = crate::model::split_on_char(&chars_of(text), '\n');
    let ghost ps = crate::model::vviews(parts@);
    assert(ps == crate::validation::split_on(text@, '\n'));
    assert(ps.len() >= 1);
    let n = parts.len();
    let mut out: Vec<String> = Vec::new();
    let mut i: usize = 0;
    while i + 1 < n
        invariant
            n == parts.len(),
            n >= 1,
            ps == crate::model::vviews(parts@),
            i <= n - 1,
            crate::scan::strs(out@) == Seq::new(i as nat, |j: int| strip_cr(ps[j])),
        decreases n - i,
    {
        let ghost before = crate::scan::strs(out@);
        assert(ps[i as int] == parts@[i as int]@);
        let piece = strip_cr_exec(&parts[i]);
        out.push(piece);
        assert(crate::scan::strs(out@) =~= before.push(piece@));
        assert(crate::scan::strs(out@) =~= Seq::new((i + 1) as nat, |j: int| strip_cr(ps[j])));
        i += 1;
    }
    if parts[n - 1].len() > 0 {
        let ghost before = crate::scan::strs(out@);
        out.push(crate::text::string_of_chars(&parts[n - 1]));
        assert(crate::scan::strs(out@) =~= before.push(ps.last()));
    }
    assert(crate::scan::strs(out@) =~= text_lines(text@));
    out
}

/// The lines a log view of `text` shows for a requested count `tail`.
pub fn log_view_lines(text: &str, tail: usize) -> (r: Vec<String>)
    ensures
        crate::scan::strs(r@) == view_lines_spec(text@, tail as int),
{
    let lines = lines_of(text);
    let cap: usize = if tail == 0 {
        500
    } else if tail < 5000 {
        tail
    } else {
        5000
    };
    if lines.len() <= cap {
        return lines;
    }
    let start = lines.len() - cap;
    let mut out: Vec<String> = Vec::new();
    let mut i = start;
    let ghost ls = crate::scan::strs(lines@);
    while i < lines.len()
        invariant
            ls == crate::scan::strs(lines@),
            start <= i <= lines.len(),
            crate::scan::strs(out@) == ls.subrange(start as int, i as int),
        decreases lines.len() - i,
    {
        let ghost before = crate::scan::strs(out@);
        let l = lines[i].clone();
        assert(l@ == ls[i as int]);
        out.push(l);
        assert(crate::scan::strs(out@) =~= before.push(ls[i as int]));
        assert(crate::scan::strs(out@) =~= ls.subrange(start as int, i + 1));
        i += 1;
    }
    assert(ls.subrange(start as int, lines.len() as int) =~= ls.skip(start as int));
    out
}

/// The lines joined with newlines.
pub fn join_with_newlines(v: &Vec<String>) -> (r: String)
    ensures
        r@ == crate::util::join_lines(crate::scan::strs(v@)),
{
    let mut out = String::new();
    let ghost w = crate::scan::strs(v@);
    let mut i: usize = 0;
    while i < v.len()
        invariant
            w == crate::scan::strs(v@),
            i <= v.len(),
            out@ == crate::util::join_lines(w.take(i as int)),
        decreases v.len() - i,
    {
        assert(w.take(i + 1).drop_last() =~= w.take(i as int));
        if i == 0 {
            out = v[0].clone();
        } else {
            out = crate::text::concat3(out.as_str(), "\n", v[i].as_str());
        }
        i += 1;
    }
    assert(w.take(v.len() as int) =~= w);
    out
}

} // verus!
