//! What the validation stage reports of a finished validation report: the
//! error or warning events it forwards (capped), and whether the stage
//! passes, with its log line or its failure message.

use crate::text::{concat2, concat3, dec_chars, dec_string, str_eq};
use crate::validator::ValidationReport;
use crate::validator::ValidationIssue;
use vstd::prelude::*;

verus! {

/// At most this many error findings are forwarded as events.
pub const MAX_ERROR_EVENTS: usize = 32;

/// At most this many warning findings are forwarded as events.
pub const MAX_WARNING_EVENTS: usize = 16;

/// The stage message of the validation stage.
pub fn validate_stage_message() -> (r: &'static str)
    ensures
        r@ == "Layer A recursive tileset validation"@,
{
    "Layer A recursive tileset validation"
}

/// The event a finding is forwarded as: its code, and its message with
/// the path it was found at.
pub open spec fn issue_event(i: ValidationIssue) -> (Seq<char>, Seq<char>) {
    (i.code@, i.message@ + " @ "@ + i.path@)
}

/// The events of the first `cap` findings of severity `sev`, in order.
pub open spec fn forwarded(s: Seq<ValidationIssue>, sev: Seq<char>, cap: nat) -> Seq<
    (Seq<char>, Seq<char>),
>
    decreases s.len(),
{
    if s.len() == 0 || cap == 0 {
        Seq::empty()
    } else if s[0].severity@ == sev {
        seq![issue_event(s[0])] + forwarded(s.skip(1), sev, (cap - 1) as nat)
    } else {
        forwarded(s.skip(1), sev, cap)
    }
}

/// The text pairs of `v`.
pub open spec fn pair_views(v: Seq<(String, String)>) -> Seq<(Seq<char>, Seq<char>)> {
    Seq::new(v.len(), |i: int| (v[i].0@, v[i].1@))
}

/// No more findings are forwarded than the cap allows.
pub proof fn lemma_forwarded_len(s: Seq<ValidationIssue>, sev: Seq<char>, cap: nat)
    ensures
        forwarded(s, sev, cap).len() <= cap,
    decreases s.len(),
{
    if s.len() > 0 && cap > 0 {
        if s[0].severity@ == sev {
            lemma_forwarded_len(s.skip(1), sev, (cap - 1) as nat);
        } else {
            lemma_forwarded_len(s.skip(1), sev, cap);
        }
    }
}

/// The events of the first `cap` findings of severity `sev`.
pub fn forward_issues(issues: &Vec<ValidationIssue>, sev: &str, cap: usize) -> (r: Vec<
    (String, String),
>)
    ensures
        pair_views(r@) == forwarded(issues@, sev@, cap as nat),
{
    let mut out: Vec<(String, String)> = Vec::new();
    let mut i: usize = 0;
    assert(issues@.skip(0) =~= issues@);
    while i < issues.len() && out.len() < cap
        invariant
            i <= issues.len(),
            out.len() <= cap,
            forwarded(issues@, sev@, cap as nat) == pair_views(out@) + forwarded(
                issues@.skip(i as int),
                sev@,
                (cap - out.len()) as nat,
            ),
        decreases issues.len() - i,
    {
        let ghost rest = issues@.skip(i as int);
        let ghost before = pair_views(out@);
        assert(rest[0] == issues@[i as int]);
        assert(rest.skip(1) =~= issues@.skip(i + 1));
        let it = &issues[i];
        if str_eq(it.severity.as_str(), sev) {
            let msg = concat3(it.message.as_str(), " @ ", it.path.as_str());
            out.push((it.code.clone(), msg));
            assert(pair_views(out@) =~= before + seq![issue_event(*it)]);
            assert(before + seq![issue_event(*it)] + forwarded(
                issues@.skip(i + 1),
                sev@,
                (cap - out.len()) as nat,
            ) =~= before + (seq![issue_event(*it)] + forwarded(
                issues@.skip(i + 1),
                sev@,
                (cap - out.len()) as nat,
            )));
        }
        i += 1;
    }
    proof {
        let rest = issues@.skip(i as int);
        if i >= issues.len() {
            assert(rest.len() == 0);
        }
        assert(forwarded(rest, sev@, (cap - out.len()) as nat) =~= Seq::empty());
        assert(pair_views(out@) + Seq::<(Seq<char>, Seq<char>)>::empty() =~= pair_views(out@));
    }
    out
}

/// What the validation stage reports.
#[derive(Debug)]
pub struct StageValidation {
    /// Error events to forward, as (code, text).
    pub errors: Vec<(String, String)>,
    /// Warning events to forward, as (code, text).
    pub warnings: Vec<(String, String)>,
    /// The stage's log line when it passes, or its failure message.
    pub outcome: Result<String, String>,
}

/// The log line of a passing validation.
pub open spec fn pass_log(r: ValidationReport, report_path: Seq<char>) -> Seq<char> {
    "[validate] Layer A OK tilesets="@ + dec_chars(r.tileset_count as nat) + " contents="@
        + dec_chars(r.content_count as nat) + " external="@ + dec_chars(
        r.external_tileset_count as nat,
    ) + " report="@ + report_path
}

/// Judge a validation report. A failing report forwards its first error
/// findings and fails the stage with `summary` (the report's first-error
/// summary, `validation failed` when it has none); a passing one forwards
/// its first warning findings and logs the counts and where the report
/// was written.
pub fn validate_tileset_dir(report: &ValidationReport, summary: Option<&str>, report_path: &str) -> (r:
    StageValidation)
    ensures
        !report.ok ==> {
            &&& pair_views(r.errors@) == forwarded(report.issues@, "error"@, MAX_ERROR_EVENTS as nat)
            &&& r.warnings@.len() == 0
            &&& r.outcome matches Err(e) && e@ == "VALIDATION_FAILED: "@ + match summary {
                Some(s) => s@,
                None => "validation failed"@,
            }
        },
        report.ok ==> {
            &&& r.errors@.len() == 0
            &&& pair_views(r.warnings@) == forwarded(
                report.issues@,
                "warning"@,
                MAX_WARNING_EVENTS as nat,
            )
            &&& r.outcome matches Ok(l) && l@ == pass_log(*report, report_path@)
        },
{
    if !report.ok {
        let errors = forward_issues(&report.issues, "error", MAX_ERROR_EVENTS);
        let s: &str = match summary {
            Some(s) => s,
            None => "validation failed",
        };
        return StageValidation {
            errors,
            warnings: Vec::new(),
            outcome: Err(concat2("VALIDATION_FAILED: ", s)),
        };
    }
    let warnings = forward_issues(&report.issues, "warning", MAX_WARNING_EVENTS);
    let a = concat3(
        "[validate] Layer A OK tilesets=",
        dec_string(report.tileset_count).as_str(),
        " contents=",
    );
    let b = concat3(a.as_str(), dec_string(report.content_count).as_str(), " external=");
    let c = concat3(b.as_str(), dec_string(report.external_tileset_count).as_str(), " report=");
    let line = concat2(c.as_str(), report_path);
    assert(line@ =~= pass_log(*report, report_path@));
    StageValidation { errors: Vec::new(), warnings, outcome: Ok(line) }
}

/// The failure when the validation report could not be written.
pub fn report_write_failure(e: &str) -> (r: String)
    ensures
        r@ == "VALIDATION_FAILED: cannot write validation_internal.json: "@ + e@,
{
    concat2("VALIDATION_FAILED: cannot write validation_internal.json: ", e)
}

} // verus!
