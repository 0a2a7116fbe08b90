//! Stable validation codes, issues and the report that collects them. A
//! report is never `ok` once an error was recorded, and its counters always
//! match the issues it holds.

use vstd::prelude::*;

verus! {

/// Stable error codes of tileset validation.
#[derive(Debug, Clone, Copy, PartialEq, Eq, Structural)]
pub enum ValidationCode {
    TilesetMissing,
    TilesetJsonInvalid,
    AssetMissing,
    RootMissing,
    GeometricErrorInvalid,
    RefineInvalid,
    BoundingVolumeMissing,
    BoundingVolumeInvalid,
    TransformInvalid,
    ContentUriMissing,
    ContentUriInvalid,
    ContentUriEscape,
    ContentMissing,
    ContentInvalid,
    ContentTooSmall,
    ExternalTilesetInvalid,
    CycleDetected,
    GeometricErrorMonotonicity,
}

/// The wire name of each code.
pub open spec fn code_text(c: ValidationCode) -> Seq<char> {
    match c {
        ValidationCode::TilesetMissing => "TILESET_MISSING"@,
        ValidationCode::TilesetJsonInvalid => "TILESET_JSON_INVALID"@,
        ValidationCode::AssetMissing => "ASSET_MISSING"@,
        ValidationCode::RootMissing => "ROOT_MISSING"@,
        ValidationCode::GeometricErrorInvalid => "GEOMETRIC_ERROR_INVALID"@,
        ValidationCode::RefineInvalid => "REFINE_INVALID"@,
        ValidationCode::BoundingVolumeMissing => "BOUNDING_VOLUME_MISSING"@,
        ValidationCode::BoundingVolumeInvalid => "BOUNDING_VOLUME_INVALID"@,
        ValidationCode::TransformInvalid => "TRANSFORM_INVALID"@,
        ValidationCode::ContentUriMissing => "CONTENT_URI_MISSING"@,
        ValidationCode::ContentUriInvalid => "CONTENT_URI_INVALID"@,
        ValidationCode::ContentUriEscape => "CONTENT_URI_ESCAPE"@,
        ValidationCode::ContentMissing => "CONTENT_MISSING"@,
        ValidationCode::ContentInvalid => "CONTENT_INVALID"@,
        ValidationCode::ContentTooSmall => "CONTENT_TOO_SMALL"@,
        ValidationCode::ExternalTilesetInvalid => "EXTERNAL_TILESET_INVALID"@,
        ValidationCode::CycleDetected => "CYCLE_DETECTED"@,
        ValidationCode::GeometricErrorMonotonicity => "GEOMETRIC_ERROR_MONOTONICITY"@,
    }
}

impl ValidationCode {
    /// The stable wire name of the code.
    pub fn as_str(self) -> (r: &'static str)
        ensures
            r@ == code_text(self),
    {
        match self {
            ValidationCode::TilesetMissing => "TILESET_MISSING",
            ValidationCode::TilesetJsonInvalid => "TILESET_JSON_INVALID",
            ValidationCode::AssetMissing => "ASSET_MISSING",
            ValidationCode::RootMissing => "ROOT_MISSING",
            ValidationCode::GeometricErrorInvalid => "GEOMETRIC_ERROR_INVALID",
            ValidationCode::RefineInvalid => "REFINE_INVALID",
            ValidationCode::BoundingVolumeMissing => "BOUNDING_VOLUME_MISSING",
            ValidationCode::BoundingVolumeInvalid => "BOUNDING_VOLUME_INVALID",
            ValidationCode::TransformInvalid => "TRANSFORM_INVALID",
            ValidationCode::ContentUriMissing => "CONTENT_URI_MISSING",
            ValidationCode::ContentUriInvalid => "CONTENT_URI_INVALID",
            ValidationCode::ContentUriEscape => "CONTENT_URI_ESCAPE",
            ValidationCode::ContentMissing => "CONTENT_MISSING",
            ValidationCode::ContentInvalid => "CONTENT_INVALID",
            ValidationCode::ContentTooSmall => "CONTENT_TOO_SMALL",
            ValidationCode::ExternalTilesetInvalid => "EXTERNAL_TILESET_INVALID",
            ValidationCode::CycleDetected => "CYCLE_DETECTED",
            ValidationCode::GeometricErrorMonotonicity => "GEOMETRIC_ERROR_MONOTONICITY",
        }
    }

    /// The code as displayed: its wire name.
    pub fn to_string(self) -> (r: String)
        ensures
            r@ == code_text(self),
    {
        self.as_str().to_owned()
    }
}

/// One finding, with its code, the path it concerns, a message and its
/// severity (`"error"` or `"warning"`).
#[derive(Debug, Clone)]
pub struct ValidationIssue {
    pub code: String,
    pub path: String,
    pub message: String,
    pub severity: String,
}

pub open spec fn is_error_issue(i: ValidationIssue) -> bool {
    i.severity@ == "error"@
}

pub open spec fn is_warning_issue(i: ValidationIssue) -> bool {
    i.severity@ == "warning"@
}

impl ValidationIssue {
    /// An error finding.
    pub fn error(code: ValidationCode, path: &str, message: &str) -> (r: Self)
        ensures
            r.code@ == code_text(code),
            r.path@ == path@,
            r.message@ == message@,
            r.severity@ == "error"@,
    {
        ValidationIssue {
            code: code.as_str().to_owned(),
            path: path.to_owned(),
            message: message.to_owned(),
            severity: "error".to_owned(),
        }
    }

    /// A warning finding.
    pub fn warning(code: ValidationCode, path: &str, message: &str) -> (r: Self)
        ensures
            r.code@ == code_text(code),
            r.path@ == path@,
            r.message@ == message@,
            r.severity@ == "warning"@,
    {
        ValidationIssue {
            code: code.as_str().to_owned(),
            path: path.to_owned(),
            message: message.to_owned(),
            severity: "warning".to_owned(),
        }
    }
}

/// Number of error findings in `s`.
pub open spec fn error_total(s: Seq<ValidationIssue>) -> nat
    decreases s.len(),
{
    if s.len() == 0 {
        0
    } else {
        error_total(s.drop_last()) + if is_error_issue(s.last()) {
            1nat
        } else {
            0nat
        }
    }
}

/// Number of warning findings in `s`.
pub open spec fn warning_total(s: Seq<ValidationIssue>) -> nat
    decreases s.len(),
{
    if s.len() == 0 {
        0
    } else {
        warning_total(s.drop_last()) + if is_warning_issue(s.last()) {
            1nat
        } else {
            0nat
        }
    }
}

proof fn lemma_totals_bounded(s: Seq<ValidationIssue>)
    ensures
        error_total(s) <= s.len(),
        warning_total(s) <= s.len(),
    decreases s.len(),
{
    if s.len() > 0 {
        lemma_totals_bounded(s.drop_last());
    }
}

/// The outcome of validating one tileset tree.
#[derive(Debug, Clone)]
pub struct ValidationReport {
    pub ok: bool,
    pub layer: String,
    pub root: String,
    pub tileset_count: u64,
    pub content_count: u64,
    pub external_tileset_count: u64,
    pub error_count: u64,
    pub warning_count: u64,
    pub issues: Vec<ValidationIssue>,
}

impl ValidationReport {
    /// The report agrees with its findings: every finding is an error or a
    /// warning, the counters count them (so together they count every
    /// finding), and it is `ok` exactly when none is an error.
    pub open spec fn wf(&self) -> bool {
        &&& forall|i: int|
            0 <= i < self.issues@.len() ==> is_error_issue(#[trigger] self.issues@[i])
                || is_warning_issue(self.issues@[i])
        &&& self.error_count == error_total(self.issues@)
        &&& self.warning_count == warning_total(self.issues@)
        &&& self.issues@.len() == self.error_count + self.warning_count
        &&& self.ok == (self.error_count == 0)
    }

    /// An empty, passing report of layer `"A"` for `root`.
    pub fn new(root: &str) -> (r: Self)
        ensures
            r.wf(),
            r.ok,
            r.layer@ == "A"@,
            r.root@ == root@,
            r.issues@.len() == 0,
            r.tileset_count == 0 && r.content_count == 0 && r.external_tileset_count == 0,
            r.error_count == 0 && r.warning_count == 0,
    {
        ValidationReport {
            ok: true,
            layer: "A".to_owned(),
            root: root.to_owned(),
            tileset_count: 0,
            content_count: 0,
            external_tileset_count: 0,
            error_count: 0,
            warning_count: 0,
            issues: Vec::new(),
        }
    }

    /// Record an error: the report fails from now on.
    pub fn add_error(&mut self, code: ValidationCode, path: &str, message: &str)
        requires
            old(self).wf() || old(self).error_count < u64::MAX,
        ensures
            old(self).wf() ==> final(self).wf(),
            !final(self).ok,
            final(self).issues@.len() == old(self).issues@.len() + 1,
            final(self).issues@.drop_last() == old(self).issues@,
            final(self).issues@.last().code@ == code_text(code),
            final(self).issues@.last().path@ == path@,
            final(self).issues@.last().message@ == message@,
            is_error_issue(final(self).issues@.last()),
            final(self).error_count == old(self).error_count + 1,
            final(self).warning_count == old(self).warning_count,
            final(self).layer == old(self).layer && final(self).root == old(self).root,
            final(self).tileset_count == old(self).tileset_count,
            final(self).content_count == old(self).content_count,
            final(self).external_tileset_count == old(self).external_tileset_count,
    {
        let issue = ValidationIssue::error(code, path, message);
        self.issues.push(issue);
        proof {
            reveal_strlit("error");
            reveal_strlit("warning");
            assert(self.issues@.drop_last() =~= old(self).issues@);
            lemma_totals_bounded(self.issues@);
            assert("error"@.len() != "warning"@.len());
            assert(!is_warning_issue(self.issues@.last()));
        }
        let n = self.issues.len();
        assert(n as int <= u64::MAX);
        self.error_count = self.error_count + 1;
        self.ok = false;
    }

    /// Record a warning: whether the report passes is unchanged.
    pub fn add_warning(&mut self, code: ValidationCode, path: &str, message: &str)
        requires
            old(self).wf() || old(self).warning_count < u64::MAX,
        ensures
            old(self).wf() ==> final(self).wf(),
            final(self).ok == old(self).ok,
            final(self).issues@.len() == old(self).issues@.len() + 1,
            final(self).issues@.drop_last() == old(self).issues@,
            final(self).issues@.last().code@ == code_text(code),
            final(self).issues@.last().path@ == path@,
            final(self).issues@.last().message@ == message@,
            is_warning_issue(final(self).issues@.last()),
            final(self).warning_count == old(self).warning_count + 1,
            final(self).error_count == old(self).error_count,
            final(self).layer == old(self).layer && final(self).root == old(self).root,
            final(self).tileset_count == old(self).tileset_count,
            final(self).content_count == old(self).content_count,
            final(self).external_tileset_count == old(self).external_tileset_count,
    {
        let issue = ValidationIssue::warning(code, path, message);
        self.issues.push(issue);
        proof {
            reveal_strlit("error");
            reveal_strlit("warning");
            assert(self.issues@.drop_last() =~= old(self).issues@);
            lemma_totals_bounded(self.issues@);
            assert("error"@.len() != "warning"@.len());
            assert(!is_error_issue(self.issues@.last()));
        }
        let n = self.issues.len();
        assert(n as int <= u64::MAX);
        self.warning_count = self.warning_count + 1;
    }
}

/// A report is `ok` exactly when none of its findings is an error; once an
/// error is recorded, no later finding makes it pass again.
pub proof fn lemma_report_ok_iff_no_errors(r: ValidationReport)
    requires
        r.wf(),
    ensures
        r.ok <==> forall|i: int| 0 <= i < r.issues@.len() ==> !is_error_issue(#[trigger] r.issues@[i]),
{
    lemma_no_errors_iff_zero(r.issues@);
}

proof fn lemma_no_errors_iff_zero(s: Seq<ValidationIssue>)
    ensures
        (error_total(s) == 0) <==> forall|i: int| 0 <= i < s.len() ==> !is_error_issue(#[trigger] s[i]),
    decreases s.len(),
{
    if s.len() > 0 {
        let t = s.drop_last();
        lemma_no_errors_iff_zero(t);
        if error_total(s) == 0 {
            assert forall|i: int| 0 <= i < s.len() implies !is_error_issue(#[trigger] s[i]) by {
                if i < s.len() - 1 {
                    assert(s[i] == t[i]);
                }
            }
        } else {
            if is_error_issue(s.last()) {
                assert(is_error_issue(s[s.len() - 1]));
            } else {
                let j = choose|j: int| 0 <= j < t.len() && #[trigger] is_error_issue(t[j]);
                assert(s[j] == t[j]);
            }
        }
    }
}

} // verus!
