//! Decisions of the task pipeline: the stable error vocabulary shown to
//! users, cancellation checkpoints and the final outcome of a run.

use crate::cancel::CancelFlag;
use crate::protocol::{EXIT_CANCELLED, EXIT_FAILED, EXIT_OK};
use crate::text::{chars_contain, chars_of, contains, lower_chars, lower_seq};
use vstd::prelude::*;

verus! {

/// The stable error code for a (lower-cased) failure message. The message
/// itself is kept for diagnostics; the code is what the UI keys on.
pub open spec fn error_code_spec(lower: Seq<char>) -> Seq<char> {
    if contains(lower, "input does not exist"@) {
        "PATH_INPUT_NOT_FOUND"@
    } else if contains(lower, "output already exists"@) {
        "PATH_OUTPUT_EXISTS"@
    } else if contains(lower, "not writable"@) || contains(lower, "cannot create output parent"@)
        || contains(lower, "cannot write output directory"@) || contains(lower, "access denied"@)
        || contains(lower, "permission denied"@) || contains(lower, "拒绝访问"@) || contains(
        lower,
        "os error 5"@,
    ) {
        "PATH_OUTPUT_NOT_WRITABLE"@
    } else if contains(lower, "must not"@) && contains(lower, "input"@) {
        "PATH_OVERLAP"@
    } else if contains(lower, "invalid convert-model options"@) || contains(lower, "model config"@)
        || contains(lower, "model.format"@) {
        "MODEL_CONFIG_INVALID"@
    } else if contains(lower, "model input must be a file"@) || contains(lower, "only .fbx and .obj"@)
        || contains(lower, "requires an explicit model"@) {
        "MODEL_INPUT_INVALID"@
    } else if contains(lower, "projected model georeference"@) {
        "MODEL_GEOREFERENCE_UNSUPPORTED"@
    } else if contains(lower, "convert exited"@) || contains(lower, "converter"@) {
        "CONVERTER_EXIT_NONZERO"@
    } else if contains(lower, "metadata.xml"@) || contains(lower, "srs"@) {
        "OSGB_METADATA_INVALID"@
    } else if contains(lower, "rebuild"@) {
        "REBUILD_FAILED"@
    } else if contains(lower, "texture"@) {
        "TEXTURE_FAILED"@
    } else if contains(lower, "validate"@) || contains(lower, "tileset"@) {
        "VALIDATE_FAILED"@
    } else if contains(lower, "disk"@) || contains(lower, "space"@) {
        "DISK_FULL"@
    } else {
        "TASK_FAILED"@
    }
}

fn has(lower: &Vec<char>, needle: &str) -> (r: bool)
    ensures
        r == contains(lower@, needle@),
{
    let n = chars_of(needle);
    chars_contain(lower, &n)
}

/// Classify a failure message into the stable error vocabulary. Matching is
/// case-insensitive for ASCII letters.
pub fn error_code_for_message(message: &str) -> (code: &'static str)
    ensures
        code@ == error_code_spec(lower_seq(message@)),
{
    let chars = chars_of(message);
    let lower = lower_chars(&chars);
    if has(&lower, "input does not exist") {
        "PATH_INPUT_NOT_FOUND"
    } else if has(&lower, "output already exists") {
        "PATH_OUTPUT_EXISTS"
    } else if has(&lower, "not writable") || has(&lower, "cannot create output parent") || has(
        &lower,
        "cannot write output directory",
    ) || has(&lower, "access denied") || has(&lower, "permission denied") || has(
        &lower,
        "拒绝访问",
    ) || has(&lower, "os error 5") {
        "PATH_OUTPUT_NOT_WRITABLE"
    } else if has(&lower, "must not") && has(&lower, "input") {
        "PATH_OVERLAP"
    } else if has(&lower, "invalid convert-model options") || has(&lower, "model config") || has(
        &lower,
        "model.format",
    ) {
        "MODEL_CONFIG_INVALID"
    } else if has(&lower, "model input must be a file") || has(&lower, "only .fbx and .obj") || has(
        &lower,
        "requires an explicit model",
    ) {
        "MODEL_INPUT_INVALID"
    } else if has(&lower, "projected model georeference") {
        "MODEL_GEOREFERENCE_UNSUPPORTED"
    } else if has(&lower, "convert exited") || has(&lower, "converter") {
        "CONVERTER_EXIT_NONZERO"
    } else if has(&lower, "metadata.xml") || has(&lower, "srs") {
        "OSGB_METADATA_INVALID"
    } else if has(&lower, "rebuild") {
        "REBUILD_FAILED"
    } else if has(&lower, "texture") {
        "TEXTURE_FAILED"
    } else if has(&lower, "validate") || has(&lower, "tileset") {
        "VALIDATE_FAILED"
    } else if has(&lower, "disk") || has(&lower, "space") {
        "DISK_FULL"
    } else {
        "TASK_FAILED"
    }
}

/// The verdict on one reading of the cancel flag: `Err("cancelled")`
/// exactly when it read as requested.
pub fn cancel_verdict(cancelled: bool) -> (r: Result<(), String>)
    ensures
        r is Err <==> cancelled,
        r matches Err(m) ==> m@ == "cancelled"@,
{
    if cancelled {
        Err("cancelled".to_owned())
    } else {
        Ok(())
    }
}

/// `Err("cancelled")` when the flag reads as requested, `Ok(())` otherwise.
/// Another thread may set the flag at any moment, so which of the two
/// comes back is not stated; the verdict on the reading is `cancel_verdict`.
pub fn check_cancel(cancel: &CancelFlag) -> (r: Result<(), String>)
    ensures
        r matches Err(m) ==> m@ == "cancelled"@,
{
    cancel_verdict(cancel.is_cancelled())
}

/// How a task run ended, as reported on the event stream.
pub enum TaskEnd {
    /// The output was committed at this path.
    Succeeded { path: String },
    /// The run was cancelled before commit.
    Cancelled,
    /// The run failed; `code` is the stable error code.
    Failed { code: &'static str, message: String },
}

impl TaskEnd {
    /// Process exit code of this outcome.
    pub fn exit_code(&self) -> (c: i32)
        ensures
            c == match self {
                TaskEnd::Succeeded { .. } => EXIT_OK,
                TaskEnd::Cancelled => EXIT_CANCELLED,
                TaskEnd::Failed { .. } => EXIT_FAILED,
            },
    {
        match self {
            TaskEnd::Succeeded { .. } => EXIT_OK,
            TaskEnd::Cancelled => EXIT_CANCELLED,
            TaskEnd::Failed { .. } => EXIT_FAILED,
        }
    }
}

/// The outcome of a run from the pipeline's result and a snapshot of the
/// cancel flag taken after the pipeline returned. A committed output is a
/// success whatever the flag says: a late cancel never rewrites it.
pub fn finish_run(result: Result<String, String>, cancelled: bool) -> (end: TaskEnd)
    ensures
        match result {
            Ok(p) => end == (TaskEnd::Succeeded { path: p }),
            Err(m) => if cancelled || m@ == "cancelled"@ {
                end == TaskEnd::Cancelled
            } else {
                &&& end matches TaskEnd::Failed { code, message }
                &&& code@ == error_code_spec(lower_seq(m@))
                &&& message == m
            },
        },
{
    match result {
        Ok(p) => TaskEnd::Succeeded { path: p },
        Err(m) => {
            if cancelled || crate::text::str_eq(m.as_str(), "cancelled") {
                TaskEnd::Cancelled
            } else {
                let code = error_code_for_message(m.as_str());
                TaskEnd::Failed { code, message: m }
            }
        },
    }
}

/// The end of a task run as the processor's exit: its code and, on
/// success, the committed output path.
#[derive(Debug, Clone)]
pub struct RunOutcome {
    pub exit_code: i32,
    pub final_path: Option<String>,
}

/// The exit of a task run from how it ended.
pub fn run_outcome(end: &TaskEnd) -> (r: RunOutcome)
    ensures
        r.exit_code == match end {
            TaskEnd::Succeeded { .. } => EXIT_OK,
            TaskEnd::Cancelled => EXIT_CANCELLED,
            TaskEnd::Failed { .. } => EXIT_FAILED,
        },
        match end {
            TaskEnd::Succeeded { path } => r.final_path == Some(*path),
            _ => r.final_path is None,
        },
{
    match end {
        TaskEnd::Succeeded { path } => RunOutcome { exit_code: EXIT_OK, final_path: Some(path.clone()) },
        TaskEnd::Cancelled => RunOutcome { exit_code: EXIT_CANCELLED, final_path: None },
        TaskEnd::Failed { .. } => RunOutcome { exit_code: EXIT_FAILED, final_path: None },
    }
}

/// The operations a task file can ask for.
#[derive(Debug, Clone, Copy, PartialEq, Eq, Structural)]
pub enum Operation {
    ConvertOsgb,
    ConvertModel,
    ProcessTileset,
}

/// The operation a task names, or the refusal of an unknown one.
pub fn parse_operation(op: &str) -> (r: Result<Operation, String>)
    ensures
        op@ == "convert-osgb"@ ==> r == Ok::<Operation, String>(Operation::ConvertOsgb),
        op@ == "convert-model"@ ==> r == Ok::<Operation, String>(Operation::ConvertModel),
        op@ == "process-tileset"@ ==> r == Ok::<Operation, String>(Operation::ProcessTileset),
        !(op@ == "convert-osgb"@ || op@ == "convert-model"@ || op@ == "process-tileset"@) ==> (r matches Err(
            e,
        ) && e@ == "Unknown operation: "@ + op@),
{
    proof {
        reveal_strlit("convert-osgb");
        reveal_strlit("convert-model");
        reveal_strlit("process-tileset");
        assert("convert-model"@.len() != "convert-osgb"@.len());
        assert("process-tileset"@.len() != "convert-osgb"@.len());
        assert("process-tileset"@.len() != "convert-model"@.len());
    }
    if crate::text::str_eq(op, "convert-osgb") {
        Ok(Operation::ConvertOsgb)
    } else if crate::text::str_eq(op, "convert-model") {
        Ok(Operation::ConvertModel)
    } else if crate::text::str_eq(op, "process-tileset") {
        Ok(Operation::ProcessTileset)
    } else {
        Err(crate::text::concat2("Unknown operation: ", op))
    }
}

/// A process-tileset task must rebuild, re-encode textures, or both.
pub fn process_tileset_wants(want_rebuild: bool, want_texture: bool) -> (r: Result<(), String>)
    ensures
        (want_rebuild || want_texture) ==> r is Ok,
        !(want_rebuild || want_texture) ==> (r matches Err(e) && e@
            == "process-tileset requires rebuildTop.enabled and/or texture.mode != keep"@),
{
    if !want_rebuild && !want_texture {
        Err("process-tileset requires rebuildTop.enabled and/or texture.mode != keep".to_owned())
    } else {
        Ok(())
    }
}

/// The errors joined with `; `.
pub open spec fn join_semicolon(es: Seq<Seq<char>>) -> Seq<char>
    decreases es.len(),
{
    if es.len() == 0 {
        seq![]
    } else if es.len() == 1 {
        es[0]
    } else {
        join_semicolon(es.drop_last()) + "; "@ + es.last()
    }
}

/// Why a convert-osgb task stops after the scan: the scan's errors joined
/// with `; `, when the dataset is not valid.
pub fn scan_failure(valid: bool, errors: &Vec<String>) -> (r: Option<String>)
    ensures
        valid ==> r is None,
        !valid ==> (r matches Some(m) && m@ == join_semicolon(crate::scan::strs(errors@))),
{
    if valid {
        return None;
    }
    let mut out = String::new();
    let mut i: usize = 0;
    let ghost w = crate::scan::strs(errors@);
    while i < errors.len()
        invariant
            w == crate::scan::strs(errors@),
            i <= errors.len(),
            out@ == join_semicolon(w.take(i as int)),
        decreases errors.len() - i,
    {
        assert(w.take(i + 1).drop_last() =~= w.take(i as int));
        assert(w.take(i + 1).last() == errors@[i as int]@);
        if i > 0 {
            out = crate::text::concat2(out.as_str(), "; ");
        }
        out = crate::text::concat2(out.as_str(), errors[i].as_str());
        i += 1;
    }
    assert(w.take(errors.len() as int) =~= w);
    Some(out)
}

/// A model task's input must be a file whose extension matches the
/// declared format (ASCII case-insensitively).
pub fn check_model_input(
    is_file: bool,
    extension: Option<&str>,
    format: crate::protocol::ModelFormat,
    input_display: &str,
) -> (r: Result<(), String>)
    ensures
        !is_file ==> (r matches Err(e) && e@ == "model input must be a file: "@ + input_display@),
        is_file ==> {
            let want = match format {
                crate::protocol::ModelFormat::Fbx => "fbx"@,
                crate::protocol::ModelFormat::Obj => "obj"@,
            };
            let ext = match extension {
                Some(e) => e@,
                None => ""@,
            };
            if lower_seq(ext) == want {
                r is Ok
            } else {
                r matches Err(e) && e@ == "model.format="@ + want + " does not match input file: "@
                    + input_display@
            }
        },
{
    if !is_file {
        return Err(crate::text::concat2("model input must be a file: ", input_display));
    }
    let want = format.extension();
    let ext = match extension {
        Some(e) => lower_chars(&chars_of(e)),
        None => Vec::new(),
    };
    proof {
        reveal_strlit("");
        reveal_strlit("fbx");
        reveal_strlit("obj");
    }
    assert(extension is None ==> ext@ =~= lower_seq(""@));
    if crate::text::chars_equal(&ext, &chars_of(want)) {
        proof {
            assert(lower_seq(want@) =~= want@);
        }
        Ok(())
    } else {
        proof {
            assert(lower_seq(want@) =~= want@);
        }
        Err(crate::text::concat3(
            crate::text::concat2("model.format=", want).as_str(),
            " does not match input file: ",
            input_display,
        ))
    }
}

/// Below this many free bytes in the output's parent a warning is given
/// (unless `GEOFORGE_LOW_DISK_BYTES` sets another threshold).
pub const LOW_DISK_BYTES: u64 = 1073741824;

/// The low-disk warning for the free space found, if it is below the
/// threshold (the variable's value when it parses, else 1 GiB).
pub fn low_disk_warning(free_bytes: u64, threshold_var: Option<&str>) -> (r: Option<String>)
    ensures
        ({
            let t = match threshold_var {
                Some(v) => match crate::numbers::parse_uint_upto(v@, u64::MAX as int) {
                    Some(n) => n,
                    None => LOW_DISK_BYTES as int,
                },
                None => LOW_DISK_BYTES as int,
            };
            if free_bytes < t {
                r matches Some(m) && m@ == "output parent has "@ + crate::text::dec_chars(free_bytes as nat)
                    + " bytes free; conversion may need more space"@
            } else {
                r is None
            }
        }),
{
    let threshold: u64 = match threshold_var {
        Some(v) => match crate::numbers::parse_u64(v) {
            Some(n) => n,
            None => LOW_DISK_BYTES,
        },
        None => LOW_DISK_BYTES,
    };
    if free_bytes < threshold {
        Some(crate::text::concat3(
            "output parent has ",
            crate::text::dec_string(free_bytes).as_str(),
            " bytes free; conversion may need more space",
        ))
    } else {
        None
    }
}

// ---- the order of the stages ----

/// What a stage reports when it has run.
#[derive(Debug)]
pub enum StepReport {
    Done,
    Failed(String),
}

/// The failure a report carries, if any.
pub open spec fn report_failure(r: StepReport) -> Option<Seq<char>> {
    match r {
        StepReport::Done => None,
        StepReport::Failed(m) => Some(m@),
    }
}

/// The stages of an OSGB conversion.
#[derive(Debug, Clone, Copy, PartialEq, Eq, Structural)]
pub enum OsgbStep {
    CheckTexture,
    ValidatePaths,
    PrepareTemp,
    Scan,
    ResolveGeo,
    Convert,
    Rebuild,
    Texture,
    Stage,
    ValidateOutput,
    Commit,
    Done,
}

/// The stage after `step` when it went well.
pub open spec fn osgb_after(step: OsgbStep, rebuild_enabled: bool) -> OsgbStep {
    match step {
        OsgbStep::CheckTexture => OsgbStep::ValidatePaths,
        OsgbStep::ValidatePaths => OsgbStep::PrepareTemp,
        OsgbStep::PrepareTemp => OsgbStep::Scan,
        OsgbStep::Scan => OsgbStep::ResolveGeo,
        OsgbStep::ResolveGeo => OsgbStep::Convert,
        OsgbStep::Convert => if rebuild_enabled {
            OsgbStep::Rebuild
        } else {
            OsgbStep::Texture
        },
        OsgbStep::Rebuild => OsgbStep::Texture,
        OsgbStep::Texture => OsgbStep::Stage,
        OsgbStep::Stage => OsgbStep::ValidateOutput,
        OsgbStep::ValidateOutput => OsgbStep::Commit,
        OsgbStep::Commit => OsgbStep::Done,
        OsgbStep::Done => OsgbStep::Done,
    }
}

/// The stages after which a cancel request stops the conversion.
pub open spec fn osgb_checks_cancel(step: OsgbStep) -> bool {
    step == OsgbStep::Scan || step == OsgbStep::Convert || step == OsgbStep::Rebuild || step
        == OsgbStep::Texture || step == OsgbStep::ValidateOutput
}

/// What comes after a stage of an OSGB conversion: its failure ends the
/// run; after the scan, the conversion, the rebuild, the texture stage and
/// the validation of the output, a cancel request ends it as `cancelled`;
/// otherwise the next stage (the rebuild only when it is enabled).
pub open spec fn osgb_next_spec(step: OsgbStep, report: StepReport, rebuild_enabled: bool, cancelled: bool) -> Result<
    OsgbStep,
    Seq<char>,
> {
    match report_failure(report) {
        Some(m) => Err(m),
        None => if cancelled && osgb_checks_cancel(step) {
            Err("cancelled"@)
        } else {
            Ok(osgb_after(step, rebuild_enabled))
        },
    }
}

/// The next stage of an OSGB conversion (see `osgb_next_spec`).
pub fn osgb_next_step(step: OsgbStep, report: StepReport, rebuild_enabled: bool, cancelled: bool) -> (r: Result<
    OsgbStep,
    String,
>)
    ensures
        match (r, osgb_next_spec(step, report, rebuild_enabled, cancelled)) {
            (Ok(a), Ok(b)) => a == b,
            (Err(e), Err(m)) => e@ == m,
            _ => false,
        },
        report matches StepReport::Failed(m) ==> (r matches Err(e) && e@ == m@),
        (report is Done && cancelled && osgb_checks_cancel(step)) ==> (r matches Err(e) && e@ == "cancelled"@),
        r == Ok::<OsgbStep, String>(OsgbStep::Rebuild) ==> step == OsgbStep::Convert && rebuild_enabled,
        r == Ok::<OsgbStep, String>(OsgbStep::Commit) ==> step == OsgbStep::ValidateOutput && report is Done
            && !cancelled,
{
    match report {
        StepReport::Failed(m) => Err(m),
        StepReport::Done => {
            let checks = match step {
                OsgbStep::Scan | OsgbStep::Convert | OsgbStep::Rebuild | OsgbStep::Texture
                | OsgbStep::ValidateOutput => true,
                _ => false,
            };
            if cancelled && checks {
                return Err("cancelled".to_owned());
            }
            Ok(
                match step {
                    OsgbStep::CheckTexture => OsgbStep::ValidatePaths,
                    OsgbStep::ValidatePaths => OsgbStep::PrepareTemp,
                    OsgbStep::PrepareTemp => OsgbStep::Scan,
                    OsgbStep::Scan => OsgbStep::ResolveGeo,
                    OsgbStep::ResolveGeo => OsgbStep::Convert,
                    OsgbStep::Convert => if rebuild_enabled {
                        OsgbStep::Rebuild
                    } else {
                        OsgbStep::Texture
                    },
                    OsgbStep::Rebuild => OsgbStep::Texture,
                    OsgbStep::Texture => OsgbStep::Stage,
                    OsgbStep::Stage => OsgbStep::ValidateOutput,
                    OsgbStep::ValidateOutput => OsgbStep::Commit,
                    OsgbStep::Commit => OsgbStep::Done,
                    OsgbStep::Done => OsgbStep::Done,
                },
            )
        },
    }
}

/// The stages of a successful OSGB conversion, in order.
pub open spec fn osgb_path(rebuild_enabled: bool) -> Seq<OsgbStep> {
    seq![OsgbStep::CheckTexture, OsgbStep::ValidatePaths, OsgbStep::PrepareTemp, OsgbStep::Scan, OsgbStep::ResolveGeo, OsgbStep::Convert]
        + (if rebuild_enabled {
        seq![OsgbStep::Rebuild]
    } else {
        Seq::empty()
    }) + seq![OsgbStep::Texture, OsgbStep::Stage, OsgbStep::ValidateOutput, OsgbStep::Commit, OsgbStep::Done]
}

/// The output is committed only right after it was validated: `Commit`
/// follows nothing but a `ValidateOutput` that reported success with no
/// cancel request.
pub proof fn lemma_osgb_commit_follows_validation(step: OsgbStep, report: StepReport, rebuild_enabled: bool, cancelled: bool)
    requires
        osgb_next_spec(step, report, rebuild_enabled, cancelled) == Ok::<OsgbStep, Seq<char>>(OsgbStep::Commit),
    ensures
        step == OsgbStep::ValidateOutput,
        report is Done,
        !cancelled,
{
}

/// A run where every stage goes well and nothing is cancelled goes through
/// the stages of `osgb_path` in order: scan, convert, (rebuild), texture,
/// stage, validate, commit.
pub proof fn lemma_osgb_order(rebuild_enabled: bool)
    ensures
        forall|i: int|
            0 <= i < osgb_path(rebuild_enabled).len() - 1 ==> osgb_next_spec(
                #[trigger] osgb_path(rebuild_enabled)[i],
                StepReport::Done,
                rebuild_enabled,
                false,
            ) == Ok::<OsgbStep, Seq<char>>(osgb_path(rebuild_enabled)[i + 1]),
        osgb_path(rebuild_enabled)[0] == OsgbStep::CheckTexture,
        osgb_path(rebuild_enabled).last() == OsgbStep::Done,
{
    let p = osgb_path(rebuild_enabled);
    if rebuild_enabled {
        assert(p =~= seq![OsgbStep::CheckTexture, OsgbStep::ValidatePaths, OsgbStep::PrepareTemp, OsgbStep::Scan, OsgbStep::ResolveGeo, OsgbStep::Convert, OsgbStep::Rebuild, OsgbStep::Texture, OsgbStep::Stage, OsgbStep::ValidateOutput, OsgbStep::Commit, OsgbStep::Done]);
    } else {
        assert(p =~= seq![OsgbStep::CheckTexture, OsgbStep::ValidatePaths, OsgbStep::PrepareTemp, OsgbStep::Scan, OsgbStep::ResolveGeo, OsgbStep::Convert, OsgbStep::Texture, OsgbStep::Stage, OsgbStep::ValidateOutput, OsgbStep::Commit, OsgbStep::Done]);
    }
}

/// The stages of re-processing an existing tileset.
#[derive(Debug, Clone, Copy, PartialEq, Eq, Structural)]
pub enum TilesetStep {
    CheckOptions,
    ValidatePaths,
    ResolveTileset,
    PrepareTemp,
    /// Rebuild into the work directory, or copy the input there.
    Produce,
    Texture,
    ValidateOutput,
    Commit,
    Done,
}

/// The stage after `step` when it went well.
pub open spec fn tileset_after(step: TilesetStep) -> TilesetStep {
    match step {
        TilesetStep::CheckOptions => TilesetStep::ValidatePaths,
        TilesetStep::ValidatePaths => TilesetStep::ResolveTileset,
        TilesetStep::ResolveTileset => TilesetStep::PrepareTemp,
        TilesetStep::PrepareTemp => TilesetStep::Produce,
        TilesetStep::Produce => TilesetStep::Texture,
        TilesetStep::Texture => TilesetStep::ValidateOutput,
        TilesetStep::ValidateOutput => TilesetStep::Commit,
        TilesetStep::Commit => TilesetStep::Done,
        TilesetStep::Done => TilesetStep::Done,
    }
}

/// The stages after which a cancel request stops the run (the texture
/// stage only when textures are converted).
pub open spec fn tileset_checks_cancel(step: TilesetStep, want_texture: bool) -> bool {
    step == TilesetStep::ResolveTileset || step == TilesetStep::Produce || (step == TilesetStep::Texture
        && want_texture) || step == TilesetStep::ValidateOutput
}

/// What comes after a stage of re-processing a tileset: its failure ends
/// the run; at the cancel checkpoints a cancel request ends it as
/// `cancelled`; otherwise the next stage.
pub open spec fn tileset_next_spec(step: TilesetStep, report: StepReport, want_texture: bool, cancelled: bool) -> Result<
    TilesetStep,
    Seq<char>,
> {
    match report_failure(report) {
        Some(m) => Err(m),
        None => if cancelled && tileset_checks_cancel(step, want_texture) {
            Err("cancelled"@)
        } else {
            Ok(tileset_after(step))
        },
    }
}

/// The next stage of re-processing a tileset (see `tileset_next_spec`).
pub fn tileset_next_step(step: TilesetStep, report: StepReport, want_texture: bool, cancelled: bool) -> (r: Result<
    TilesetStep,
    String,
>)
    ensures
        match (r, tileset_next_spec(step, report, want_texture, cancelled)) {
            (Ok(a), Ok(b)) => a == b,
            (Err(e), Err(m)) => e@ == m,
            _ => false,
        },
{
    match report {
        StepReport::Failed(m) => Err(m),
        StepReport::Done => {
            let checks = match step {
                TilesetStep::ResolveTileset | TilesetStep::Produce | TilesetStep::ValidateOutput => true,
                TilesetStep::Texture => want_texture,
                _ => false,
            };
            if cancelled && checks {
                return Err("cancelled".to_owned());
            }
            Ok(
                match step {
                    TilesetStep::CheckOptions => TilesetStep::ValidatePaths,
                    TilesetStep::ValidatePaths => TilesetStep::ResolveTileset,
                    TilesetStep::ResolveTileset => TilesetStep::PrepareTemp,
                    TilesetStep::PrepareTemp => TilesetStep::Produce,
                    TilesetStep::Produce => TilesetStep::Texture,
                    TilesetStep::Texture => TilesetStep::ValidateOutput,
                    TilesetStep::ValidateOutput => TilesetStep::Commit,
                    TilesetStep::Commit => TilesetStep::Done,
                    TilesetStep::Done => TilesetStep::Done,
                },
            )
        },
    }
}

/// A re-processed tileset is committed only right after its validation
/// reported success with no cancel request.
pub proof fn lemma_tileset_commit_follows_validation(step: TilesetStep, report: StepReport, want_texture: bool, cancelled: bool)
    requires
        tileset_next_spec(step, report, want_texture, cancelled) == Ok::<TilesetStep, Seq<char>>(TilesetStep::Commit),
    ensures
        step == TilesetStep::ValidateOutput,
        report is Done,
        !cancelled,
{
}

/// The stages of converting a model.
#[derive(Debug, Clone, Copy, PartialEq, Eq, Structural)]
pub enum ModelStep {
    CheckOptions,
    CheckInput,
    ValidatePaths,
    Inspect,
    PrepareTemp,
    WriteConfig,
    Convert,
    ValidateOutput,
    Commit,
    Done,
}

/// The stage after `step` when it went well.
pub open spec fn model_after(step: ModelStep) -> ModelStep {
    match step {
        ModelStep::CheckOptions => ModelStep::CheckInput,
        ModelStep::CheckInput => ModelStep::ValidatePaths,
        ModelStep::ValidatePaths => ModelStep::Inspect,
        ModelStep::Inspect => ModelStep::PrepareTemp,
        ModelStep::PrepareTemp => ModelStep::WriteConfig,
        ModelStep::WriteConfig => ModelStep::Convert,
        ModelStep::Convert => ModelStep::ValidateOutput,
        ModelStep::ValidateOutput => ModelStep::Commit,
        ModelStep::Commit => ModelStep::Done,
        ModelStep::Done => ModelStep::Done,
    }
}

/// What comes after a stage of converting a model: its failure ends the
/// run; after inspecting the input and after the conversion a cancel
/// request ends it as `cancelled`; otherwise the next stage.
pub open spec fn model_next_spec(step: ModelStep, report: StepReport, cancelled: bool) -> Result<ModelStep, Seq<char>> {
    match report_failure(report) {
        Some(m) => Err(m),
        None => if cancelled && (step == ModelStep::Inspect || step == ModelStep::Convert) {
            Err("cancelled"@)
        } else {
            Ok(model_after(step))
        },
    }
}

/// The next stage of converting a model (see `model_next_spec`).
pub fn model_next_step(step: ModelStep, report: StepReport, cancelled: bool) -> (r: Result<ModelStep, String>)
    ensures
        match (r, model_next_spec(step, report, cancelled)) {
            (Ok(a), Ok(b)) => a == b,
            (Err(e), Err(m)) => e@ == m,
            _ => false,
        },
{
    match report {
        StepReport::Failed(m) => Err(m),
        StepReport::Done => {
            let checks = match step {
                ModelStep::Inspect | ModelStep::Convert => true,
                _ => false,
            };
            if cancelled && checks {
                return Err("cancelled".to_owned());
            }
            Ok(
                match step {
                    ModelStep::CheckOptions => ModelStep::CheckInput,
                    ModelStep::CheckInput => ModelStep::ValidatePaths,
                    ModelStep::ValidatePaths => ModelStep::Inspect,
                    ModelStep::Inspect => ModelStep::PrepareTemp,
                    ModelStep::PrepareTemp => ModelStep::WriteConfig,
                    ModelStep::WriteConfig => ModelStep::Convert,
                    ModelStep::Convert => ModelStep::ValidateOutput,
                    ModelStep::ValidateOutput => ModelStep::Commit,
                    ModelStep::Commit => ModelStep::Done,
                    ModelStep::Done => ModelStep::Done,
                },
            )
        },
    }
}

/// A converted model is committed only right after its validation
/// reported success.
pub proof fn lemma_model_commit_follows_validation(step: ModelStep, report: StepReport, cancelled: bool)
    requires
        model_next_spec(step, report, cancelled) == Ok::<ModelStep, Seq<char>>(ModelStep::Commit),
    ensures
        step == ModelStep::ValidateOutput,
        report is Done,
{
}

} // verus!
