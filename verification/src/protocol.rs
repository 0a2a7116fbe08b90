//! Task configuration vocabulary shared by the desktop shell and the
//! processor: model import options, pipeline stages and schema checks.

use crate::text::{concat3, dec_chars, dec_string, trim};
use vstd::prelude::*;

verus! {

/// Schema version of task files and protocol events.
pub const SCHEMA_VERSION: u32 = 1;

/// Exit code of a successful task.
pub const EXIT_OK: i32 = 0;

/// Exit code of a failed task.
pub const EXIT_FAILED: i32 = 1;

/// Exit code of a cancelled task.
pub const EXIT_CANCELLED: i32 = 2;

/// A filesystem path as it appears in a task file.
pub struct PathRef {
    pub path: String,
}

/// Input model formats understood by the converter.
#[derive(Clone, Copy, Debug, PartialEq, Eq, Structural)]
pub enum ModelFormat {
    Fbx,
    Obj,
}

impl ModelFormat {
    /// File extension (lower case, without dot) of the format.
    pub fn extension(self) -> (ext: &'static str)
        ensures
            ext@ == (match self {
                ModelFormat::Fbx => "fbx"@,
                ModelFormat::Obj => "obj"@,
            }),
    {
        match self {
            ModelFormat::Fbx => "fbx",
            ModelFormat::Obj => "obj",
        }
    }
}

/// Model units; OBJ needs an explicit one.
#[derive(Clone, Copy, Debug, PartialEq, Eq, Structural)]
pub enum ModelUnit {
    FromMetadata,
    Meters,
    Centimeters,
    Millimeters,
    Feet,
}

impl Default for ModelUnit {
    fn default() -> (r: Self)
        ensures
            r == ModelUnit::FromMetadata,
    {
        ModelUnit::FromMetadata
    }
}

/// Model axis conventions; OBJ needs an explicit one.
#[derive(Clone, Copy, Debug, PartialEq, Eq, Structural)]
pub enum ModelAxes {
    FromMetadata,
    YUpRightHanded,
    ZUpRightHanded,
}

impl Default for ModelAxes {
    fn default() -> (r: Self)
        ensures
            r == ModelAxes::FromMetadata,
    {
        ModelAxes::FromMetadata
    }
}

/// What to do when a referenced texture is missing.
#[derive(Clone, Copy, Debug, PartialEq, Eq, Structural)]
pub enum MissingTexturePolicy {
    Error,
    Warn,
}

impl Default for MissingTexturePolicy {
    fn default() -> (r: Self)
        ensures
            r == MissingTexturePolicy::Error,
    {
        MissingTexturePolicy::Error
    }
}

/// Where an anchored model is pinned.
#[derive(Clone, Copy, Debug, PartialEq, Eq, Structural)]
pub enum ModelPivot {
    Original,
    BottomCenter,
    BoundingBoxCenter,
}

impl Default for ModelPivot {
    fn default() -> (r: Self)
        ensures
            r == ModelPivot::Original,
    {
        ModelPivot::Original
    }
}

/// Axis order of projected coordinates.
#[derive(Clone, Copy, Debug, PartialEq, Eq, Structural)]
pub enum ProjectedAxisMapping {
    EastNorthHeight,
    NorthEastHeight,
}

/// Texture handling of a model conversion.
#[derive(Clone, Copy, Debug, PartialEq, Eq, Structural)]
pub enum ModelTextureMode {
    Keep,
}

impl Default for ModelTextureMode {
    fn default() -> (r: Self)
        ensures
            r == ModelTextureMode::Keep,
    {
        ModelTextureMode::Keep
    }
}

/// Texture options of a model conversion.
#[derive(Clone, Copy, Debug, PartialEq, Eq, Structural)]
pub struct ModelTextureOptions {
    pub mode: ModelTextureMode,
}

impl Default for ModelTextureOptions {
    fn default() -> (r: Self)
        ensures
            r.mode == ModelTextureMode::Keep,
    {
        ModelTextureOptions { mode: ModelTextureMode::Keep }
    }
}

/// Output format of a model conversion.
#[derive(Clone, Copy, Debug, PartialEq, Eq, Structural)]
pub enum ModelOutputFormat {
    Tiles3d10,
}

impl Default for ModelOutputFormat {
    fn default() -> (r: Self)
        ensures
            r == ModelOutputFormat::Tiles3d10,
    {
        ModelOutputFormat::Tiles3d10
    }
}

/// Tiling of a model conversion's output.
#[derive(Clone, Copy, Debug, PartialEq, Eq, Structural)]
pub enum ModelTiling {
    Single,
}

impl Default for ModelTiling {
    fn default() -> (r: Self)
        ensures
            r == ModelTiling::Single,
    {
        ModelTiling::Single
    }
}

/// Output options of a model conversion.
#[derive(Clone, Copy, Debug, PartialEq, Eq, Structural)]
pub struct ModelOutputOptions {
    pub format: ModelOutputFormat,
    pub tiling: ModelTiling,
    pub lod: bool,
}

impl Default for ModelOutputOptions {
    fn default() -> (r: Self)
        ensures
            r.format == ModelOutputFormat::Tiles3d10,
            r.tiling == ModelTiling::Single,
            !r.lod,
    {
        ModelOutputOptions { format: ModelOutputFormat::Tiles3d10, tiling: ModelTiling::Single, lod: false }
    }
}

/// How a model is read.
#[derive(Clone, Debug)]
pub struct ModelImportOptions {
    pub format: ModelFormat,
    pub unit: ModelUnit,
    pub axes: ModelAxes,
    pub missing_texture_policy: MissingTexturePolicy,
    pub texture_roots: Vec<String>,
}

/// What the georeference options of a model task say, as the checks read
/// them: the range and finiteness facts of an anchor's numbers, and the
/// source CRS of a projected placement.
pub enum GeoReferenceCheck {
    Local,
    Anchor { all_finite: bool, longitude_in_range: bool, latitude_in_range: bool },
    Projected { source_crs: String, offset_finite: bool },
}

/// Why a model task's options are refused, if they are.
pub open spec fn model_options_error(model: ModelImportOptions, geo: GeoReferenceCheck) -> Option<Seq<char>> {
    if model.format == ModelFormat::Obj && model.unit == ModelUnit::FromMetadata {
        Some("OBJ requires an explicit model.unit; OBJ does not reliably declare units"@)
    } else if model.format == ModelFormat::Obj && model.axes == ModelAxes::FromMetadata {
        Some("OBJ requires explicit model.axes; OBJ does not reliably declare axes"@)
    } else {
        match geo {
            GeoReferenceCheck::Local => None,
            GeoReferenceCheck::Anchor { all_finite, longitude_in_range, latitude_in_range } => {
                if !all_finite {
                    Some("anchor georeference values must be finite numbers"@)
                } else if !longitude_in_range {
                    Some("anchor longitudeDeg must be between -180 and 180"@)
                } else if !latitude_in_range {
                    Some("anchor latitudeDeg must be between -90 and 90"@)
                } else {
                    None
                }
            },
            GeoReferenceCheck::Projected { source_crs, offset_finite } => {
                if trim(source_crs@).len() == 0 {
                    Some("projected georeference requires sourceCrs"@)
                } else if !offset_finite {
                    Some("projected originOffset values must be finite numbers"@)
                } else {
                    None
                }
            },
        }
    }
}

/// Check a model task's options: OBJ needs an explicit unit and axes, an
/// anchor needs finite coordinates within range, and a projected placement
/// needs a source CRS and a finite offset.
pub fn validate_model_options(model: &ModelImportOptions, geo: &GeoReferenceCheck) -> (r: Result<(), String>)
    ensures
        match (r, model_options_error(*model, *geo)) {
            (Ok(()), None) => true,
            (Err(e), Some(m)) => e@ == m,
            _ => false,
        },
{
    if model.format == ModelFormat::Obj && model.unit == ModelUnit::FromMetadata {
        return Err("OBJ requires an explicit model.unit; OBJ does not reliably declare units".to_owned());
    }
    if model.format == ModelFormat::Obj && model.axes == ModelAxes::FromMetadata {
        return Err("OBJ requires explicit model.axes; OBJ does not reliably declare axes".to_owned());
    }
    match geo {
        GeoReferenceCheck::Local => Ok(()),
        GeoReferenceCheck::Anchor { all_finite, longitude_in_range, latitude_in_range } => {
            if !*all_finite {
                Err("anchor georeference values must be finite numbers".to_owned())
            } else if !*longitude_in_range {
                Err("anchor longitudeDeg must be between -180 and 180".to_owned())
            } else if !*latitude_in_range {
                Err("anchor latitudeDeg must be between -90 and 90".to_owned())
            } else {
                Ok(())
            }
        },
        GeoReferenceCheck::Projected { source_crs, offset_finite } => {
            let t = crate::text::trim_str(source_crs.as_str());
            if t.as_str().is_empty() {
                Err("projected georeference requires sourceCrs".to_owned())
            } else if !*offset_finite {
                Err("projected originOffset values must be finite numbers".to_owned())
            } else {
                Ok(())
            }
        },
    }
}

/// Accept a task file's schema version: absent (legacy) or the current one.
pub fn validate_schema_version(schema_version: Option<u32>) -> (r: Result<(), String>)
    ensures
        match schema_version {
            None => r is Ok,
            Some(v) => if v == SCHEMA_VERSION {
                r is Ok
            } else {
                r matches Err(e) && e@ == "unsupported schemaVersion "@ + dec_chars(v as nat)
                    + "; expected 1 or omit for legacy"@
            },
        },
{
    match schema_version {
        None => Ok(()),
        Some(v) => {
            if v == SCHEMA_VERSION {
                Ok(())
            } else {
                let n = dec_string(v as u64);
                Err(concat3("unsupported schemaVersion ", n.as_str(), "; expected 1 or omit for legacy"))
            }
        },
    }
}

/// The stages of the processing pipeline, as reported in events.
#[derive(Clone, Copy, Debug, PartialEq, Eq, Structural)]
pub enum Stage {
    Scan,
    Convert,
    RebuildIndex,
    RebuildProxy,
    Rebuild,
    Texture,
    Validate,
    Commit,
    Done,
}

/// The event name of each stage.
pub open spec fn stage_text(s: Stage) -> Seq<char> {
    match s {
        Stage::Scan => "scan"@,
        Stage::Convert => "convert"@,
        Stage::RebuildIndex => "rebuild-index"@,
        Stage::RebuildProxy => "rebuild-proxy"@,
        Stage::Rebuild => "rebuild"@,
        Stage::Texture => "texture"@,
        Stage::Validate => "validate"@,
        Stage::Commit => "commit"@,
        Stage::Done => "done"@,
    }
}

impl Stage {
    /// The event name of the stage.
    pub fn as_str(self) -> (r: &'static str)
        ensures
            r@ == stage_text(self),
    {
        match self {
            Stage::Scan => "scan",
            Stage::Convert => "convert",
            Stage::RebuildIndex => "rebuild-index",
            Stage::RebuildProxy => "rebuild-proxy",
            Stage::Rebuild => "rebuild",
            Stage::Texture => "texture",
            Stage::Validate => "validate",
            Stage::Commit => "commit",
            Stage::Done => "done",
        }
    }
}

/// The numbering of a task's event stream: every event carries the task
/// id and the next sequence number, starting at 1.
pub struct Emitter {
    task_id: String,
    seq: u64,
}

impl Emitter {
    pub closed spec fn id(&self) -> Seq<char> {
        self.task_id@
    }

    /// How many events were numbered so far.
    pub closed spec fn count(&self) -> nat {
        self.seq as nat
    }

    /// The stream of a task; nothing numbered yet.
    pub fn new(task_id: &str) -> (r: Self)
        ensures
            r.id() == task_id@,
            r.count() == 0,
    {
        Emitter { task_id: task_id.to_owned(), seq: 0 }
    }

    /// The task id every event carries.
    pub fn task_id(&self) -> (r: &str)
        ensures
            r@ == self.id(),
    {
        self.task_id.as_str()
    }

    /// The number of the next event: one more than the previous one.
    pub fn next_seq(&mut self) -> (r: u64)
        requires
            old(self).count() < u64::MAX,
        ensures
            r == old(self).count() + 1,
            final(self).count() == r,
            final(self).id() == old(self).id(),
    {
        self.seq = self.seq + 1;
        self.seq
    }
}

} // verus!
