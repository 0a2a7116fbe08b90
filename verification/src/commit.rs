//! Bookkeeping of a task's owned temporary work directory: its name and
//! ownership marker, the checkpoint file, the ownership checks made before
//! committing, and the guard that removes the directory unless the output
//! was committed.

use crate::path_policy::{task_id_char_ok, task_id_check, PathParts};
use crate::text::{chars_of, chars_start_with, concat2, concat3, is_ws, str_eq, trim, trim_chars};
use vstd::prelude::*;
use vstd::string::StringExecFns;

verus! {

/// Name of the ownership marker file inside the temporary work directory.
pub const TEMP_MARKER: &'static str = ".geoforge-owned";

/// Name of the checkpoint file inside the temporary work directory.
pub const CHECKPOINT_FILE: &'static str = ".geoforge-checkpoint";

/// Pipeline stage checkpoints, recorded for crash-recovery diagnostics.
#[derive(Debug, Clone, Copy, PartialEq, Eq, Structural)]
pub enum Checkpoint {
    Prepared,
    Converting,
    Converted,
    Rebuilding,
    Rebuilt,
    Texturing,
    Textured,
    Validating,
    Validated,
    Committing,
    Committed,
}

/// The recorded name of each checkpoint.
pub open spec fn checkpoint_text(c: Checkpoint) -> Seq<char> {
    match c {
        Checkpoint::Prepared => "prepared"@,
        Checkpoint::Converting => "converting"@,
        Checkpoint::Converted => "converted"@,
        Checkpoint::Rebuilding => "rebuilding"@,
        Checkpoint::Rebuilt => "rebuilt"@,
        Checkpoint::Texturing => "texturing"@,
        Checkpoint::Textured => "textured"@,
        Checkpoint::Validating => "validating"@,
        Checkpoint::Validated => "validated"@,
        Checkpoint::Committing => "committing"@,
        Checkpoint::Committed => "committed"@,
    }
}

/// The checkpoint a recorded name stands for, if any.
pub open spec fn checkpoint_parse(s: Seq<char>) -> Option<Checkpoint> {
    if s == "prepared"@ {
        Some(Checkpoint::Prepared)
    } else if s == "converting"@ {
        Some(Checkpoint::Converting)
    } else if s == "converted"@ {
        Some(Checkpoint::Converted)
    } else if s == "rebuilding"@ {
        Some(Checkpoint::Rebuilding)
    } else if s == "rebuilt"@ {
        Some(Checkpoint::Rebuilt)
    } else if s == "texturing"@ {
        Some(Checkpoint::Texturing)
    } else if s == "textured"@ {
        Some(Checkpoint::Textured)
    } else if s == "validating"@ {
        Some(Checkpoint::Validating)
    } else if s == "validated"@ {
        Some(Checkpoint::Validated)
    } else if s == "committing"@ {
        Some(Checkpoint::Committing)
    } else if s == "committed"@ {
        Some(Checkpoint::Committed)
    } else {
        None
    }
}

impl Checkpoint {
    /// The recorded name of the checkpoint.
    pub fn as_str(&self) -> (r: &'static str)
        ensures
            r@ == checkpoint_text(*self),
    {
        match self {
            Checkpoint::Prepared => "prepared",
            Checkpoint::Converting => "converting",
            Checkpoint::Converted => "converted",
            Checkpoint::Rebuilding => "rebuilding",
            Checkpoint::Rebuilt => "rebuilt",
            Checkpoint::Texturing => "texturing",
            Checkpoint::Textured => "textured",
            Checkpoint::Validating => "validating",
            Checkpoint::Validated => "validated",
            Checkpoint::Committing => "committing",
            Checkpoint::Committed => "committed",
        }
    }

    /// The checkpoint with this recorded name, if any.
    pub fn from_str(s: &str) -> (r: Option<Self>)
        ensures
            r == checkpoint_parse(s@),
    {
        if str_eq(s, "prepared") {
            Some(Checkpoint::Prepared)
        } else if str_eq(s, "converting") {
            Some(Checkpoint::Converting)
        } else if str_eq(s, "converted") {
            Some(Checkpoint::Converted)
        } else if str_eq(s, "rebuilding") {
            Some(Checkpoint::Rebuilding)
        } else if str_eq(s, "rebuilt") {
            Some(Checkpoint::Rebuilt)
        } else if str_eq(s, "texturing") {
            Some(Checkpoint::Texturing)
        } else if str_eq(s, "textured") {
            Some(Checkpoint::Textured)
        } else if str_eq(s, "validating") {
            Some(Checkpoint::Validating)
        } else if str_eq(s, "validated") {
            Some(Checkpoint::Validated)
        } else if str_eq(s, "committing") {
            Some(Checkpoint::Committing)
        } else if str_eq(s, "committed") {
            Some(Checkpoint::Committed)
        } else {
            None
        }
    }
}

/// Every checkpoint parses back from its recorded name.
pub proof fn lemma_checkpoint_roundtrip(c: Checkpoint)
    ensures
        checkpoint_parse(checkpoint_text(c)) == Some(c),
{
    reveal_strlit("prepared");
    reveal_strlit("converting");
    reveal_strlit("converted");
    reveal_strlit("rebuilding");
    reveal_strlit("rebuilt");
    reveal_strlit("texturing");
    reveal_strlit("textured");
    reveal_strlit("validating");
    reveal_strlit("validated");
    reveal_strlit("committing");
    reveal_strlit("committed");
    let t = checkpoint_text(c);
    match c {
        Checkpoint::Prepared => {},
        Checkpoint::Converting => {
            assert(t.len() != "prepared"@.len());
        },
        Checkpoint::Converted => {
            assert(t.len() != "prepared"@.len());
            assert(t.len() != "converting"@.len());
        },
        Checkpoint::Rebuilding => {
            assert(t.len() != "prepared"@.len());
            assert(t[0] != "converting"@[0]);
            assert(t.len() != "converted"@.len());
        },
        Checkpoint::Rebuilt => {
            assert(t.len() != "prepared"@.len());
            assert(t.len() != "converting"@.len());
            assert(t.len() != "converted"@.len());
            assert(t.len() != "rebuilding"@.len());
        },
        Checkpoint::Texturing => {
            assert(t.len() != "prepared"@.len());
            assert(t.len() != "converting"@.len());
            assert(t[0] != "converted"@[0]);
            assert(t.len() != "rebuilding"@.len());
            assert(t.len() != "rebuilt"@.len());
        },
        Checkpoint::Textured => {
            assert(t[0] != "prepared"@[0]);
            assert(t.len() != "converting"@.len());
            assert(t.len() != "converted"@.len());
            assert(t.len() != "rebuilding"@.len());
            assert(t.len() != "rebuilt"@.len());
            assert(t.len() != "texturing"@.len());
        },
        Checkpoint::Validating => {
            assert(t.len() != "prepared"@.len());
            assert(t[0] != "converting"@[0]);
            assert(t.len() != "converted"@.len());
            assert(t[0] != "rebuilding"@[0]);
            assert(t.len() != "rebuilt"@.len());
            assert(t.len() != "texturing"@.len());
            assert(t.len() != "textured"@.len());
        },
        Checkpoint::Validated => {
            assert(t.len() != "prepared"@.len());
            assert(t.len() != "converting"@.len());
            assert(t[0] != "converted"@[0]);
            assert(t.len() != "rebuilding"@.len());
            assert(t.len() != "rebuilt"@.len());
            assert(t[0] != "texturing"@[0]);
            assert(t.len() != "textured"@.len());
            assert(t.len() != "validating"@.len());
        },
        Checkpoint::Committing => {
            assert(t.len() != "prepared"@.len());
            assert(t[2] != "converting"@[2]);
            assert(t.len() != "converted"@.len());
            assert(t[0] != "rebuilding"@[0]);
            assert(t.len() != "rebuilt"@.len());
            assert(t.len() != "texturing"@.len());
            assert(t.len() != "textured"@.len());
            assert(t[0] != "validating"@[0]);
            assert(t.len() != "validated"@.len());
        },
        Checkpoint::Committed => {
            assert(t.len() != "prepared"@.len());
            assert(t.len() != "converting"@.len());
            assert(t[2] != "converted"@[2]);
            assert(t.len() != "rebuilding"@.len());
            assert(t.len() != "rebuilt"@.len());
            assert(t[0] != "texturing"@[0]);
            assert(t.len() != "textured"@.len());
            assert(t.len() != "validating"@.len());
            assert(t[0] != "validated"@[0]);
            assert(t.len() != "committing"@.len());
        },
    }
}

/// The content of the checkpoint file recording `c`: its name and a newline.
pub fn checkpoint_file_text(c: Checkpoint) -> (r: String)
    ensures
        r@ == checkpoint_text(c) + "\n"@,
{
    concat2(c.as_str(), "\n")
}

/// The checkpoint recorded by a checkpoint file's content (surrounding
/// whitespace ignored), if any.
pub fn parse_checkpoint_file(content: &str) -> (r: Option<Checkpoint>)
    ensures
        r == checkpoint_parse(trim(content@)),
{
    let t = crate::text::trim_str(content);
    Checkpoint::from_str(t.as_str())
}

/// Reading back the checkpoint file that recorded `c` gives `c`.
pub proof fn lemma_checkpoint_file_roundtrip(c: Checkpoint)
    ensures
        checkpoint_parse(trim(checkpoint_text(c) + "\n"@)) == Some(c),
{
    reveal_strlit("prepared");
    reveal_strlit("converting");
    reveal_strlit("converted");
    reveal_strlit("rebuilding");
    reveal_strlit("rebuilt");
    reveal_strlit("texturing");
    reveal_strlit("textured");
    reveal_strlit("validating");
    reveal_strlit("validated");
    reveal_strlit("committing");
    reveal_strlit("committed");
    let t = checkpoint_text(c);
    assert(!is_ws(t[0]) && !is_ws(t.last()));
    crate::text::lemma_trim_line(t);
    lemma_checkpoint_roundtrip(c);
}

/// The name of a task's temporary work directory.
pub open spec fn temp_dir_name_of(task_id: Seq<char>) -> Seq<char> {
    ".geoforge-task-"@ + task_id
}

/// The name of a task's temporary work directory: `.geoforge-task-<id>`.
pub fn temp_dir_name(task_id: &str) -> (r: String)
    ensures
        r@ == temp_dir_name_of(task_id@),
{
    concat2(".geoforge-task-", task_id)
}

/// The temporary work directory of a task: beside the final output, in
/// its parent directory (or in `.` when the output has no parent).
pub fn temp_work_dir(final_output: &PathParts, task_id: &str) -> (r: PathParts)
    ensures
        final_output.parts@.len() > 0 ==> r.root@ == final_output.root@ && r.comps()
            == final_output.comps().drop_last().push(temp_dir_name_of(task_id@)),
        final_output.parts@.len() == 0 ==> r.root@ == Seq::<char>::empty() && r.comps() == seq![
            "."@,
            temp_dir_name_of(task_id@),
        ],
{
    let name = temp_dir_name(task_id);
    if final_output.parts.len() > 0 {
        let mut parts = final_output.parts.clone();
        parts.pop();
        let ghost before = parts@;
        parts.push(name);
        let r = PathParts { root: final_output.root.clone(), parts };
        assert(r.comps() =~= final_output.comps().drop_last().push(temp_dir_name_of(task_id@)));
        r
    } else {
        let mut parts: Vec<String> = Vec::new();
        parts.push(".".to_owned());
        parts.push(name);
        let r = PathParts { root: String::new(), parts };
        assert(r.comps() =~= seq!["."@, temp_dir_name_of(task_id@)]);
        r
    }
}

/// The content of the ownership marker of a task's work directory.
pub open spec fn marker_text_of(task_id: Seq<char>) -> Seq<char> {
    "geoforge-task:"@ + task_id + "\n"@
}

/// The ownership marker written into a task's work directory.
pub fn ownership_marker_text(task_id: &str) -> (r: String)
    ensures
        r@ == marker_text_of(task_id@),
{
    concat3("geoforge-task:", task_id, "\n")
}

/// A directory named `dir_name` whose marker reads `marker` belongs to the
/// task its name carries: the name is `.geoforge-task-<id>` and the marker,
/// trimmed, is `geoforge-task:<id>`.
pub open spec fn marker_owns(dir_name: Seq<char>, marker: Seq<char>) -> bool {
    &&& crate::text::starts_with(dir_name, ".geoforge-task-"@)
    &&& trim(marker) == "geoforge-task:"@ + dir_name.skip(15)
}

/// Does the marker content `marker` claim the directory named `dir_name`?
pub fn marker_matches(dir_name: &str, marker: &str) -> (r: bool)
    ensures
        r == marker_owns(dir_name@, marker@),
{
    proof {
        reveal_strlit(".geoforge-task-");
    }
    let name = chars_of(dir_name);
    let prefix = chars_of(".geoforge-task-");
    if !chars_start_with(&name, &prefix) {
        return false;
    }
    let id = crate::text::string_of_range(dir_name, &name, 15, name.len());
    let want = chars_of(concat2("geoforge-task:", id.as_str()).as_str());
    let got = trim_chars(&chars_of(marker));
    assert(id@ =~= dir_name@.skip(15));
    crate::text::chars_equal(&got, &want)
}

/// Whether the temporary directory is the run's own: a real directory (not
/// a symlink), named after a task, whose marker claims it. `marker` is
/// `None` when the marker could not be read.
pub fn owns_temp_dir(is_real_dir: bool, dir_name: Option<&str>, marker: Option<&str>) -> (r: bool)
    ensures
        r == (is_real_dir && dir_name is Some && marker is Some && marker_owns(
            dir_name.unwrap()@,
            marker.unwrap()@,
        )),
{
    if !is_real_dir {
        return false;
    }
    match (dir_name, marker) {
        (Some(n), Some(m)) => marker_matches(n, m),
        _ => false,
    }
}

/// A directory prepared for a valid task id is recognised as owned by the
/// marker written into it.
pub proof fn lemma_prepared_temp_is_owned(task_id: Seq<char>)
    requires
        task_id_check(task_id) is Ok,
    ensures
        marker_owns(temp_dir_name_of(task_id), marker_text_of(task_id)),
{
    reveal_strlit(".geoforge-task-");
    reveal_strlit("geoforge-task:");
    let name = temp_dir_name_of(task_id);
    assert(name.subrange(0, 15) =~= ".geoforge-task-"@);
    assert(name.skip(15) =~= task_id);
    let body = "geoforge-task:"@ + task_id;
    assert(marker_text_of(task_id) =~= body + "\n"@);
    assert(body[0] == 'g');
    assert(body.last() == task_id.last());
    assert(task_id_char_ok(task_id[task_id.len() - 1]));
    crate::text::lemma_trim_line(body);
}

/// What the file system says of a temporary work directory before commit.
pub struct TempDirProbe {
    /// How the directory displays.
    pub display: String,
    /// Why its metadata could not be read, if it could not.
    pub metadata_error: Option<String>,
    pub is_symlink: bool,
    pub is_dir: bool,
    /// Whether the directory itself is owned (see `owns_temp_dir`).
    pub owned: bool,
    /// Whether its parent directory is owned.
    pub parent_owned: bool,
    /// Whether the ownership marker file exists, and how it displays.
    pub marker_exists: bool,
    pub marker_display: String,
    /// The marker's content, `None` when unreadable.
    pub marker_content: Option<String>,
    /// The directory's file name, when it has one that is valid text.
    pub dir_name: Option<String>,
}

/// Why the temporary directory may not be committed from, if it may not.
pub open spec fn owned_temp_error(p: TempDirProbe) -> Option<Seq<char>> {
    if p.metadata_error is Some {
        Some("temporary work directory is missing or inaccessible: "@ + p.display@ + " ("@
            + p.metadata_error.unwrap()@ + ")"@)
    } else if p.is_symlink {
        Some("temporary work directory is a symlink (security risk): "@ + p.display@)
    } else if !p.is_dir {
        Some("temporary work directory is not a directory: "@ + p.display@)
    } else if p.owned || p.parent_owned {
        None
    } else if !p.marker_exists {
        Some("temporary work directory missing ownership marker: "@ + p.display@ + " (expected "@
            + p.marker_display@ + ")"@)
    } else if !(p.dir_name is Some && crate::text::starts_with(
        p.dir_name.unwrap()@,
        ".geoforge-task-"@,
    )) {
        Some("temporary work directory name does not match pattern '.geoforge-task-<id>': "@
            + p.display@)
    } else {
        let found = match p.marker_content {
            Some(c) => trim(c@),
            None => "<unreadable>"@,
        };
        Some("temporary work directory ownership marker mismatch: "@ + p.display@
            + " (expected 'geoforge-task:"@ + p.dir_name.unwrap()@.skip(15) + "', found '"@ + found
            + "')"@)
    }
}

/// Refuse to commit from a temporary directory that is missing, a symlink,
/// not a directory, or owned neither itself nor through its parent; the
/// error says which.
pub fn ensure_owned_temp(p: &TempDirProbe) -> (r: Result<(), String>)
    ensures
        match (r, owned_temp_error(*p)) {
            (Ok(()), None) => true,
            (Err(e), Some(m)) => e@ == m,
            _ => false,
        },
{
    if let Some(err) = &p.metadata_error {
        let a = concat3("temporary work directory is missing or inaccessible: ", p.display.as_str(), " (");
        return Err(concat3(a.as_str(), err.as_str(), ")"));
    }
    if p.is_symlink {
        return Err(concat2("temporary work directory is a symlink (security risk): ", p.display.as_str()));
    }
    if !p.is_dir {
        return Err(concat2("temporary work directory is not a directory: ", p.display.as_str()));
    }
    if p.owned || p.parent_owned {
        return Ok(());
    }
    if !p.marker_exists {
        let a = concat3("temporary work directory missing ownership marker: ", p.display.as_str(), " (expected ");
        return Err(concat3(a.as_str(), p.marker_display.as_str(), ")"));
    }
    proof {
        reveal_strlit(".geoforge-task-");
    }
    let id_s: String = match &p.dir_name {
        Some(n) => {
            let name = chars_of(n.as_str());
            let prefix = chars_of(".geoforge-task-");
            if !chars_start_with(&name, &prefix) {
                return Err(concat2(
                    "temporary work directory name does not match pattern '.geoforge-task-<id>': ",
                    p.display.as_str(),
                ));
            }
            let id = crate::text::string_of_range(n.as_str(), &name, 15, name.len());
            assert(id@ =~= n@.skip(15));
            id
        },
        None => {
            return Err(concat2(
                "temporary work directory name does not match pattern '.geoforge-task-<id>': ",
                p.display.as_str(),
            ));
        },
    };
    let found = match &p.marker_content {
        Some(c) => crate::text::trim_str(c.as_str()),
        None => "<unreadable>".to_owned(),
    };
    let a = concat3("temporary work directory ownership marker mismatch: ", p.display.as_str(), " (expected 'geoforge-task:");
    let b = concat3(a.as_str(), id_s.as_str(), "', found '");
    Err(concat3(b.as_str(), found.as_str(), "')"))
}

/// The message given when a task's temporary directory already exists,
/// with the last checkpoint found in it, if any.
pub fn existing_temp_message(temp_display: &str, checkpoint: Option<Checkpoint>) -> (r: String)
    ensures
        r@ == "temporary work directory already exists (refusing to overwrite): "@ + temp_display@
            + match checkpoint {
            Some(c) => " Last checkpoint: "@ + checkpoint_text(c),
            None => " No checkpoint found."@,
        }
            + " This may indicate: (1) a previous run was interrupted, (2) another process is using the same task ID, or (3) leftover state from a crash. If you're certain no other process is using this directory, manually remove it and retry."@,
{
    let info = match checkpoint {
        Some(c) => concat2(" Last checkpoint: ", c.as_str()),
        None => " No checkpoint found.".to_owned(),
    };
    let a = concat3(
        "temporary work directory already exists (refusing to overwrite): ",
        temp_display,
        info.as_str(),
    );
    concat2(
        a.as_str(),
        " This may indicate: (1) a previous run was interrupted, (2) another process is using the same task ID, or (3) leftover state from a crash. If you're certain no other process is using this directory, manually remove it and retry.",
    )
}

/// Removes the run's owned work directory when processing exits before
/// commit; once the output is committed it is kept, whatever comes after
/// (a late cancel included).
pub struct TempGuard {
    path: PathParts,
    committed: bool,
}

impl TempGuard {
    pub closed spec fn guarded(&self) -> PathParts {
        self.path
    }

    pub closed spec fn is_committed(&self) -> bool {
        self.committed
    }

    /// Guard the work directory at `path`; nothing is committed yet.
    pub fn new(path: PathParts) -> (r: Self)
        ensures
            r.guarded() == path,
            !r.is_committed(),
    {
        TempGuard { path, committed: false }
    }

    /// Record that the output was committed: the directory is kept from now on.
    pub fn mark_committed(&mut self)
        ensures
            final(self).is_committed(),
            final(self).guarded() == old(self).guarded(),
    {
        self.committed = true;
    }

    /// The guarded directory.
    pub fn path(&self) -> (r: &PathParts)
        ensures
            *r == self.guarded(),
    {
        &self.path
    }

    /// Whether the directory is to be removed when the guard ends: exactly
    /// when the output was not committed.
    pub fn should_remove(&self) -> (r: bool)
        ensures
            r == !self.is_committed(),
    {
        !self.committed
    }
}

/// What the file system says of the staged output before commit.
pub struct StagedProbe {
    /// How the staged directory displays.
    pub display: String,
    /// Why its metadata could not be read, if it could not.
    pub metadata_error: Option<String>,
    pub is_dir: bool,
    pub is_symlink: bool,
    /// How its parent displays; `None` when it has none.
    pub parent_display: Option<String>,
    /// The canonical parent, or why it could not be resolved.
    pub canonical_parent: Result<PathParts, String>,
    /// How the owned temporary directory displays, and its canonical form
    /// or why it could not be resolved.
    pub temp_display: String,
    pub canonical_temp: Result<PathParts, String>,
}

/// Why the staged output may not be committed, if it may not: it must be a
/// real directory whose parent is (canonically) the owned temporary
/// directory itself.
pub open spec fn staged_error(p: StagedProbe) -> Option<Seq<char>> {
    match p.metadata_error {
        Some(e) => Some("staged output is missing or inaccessible: "@ + p.display@ + " ("@ + e@ + ")"@),
        None => if !p.is_dir || p.is_symlink {
            Some("staged output must be a real directory: "@ + p.display@)
        } else {
            match p.parent_display {
                None => Some("staged output has no parent: "@ + p.display@),
                Some(pd) => match p.canonical_parent {
                    Err(e) => Some("cannot resolve staged output parent "@ + pd@ + ": "@ + e@),
                    Ok(cp) => match p.canonical_temp {
                        Err(e) => Some("cannot resolve owned temporary directory "@ + p.temp_display@
                            + ": "@ + e@),
                        Ok(ct) => if crate::path_policy::same_path(cp.root@, cp.comps(), ct.root@, ct.comps(), false) {
                            None
                        } else {
                            Some("staged output must be a direct child of its owned temporary directory: "@
                                + p.display@)
                        },
                    },
                },
            }
        },
    }
}

/// Refuse to commit staged output that is missing, not a real directory,
/// or not directly inside the owned temporary directory.
pub fn ensure_staged_output(p: &StagedProbe) -> (r: Result<(), String>)
    ensures
        match (r, staged_error(*p)) {
            (Ok(()), None) => true,
            (Err(e), Some(m)) => e@ == m,
            _ => false,
        },
{
    if let Some(e) = &p.metadata_error {
        let a = concat3("staged output is missing or inaccessible: ", p.display.as_str(), " (");
        return Err(concat3(a.as_str(), e.as_str(), ")"));
    }
    if !p.is_dir || p.is_symlink {
        return Err(concat2("staged output must be a real directory: ", p.display.as_str()));
    }
    let pd = match &p.parent_display {
        None => return Err(concat2("staged output has no parent: ", p.display.as_str())),
        Some(pd) => pd,
    };
    let cp = match &p.canonical_parent {
        Err(e) => {
            let a = concat3("cannot resolve staged output parent ", pd.as_str(), ": ");
            return Err(concat2(a.as_str(), e.as_str()));
        },
        Ok(cp) => cp,
    };
    let ct = match &p.canonical_temp {
        Err(e) => {
            let a = concat3("cannot resolve owned temporary directory ", p.temp_display.as_str(), ": ");
            return Err(concat2(a.as_str(), e.as_str()));
        },
        Ok(ct) => ct,
    };
    if crate::path_policy::paths_equal(cp, ct, false) {
        Ok(())
    } else {
        Err(concat2(
            "staged output must be a direct child of its owned temporary directory: ",
            p.display.as_str(),
        ))
    }
}

/// The failure to create the temporary work directory.
pub fn temp_create_failure(temp_display: &str, error: &str) -> (r: String)
    ensures
        r@ == "failed to create temporary work directory: "@ + temp_display@ + " ("@ + error@ + ")"@,
{
    let a = concat3("failed to create temporary work directory: ", temp_display, " (");
    concat3(a.as_str(), error, ")")
}

/// The failure to write the ownership marker.
pub fn marker_write_failure(marker_display: &str, error: &str) -> (r: String)
    ensures
        r@ == "failed to write ownership marker: "@ + marker_display@ + " ("@ + error@ + ")"@,
{
    let a = concat3("failed to write ownership marker: ", marker_display, " (");
    concat3(a.as_str(), error, ")")
}

/// The failure to write a checkpoint.
pub fn checkpoint_write_failure(error: &str) -> (r: String)
    ensures
        r@ == "failed to write checkpoint: "@ + error@,
{
    concat2("failed to write checkpoint: ", error)
}

} // verus!
