//! Task I/O path safety: safe task ids, lexical path normalization, and the
//! rules that keep a task's output apart from its input.
//!
//! Paths are modelled by their components: the root they start at (empty
//! for a relative path, `/` or a drive prefix otherwise) and the names
//! below it. The caller reads the file system and hands the facts in.

use crate::text::{chars_end_with, chars_equal, chars_of, concat2, ends_with, lower_chars, lower_seq, str_eq};
use vstd::prelude::*;

verus! {

/// A path as its root and its components.
#[derive(Debug, Clone)]
pub struct PathParts {
    pub root: String,
    pub parts: Vec<String>,
}

impl PathParts {
    /// The components, each as its characters.
    pub open spec fn comps(&self) -> Seq<Seq<char>> {
        Seq::new(self.parts@.len(), |i: int| self.parts@[i]@)
    }
}

/// Two components are the same name (ASCII case folded when `fold`).
pub open spec fn comp_eq(x: Seq<char>, y: Seq<char>, fold: bool) -> bool {
    if fold {
        lower_seq(x) == lower_seq(y)
    } else {
        x == y
    }
}

/// Two paths, given by root and components, are the same path.
pub open spec fn same_path(
    ra: Seq<char>,
    pa: Seq<Seq<char>>,
    rb: Seq<char>,
    pb: Seq<Seq<char>>,
    fold: bool,
) -> bool {
    &&& comp_eq(ra, rb, fold)
    &&& pa.len() == pb.len()
    &&& forall|i: int| 0 <= i < pa.len() ==> comp_eq(#[trigger] pa[i], pb[i], fold)
}

/// `child` lies strictly below `parent`: some proper ancestor of `child`
/// (a prefix of its components under the same root) is `parent`.
pub open spec fn strictly_below(
    rp: Seq<char>,
    pp: Seq<Seq<char>>,
    rc: Seq<char>,
    pc: Seq<Seq<char>>,
    fold: bool,
) -> bool {
    &&& !same_path(rp, pp, rc, pc, fold)
    &&& exists|k: int| 0 <= k < pc.len() && #[trigger] same_path(rp, pp, rc, pc.take(k), fold)
}

/// Is `a` the same name as `b` (ASCII case folded when `fold`)?
pub fn names_equal(a: &str, b: &str, fold: bool) -> (r: bool)
    ensures
        r == comp_eq(a@, b@, fold),
{
    if !fold {
        return str_eq(a, b);
    }
    let x = lower_chars(&chars_of(a));
    let y = lower_chars(&chars_of(b));
    chars_equal(&x, &y)
}

/// Is `a` the path made of the root of `b` and its first `k` components?
fn equals_prefix(a: &PathParts, b: &PathParts, k: usize, fold: bool) -> (r: bool)
    requires
        k <= b.parts@.len(),
    ensures
        r == same_path(a.root@, a.comps(), b.root@, b.comps().take(k as int), fold),
{
    if !names_equal(a.root.as_str(), b.root.as_str(), fold) {
        return false;
    }
    if a.parts.len() != k {
        return false;
    }
    let mut i: usize = 0;
    while i < k
        invariant
            k <= b.parts@.len(),
            a.parts@.len() == k,
            i <= k,
            forall|j: int| 0 <= j < i ==> comp_eq(a.comps()[j], b.comps()[j], fold),
        decreases k - i,
    {
        if !names_equal(a.parts[i].as_str(), b.parts[i].as_str(), fold) {
            assert(!comp_eq(a.comps()[i as int], b.comps().take(k as int)[i as int], fold));
            return false;
        }
        i += 1;
    }
    assert forall|j: int| 0 <= j < a.comps().len() implies comp_eq(
        #[trigger] a.comps()[j],
        b.comps().take(k as int)[j],
        fold,
    ) by {}
    true
}

/// Are the two paths the same path (component by component, ASCII case
/// folded when `fold`, as on a case-insensitive file system)?
pub fn paths_equal(a: &PathParts, b: &PathParts, fold: bool) -> (r: bool)
    ensures
        r == same_path(a.root@, a.comps(), b.root@, b.comps(), fold),
{
    let r = equals_prefix(a, b, b.parts.len(), fold);
    assert(b.comps().take(b.parts@.len() as int) =~= b.comps());
    r
}

/// True if `child` is strictly inside `parent` (not equal to it).
pub fn is_strict_descendant(parent: &PathParts, child: &PathParts, fold: bool) -> (r: bool)
    ensures
        r == strictly_below(parent.root@, parent.comps(), child.root@, child.comps(), fold),
{
    if paths_equal(parent, child, fold) {
        return false;
    }
    let mut k: usize = child.parts.len();
    while k > 0
        invariant
            k <= child.parts@.len(),
            !same_path(parent.root@, parent.comps(), child.root@, child.comps(), fold),
            forall|j: int|
                k <= j < child.parts@.len() ==> !#[trigger] same_path(
                    parent.root@,
                    parent.comps(),
                    child.root@,
                    child.comps().take(j),
                    fold,
                ),
        decreases k,
    {
        k -= 1;
        if equals_prefix(parent, child, k, fold) {
            return true;
        }
    }
    false
}

/// A path never lies strictly below itself, and two paths never lie
/// strictly below each other.
pub proof fn lemma_strictly_below_asymmetric(
    ra: Seq<char>,
    pa: Seq<Seq<char>>,
    rb: Seq<char>,
    pb: Seq<Seq<char>>,
    fold: bool,
)
    ensures
        !strictly_below(ra, pa, ra, pa, fold),
        strictly_below(ra, pa, rb, pb, fold) ==> !strictly_below(rb, pb, ra, pa, fold),
{
    assert(same_path(ra, pa, ra, pa, fold));
    if strictly_below(ra, pa, rb, pb, fold) {
        let k = choose|k: int| 0 <= k < pb.len() && #[trigger] same_path(ra, pa, rb, pb.take(k), fold);
        assert(pa.len() < pb.len());
        if strictly_below(rb, pb, ra, pa, fold) {
            let j = choose|j: int| 0 <= j < pa.len() && #[trigger] same_path(rb, pb, ra, pa.take(j), fold);
            assert(pb.len() < pa.len());
        }
    }
}

/// Lying strictly below is transitive.
pub proof fn lemma_strictly_below_transitive(
    ra: Seq<char>,
    pa: Seq<Seq<char>>,
    rb: Seq<char>,
    pb: Seq<Seq<char>>,
    rc: Seq<char>,
    pc: Seq<Seq<char>>,
    fold: bool,
)
    requires
        strictly_below(ra, pa, rb, pb, fold),
        strictly_below(rb, pb, rc, pc, fold),
    ensures
        strictly_below(ra, pa, rc, pc, fold),
{
    let k1 = choose|k: int| 0 <= k < pb.len() && #[trigger] same_path(ra, pa, rb, pb.take(k), fold);
    let k2 = choose|k: int| 0 <= k < pc.len() && #[trigger] same_path(rb, pb, rc, pc.take(k), fold);
    let t = pc.take(k1);
    assert forall|i: int| 0 <= i < pa.len() implies comp_eq(#[trigger] pa[i], t[i], fold) by {
        assert(comp_eq(pa[i], pb.take(k1)[i], fold));
        assert(comp_eq(pb[i], pc.take(k2)[i], fold));
    }
    assert(same_path(ra, pa, rc, pc.take(k1), fold));
    assert(pa.len() < pc.len());
}

/// One component is allowed in a task id: ASCII letters and digits, `-`
/// and `_`.
pub open spec fn task_id_char_ok(c: char) -> bool {
    ||| ('0' <= c && c <= '9')
    ||| ('a' <= c && c <= 'z')
    ||| ('A' <= c && c <= 'Z')
    ||| c == '-'
    ||| c == '_'
}

/// The outcome of checking a task id.
pub open spec fn task_id_check(id: Seq<char>) -> Result<(), Seq<char>> {
    if id.len() == 0 || vstd::utf8::encode_utf8(id).len() > 128 {
        Err("invalid taskId"@)
    } else if exists|i: int| 0 <= i < id.len() && !task_id_char_ok(#[trigger] id[i]) {
        Err("invalid taskId (path unsafe): "@ + id)
    } else {
        Ok(())
    }
}

/// A task id is safe to use in a directory name: non-empty, at most 128
/// bytes, and made only of ASCII letters, digits, `-` and `_` (so it holds
/// no separator, dot or drive colon).
pub fn validate_task_id(task_id: &str) -> (r: Result<(), String>)
    ensures
        match (r, task_id_check(task_id@)) {
            (Ok(()), Ok(())) => true,
            (Err(e), Err(m)) => e@ == m,
            _ => false,
        },
{
    let nbytes = task_id.as_bytes().len();
    if task_id.is_empty() || nbytes > 128 {
        return Err("invalid taskId".to_owned());
    }
    let chars = chars_of(task_id);
    let mut i: usize = 0;
    while i < chars.len()
        invariant
            chars@ == task_id@,
            task_id@.len() > 0,
            vstd::utf8::encode_utf8(task_id@).len() <= 128,
            i <= chars@.len(),
            forall|j: int| 0 <= j < i ==> task_id_char_ok(#[trigger] chars@[j]),
        decreases chars.len() - i,
    {
        let c = chars[i];
        let ok = ('0' <= c && c <= '9') || ('a' <= c && c <= 'z') || ('A' <= c && c <= 'Z') || c
            == '-' || c == '_';
        if !ok {
            assert(!task_id_char_ok(task_id@[i as int]));
            return Err(concat2("invalid taskId (path unsafe): ", task_id));
        }
        i += 1;
    }
    Ok(())
}

/// The paths of a task after validation.
#[derive(Debug, Clone)]
pub struct ValidatedPaths {
    pub input_root: PathParts,
    pub output: PathParts,
    pub task_id: String,
}

/// What the file system says of the input path.
pub enum InputProbe {
    /// Nothing exists there.
    Missing,
    /// It exists but could not be canonicalized; the message says why.
    Unresolved { message: String },
    /// It is (canonically) this file, displayed as `display`.
    File { path: PathParts, display: String },
    /// It is (canonically) this directory or other non-file entry.
    Directory { path: PathParts },
}

/// The last component of a path, or nothing for a bare root.
pub open spec fn file_name(p: Seq<Seq<char>>) -> Seq<char> {
    if p.len() == 0 {
        Seq::empty()
    } else {
        p.last()
    }
}

/// A file accepted as naming its data root: `tileset.json`, any `.json`,
/// or `metadata.xml` (ASCII case-insensitively).
pub open spec fn is_root_marker_name(name: Seq<char>) -> bool {
    let n = lower_seq(name);
    n == "tileset.json"@ || ends_with(n, ".json"@) || n == "metadata.xml"@
}

/// The data root of the input as root and components, or why there is
/// none.
pub open spec fn input_root_of(input_display: Seq<char>, probe: InputProbe) -> Result<
    (Seq<char>, Seq<Seq<char>>),
    Seq<char>,
> {
    match probe {
        InputProbe::Missing => Err("input does not exist: "@ + input_display),
        InputProbe::Unresolved { message } => Err(message@),
        InputProbe::Directory { path } => Ok((path.root@, path.comps())),
        InputProbe::File { path, display } => if is_root_marker_name(file_name(path.comps())) {
            Ok((path.root@, path.comps().drop_last()))
        } else {
            Err("input must be a directory or tileset.json, got file: "@ + display@)
        },
    }
}

/// The data root of the input: the directory itself, or the parent of a
/// tileset / metadata file.
pub fn resolve_input_root(input_display: &str, probe: InputProbe) -> (r: Result<PathParts, String>)
    ensures
        match (r, input_root_of(input_display@, probe)) {
            (Ok(p), Ok((root, comps))) => p.root@ == root && p.comps() == comps,
            (Err(e), Err(m)) => e@ == m,
            _ => false,
        },
{
    match probe {
        InputProbe::Missing => Err(concat2("input does not exist: ", input_display)),
        InputProbe::Unresolved { message } => Err(message),
        InputProbe::Directory { path } => Ok(path),
        InputProbe::File { path, display } => {
            let n = path.parts.len();
            let marker = if n == 0 {
                false
            } else {
                let name = lower_chars(&chars_of(path.parts[n - 1].as_str()));
                let a = chars_of("tileset.json");
                let b = chars_of(".json");
                let c = chars_of("metadata.xml");
                chars_equal(&name, &a) || chars_end_with(&name, &b)
                    || chars_equal(&name, &c)
            };
            proof {
                if n == 0 {
                    reveal_strlit("tileset.json");
                    reveal_strlit("metadata.xml");
                    reveal_strlit(".json");
                    assert(file_name(path.comps()) =~= Seq::<char>::empty());
                    assert(lower_seq(Seq::<char>::empty()) =~= Seq::<char>::empty());
                } else {
                    assert(file_name(path.comps()) == path.parts@[n - 1]@);
                }
            }
            if marker {
                let mut parts = path.parts;
                parts.pop();
                let r = PathParts { root: path.root, parts };
                assert(r.comps() =~= path.comps().drop_last());
                Ok(r)
            } else {
                Err(concat2("input must be a directory or tileset.json, got file: ", display.as_str()))
            }
        },
    }
}

/// The components of `p` with `.` dropped and `..` removing the component
/// before it (lexically, as `PathBuf::pop` does; nothing is popped above
/// the root).
pub open spec fn fold_dots(p: Seq<Seq<char>>) -> Seq<Seq<char>>
    decreases p.len(),
{
    if p.len() == 0 {
        Seq::empty()
    } else {
        let prev = fold_dots(p.drop_last());
        let c = p.last();
        if c == "."@ {
            prev
        } else if c == ".."@ {
            if prev.len() == 0 {
                prev
            } else {
                prev.drop_last()
            }
        } else {
            prev.push(c)
        }
    }
}

/// Lexical normalization: `.` components vanish and `..` pops the
/// component before it; the root is kept.
pub fn normalize_dots(path: &PathParts) -> (r: PathParts)
    ensures
        r.root@ == path.root@,
        r.comps() == fold_dots(path.comps()),
{
    let mut out: Vec<String> = Vec::new();
    let mut i: usize = 0;
    while i < path.parts.len()
        invariant
            i <= path.parts@.len(),
            Seq::new(out@.len(), |j: int| out@[j]@) == fold_dots(path.comps().take(i as int)),
        decreases path.parts.len() - i,
    {
        let ghost before = Seq::new(out@.len(), |j: int| out@[j]@);
        let c = path.parts[i].as_str();
        let ghost t = path.comps().take(i as int + 1);
        assert(t.drop_last() =~= path.comps().take(i as int));
        assert(t.last() == c@);
        if str_eq(c, ".") {
        } else if str_eq(c, "..") {
            if out.len() > 0 {
                out.pop();
                assert(Seq::new(out@.len(), |j: int| out@[j]@) =~= before.drop_last());
            }
        } else {
            out.push(c.to_owned());
            assert(Seq::new(out@.len(), |j: int| out@[j]@) =~= before.push(c@));
        }
        i += 1;
    }
    assert(path.comps().take(path.parts@.len() as int) =~= path.comps());
    let r = PathParts { root: path.root.clone(), parts: out };
    assert(r.comps() =~= Seq::new(r.parts@.len(), |j: int| r.parts@[j]@));
    r
}

/// A path that does not exist yet, resolved against its deepest existing
/// ancestor: the canonical form `base` of the ancestor made of the first
/// `existing` components of `path`, followed by the remaining components.
pub fn reattach_missing(base: PathParts, path: &PathParts, existing: usize) -> (r: PathParts)
    requires
        existing <= path.parts@.len(),
    ensures
        r.root@ == base.root@,
        r.comps() == base.comps() + path.comps().skip(existing as int),
{
    let mut parts = base.parts;
    let ghost b = base.comps();
    let mut i: usize = existing;
    while i < path.parts.len()
        invariant
            existing <= i <= path.parts@.len(),
            Seq::new(parts@.len(), |j: int| parts@[j]@) == b + path.comps().subrange(
                existing as int,
                i as int,
            ),
        decreases path.parts.len() - i,
    {
        let ghost before = Seq::new(parts@.len(), |j: int| parts@[j]@);
        parts.push(path.parts[i].clone());
        assert(Seq::new(parts@.len(), |j: int| parts@[j]@) =~= before.push(path.comps()[i as int]));
        assert(path.comps().subrange(existing as int, i + 1) =~= path.comps().subrange(
            existing as int,
            i as int,
        ).push(path.comps()[i as int]));
        i += 1;
    }
    assert(path.comps().subrange(existing as int, path.parts@.len() as int) =~= path.comps().skip(
        existing as int,
    ));
    PathParts { root: base.root, parts }
}

/// What normalizing the output path gave.
pub enum OutputProbe {
    /// It could not be normalized; the message says why.
    Unresolved { message: String },
    /// Its normal form, how it displays, and whether something exists there.
    Resolved { path: PathParts, display: String, exists: bool },
}

/// Why `validate_io_paths` refuses, if it does: the first failing check
/// in order (task id, input root, output normalization, equal, inside,
/// around, already present).
pub open spec fn io_paths_error(
    task_id: Seq<char>,
    input_display: Seq<char>,
    input: InputProbe,
    output: OutputProbe,
    fold: bool,
) -> Option<Seq<char>> {
    match task_id_check(task_id) {
        Err(m) => Some(m),
        Ok(()) => match input_root_of(input_display, input) {
            Err(e) => Some(e),
            Ok((ir, ic)) => match output {
                OutputProbe::Unresolved { message } => Some(message@),
                OutputProbe::Resolved { path, display, exists } => {
                    if same_path(ir, ic, path.root@, path.comps(), fold) {
                        Some("output path must not equal input data root"@)
                    } else if strictly_below(ir, ic, path.root@, path.comps(), fold) {
                        Some("output path must not be inside input data root"@)
                    } else if strictly_below(path.root@, path.comps(), ir, ic, fold) {
                        Some("output path must not contain the input data root"@)
                    } else if exists {
                        Some("output already exists (V1 does not overwrite): "@ + display@)
                    } else {
                        None
                    }
                },
            },
        },
    }
}

/// Check a task's paths: a safe task id, a resolvable input data root, and
/// an output that is neither the input root, inside it, around it, nor
/// already present.
pub fn validate_io_paths(
    input_display: &str,
    input: InputProbe,
    output: OutputProbe,
    task_id: &str,
    fold: bool,
) -> (r: Result<ValidatedPaths, String>)
    ensures
        match (r, io_paths_error(task_id@, input_display@, input, output, fold)) {
            (Err(e), Some(m)) => e@ == m,
            (Ok(v), None) => {
                &&& v.task_id@ == task_id@
                &&& input_root_of(input_display@, input) == Ok::<
                    (Seq<char>, Seq<Seq<char>>),
                    Seq<char>,
                >((v.input_root.root@, v.input_root.comps()))
                &&& output matches OutputProbe::Resolved { path, .. } && v.output.root@
                    == path.root@ && v.output.comps() == path.comps()
            },
            _ => false,
        },
{
    match validate_task_id(task_id) {
        Err(e) => return Err(e),
        Ok(()) => {},
    }
    let input_root = match resolve_input_root(input_display, input) {
        Err(e) => return Err(e),
        Ok(p) => p,
    };
    let (output_n, display, exists) = match output {
        OutputProbe::Unresolved { message } => return Err(message),
        OutputProbe::Resolved { path, display, exists } => (path, display, exists),
    };
    if paths_equal(&input_root, &output_n, fold) {
        return Err("output path must not equal input data root".to_owned());
    }
    if is_strict_descendant(&input_root, &output_n, fold) {
        return Err("output path must not be inside input data root".to_owned());
    }
    if is_strict_descendant(&output_n, &input_root, fold) {
        return Err("output path must not contain the input data root".to_owned());
    }
    if exists {
        return Err(concat2("output already exists (V1 does not overwrite): ", display.as_str()));
    }
    Ok(ValidatedPaths { input_root, output: output_n, task_id: task_id.to_owned() })
}

/// An accepted task writes somewhere that is neither its input data root,
/// inside it, around it, nor already present: for every task id, input and
/// output that `validate_io_paths` accepts.
pub proof fn lemma_accepted_output_is_disjoint(
    task_id: Seq<char>,
    input_display: Seq<char>,
    input: InputProbe,
    output: OutputProbe,
    fold: bool,
)
    requires
        io_paths_error(task_id, input_display, input, output, fold) is None,
    ensures
        task_id_check(task_id) is Ok,
        input_root_of(input_display, input) is Ok,
        output matches OutputProbe::Resolved { path, exists, .. } && !exists && ({
            let (ir, ic) = input_root_of(input_display, input)->Ok_0;
            &&& !same_path(ir, ic, path.root@, path.comps(), fold)
            &&& !strictly_below(ir, ic, path.root@, path.comps(), fold)
            &&& !strictly_below(path.root@, path.comps(), ir, ic, fold)
        }),
{
}

} // verus!
