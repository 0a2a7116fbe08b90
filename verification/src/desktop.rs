//! Decisions of the desktop shell's commands and local resource server:
//! settings defaults, command argument defaults, preview URLs, byte-range
//! requests and the path rules for serving artifact files.

use crate::numbers::{parse_u64, parse_uint_upto};
use crate::path_policy::PathParts;
use crate::util::paths_view;
use crate::text::{chars_of, concat2, concat3, dec_chars, dec_string, starts_with, str_eq};
use crate::validation::{char_index_from, split_on};
use vstd::prelude::*;

verus! {

/// Settings of the desktop app.
#[derive(Debug, Clone)]
pub struct AppSettings {
    pub default_output_root: String,
    pub default_rebuild_top: bool,
    pub default_rebuild_levels: i32,
    pub default_texture_compress: bool,
    pub default_convert_threads: i32,
    /// Base URL of the Python desktop server.
    pub python_server_url: String,
    /// Preferred resource server port (0 picks a free one).
    pub resource_server_port: u16,
}

/// Texture compression is off unless chosen.
pub fn default_texture_compress() -> (r: bool)
    ensures
        !r,
{
    false
}

/// The converter runs with one worker unless chosen otherwise.
pub fn default_convert_threads() -> (r: i32)
    ensures
        r == 1,
{
    1
}

impl Default for AppSettings {
    fn default() -> (r: Self)
        ensures
            r.default_output_root@.len() == 0,
            r.default_rebuild_top,
            r.default_rebuild_levels == 1,
            !r.default_texture_compress,
            r.default_convert_threads == 1,
            r.python_server_url@ == "http://127.0.0.1:8787"@,
            r.resource_server_port == 0,
    {
        AppSettings {
            default_output_root: String::new(),
            default_rebuild_top: true,
            default_rebuild_levels: 1,
            default_texture_compress: default_texture_compress(),
            default_convert_threads: default_convert_threads(),
            python_server_url: "http://127.0.0.1:8787".to_owned(),
            resource_server_port: 0,
        }
    }
}

/// A path given either as a bare string or as an object with a `path`.
#[derive(Debug, Clone)]
pub enum PathOrObject {
    Str(String),
    Obj { path: String },
}

impl PathOrObject {
    /// The path, however it was given.
    pub fn path(&self) -> (r: String)
        ensures
            r@ == match self {
                PathOrObject::Str(s) => s@,
                PathOrObject::Obj { path } => path@,
            },
    {
        match self {
            PathOrObject::Str(s) => s.clone(),
            PathOrObject::Obj { path } => path.clone(),
        }
    }
}

/// Filter of the task list.
#[derive(Debug, Clone, Default)]
pub struct ListTasksFilter {
    pub status: Option<String>,
}

/// Arguments of an artifact registration.
#[derive(Debug, Clone)]
pub struct RegisterArtifactArgs {
    pub path: String,
    pub task_id: Option<String>,
    pub kind: Option<String>,
    pub label: Option<String>,
}

impl RegisterArtifactArgs {
    /// The kind registered: `3dtiles` unless given.
    pub fn kind_or_default(&self) -> (r: String)
        ensures
            r@ == match self.kind {
                Some(k) => k@,
                None => "3dtiles"@,
            },
    {
        match &self.kind {
            Some(k) => k.clone(),
            None => "3dtiles".to_owned(),
        }
    }

    /// The label registered: empty unless given.
    pub fn label_or_default(&self) -> (r: String)
        ensures
            r@ == match self.label {
                Some(l) => l@,
                None => ""@,
            },
    {
        proof {
            reveal_strlit("");
        }
        match &self.label {
            Some(l) => l.clone(),
            None => String::new(),
        }
    }
}

/// The name of a submitted task: its task name, else its name, else empty.
pub fn submitted_task_name(task_name: Option<String>, name: Option<String>) -> (r: String)
    ensures
        r@ == match task_name {
            Some(t) => t@,
            None => match name {
                Some(n) => n@,
                None => Seq::<char>::empty(),
            },
        },
{
    match task_name {
        Some(t) => t,
        None => match name {
            Some(n) => n,
            None => String::new(),
        },
    }
}

/// The refusal of a submission whose paths fail the path rules.
pub fn path_check_failure(e: &str) -> (r: String)
    ensures
        r@ == "路径校验失败: "@ + e@,
{
    concat2("路径校验失败: ", e)
}

/// The refusal of a submission when no processor can be found: the
/// desktop never falls back to another task service.
pub const NO_PROCESSOR_MESSAGE: &'static str = "找不到 processor 组件，无法创建任务。请修复安装或设置环境变量 GEOFORGE_PROCESSOR。";

/// Before a task is created: without a processor the submission fails with
/// an explicit message; with one, it fails exactly when the path rules
/// refuse its paths.
pub fn submit_precheck(processor_found: bool, path_check: Result<(), String>) -> (r: Result<(), String>)
    ensures
        !processor_found ==> (r matches Err(e) && e@ == NO_PROCESSOR_MESSAGE@),
        processor_found ==> (r is Ok <==> path_check is Ok),
        processor_found ==> (path_check matches Err(p) ==> (r matches Err(e) && e@ == "路径校验失败: "@
            + p@)),
{
    if !processor_found {
        return Err(NO_PROCESSOR_MESSAGE.to_owned());
    }
    match path_check {
        Ok(()) => Ok(()),
        Err(p) => Err(path_check_failure(p.as_str())),
    }
}

/// A path as its root and components.
pub open spec fn path_view(p: PathParts) -> (Seq<char>, Seq<Seq<char>>) {
    (p.root@, p.comps())
}

/// The path `p` with the components `rel` appended.
pub open spec fn path_under(p: PathParts, rel: Seq<Seq<char>>) -> (Seq<char>, Seq<Seq<char>>) {
    (p.root@, p.comps() + rel)
}

/// The components of a relative path, as text.
pub open spec fn rel_view(rel: Seq<&str>) -> Seq<Seq<char>> {
    Seq::new(rel.len(), |i: int| rel[i]@)
}

/// The build outputs of the repository at `a`, debug before release.
pub open spec fn build_outputs(a: (Seq<char>, Seq<Seq<char>>)) -> Seq<(Seq<char>, Seq<Seq<char>>)> {
    seq![
        (a.0, a.1 + seq!["target"@, "debug"@, "processor"@]),
        (a.0, a.1 + seq!["target"@, "debug"@, "processor.exe"@]),
        (a.0, a.1 + seq!["target"@, "release"@, "processor"@]),
        (a.0, a.1 + seq!["target"@, "release"@, "processor.exe"@]),
    ]
}

/// The processor beside the desktop executable in `d`, then the builds
/// three directories up from it, debug before release.
pub open spec fn beside_exe(d: PathParts) -> Seq<(Seq<char>, Seq<Seq<char>>)> {
    seq![path_under(d, seq!["processor"@]), path_under(d, seq!["processor.exe"@])] + build_outputs(
        path_under(d, seq![".."@, ".."@, ".."@]),
    )
}

/// How many ancestors of a directory with `n` components are searched: the
/// directory itself and its parents, at most eight.
pub open spec fn ancestors_searched(n: int) -> int {
    if n + 1 < 8 {
        n + 1
    } else {
        8
    }
}

/// The builds under the first `k` ancestors of `c`, nearest first.
pub open spec fn ancestor_builds(c: PathParts, k: int) -> Seq<(Seq<char>, Seq<Seq<char>>)>
    decreases k,
{
    if k <= 0 {
        Seq::empty()
    } else {
        ancestor_builds(c, k - 1) + build_outputs((c.root@, c.comps().take(c.comps().len() - (k - 1))))
    }
}

/// Where the desktop looks for the processor, in order: the
/// `GEOFORGE_PROCESSOR` path; `processor` and `processor.exe` beside the
/// executable, then the builds three directories above it; then the builds
/// under the working directory and up to seven of its parents.
pub open spec fn processor_candidates_of(
    env_path: Option<PathParts>,
    exe_dir: Option<PathParts>,
    cwd: Option<PathParts>,
) -> Seq<(Seq<char>, Seq<Seq<char>>)> {
    (match env_path {
        Some(p) => seq![path_view(p)],
        None => Seq::empty(),
    }) + (match exe_dir {
        Some(d) => beside_exe(d),
        None => Seq::empty(),
    }) + (match cwd {
        Some(c) => ancestor_builds(c, ancestors_searched(c.comps().len() as int)),
        None => Seq::empty(),
    })
}

fn join_rel(dir: &PathParts, rel: &Vec<&str>) -> (r: PathParts)
    ensures
        path_view(r) == path_under(*dir, rel_view(rel@)),
{
    let mut p = PathParts { root: dir.root.clone(), parts: dir.parts.clone() };
    assert(p.comps() =~= dir.comps());
    let mut i: usize = 0;
    while i < rel.len()
        invariant
            i <= rel@.len(),
            p.root@ == dir.root@,
            p.comps() == dir.comps() + rel_view(rel@).take(i as int),
        decreases rel.len() - i,
    {
        p = crate::convert::join_one(&p, rel[i]);
        assert(rel_view(rel@).take(i + 1) =~= rel_view(rel@).take(i as int).push(rel@[i as int]@));
        i += 1;
    }
    assert(rel_view(rel@).take(rel@.len() as int) =~= rel_view(rel@));
    p
}

fn push_build_outputs(out: &mut Vec<PathParts>, a: &PathParts)
    ensures
        paths_view(final(out)@) == paths_view(old(out)@) + build_outputs(path_view(*a)),
{
    let ghost before = paths_view(out@);
    let subs = [vec!["target", "debug", "processor"], vec!["target", "debug", "processor.exe"], vec![
        "target",
        "release",
        "processor",
    ], vec!["target", "release", "processor.exe"]];
    let mut j: usize = 0;
    while j < 4
        invariant
            j <= 4,
            subs@.len() == 4,
            rel_view(subs@[0]@) == seq!["target"@, "debug"@, "processor"@],
            rel_view(subs@[1]@) == seq!["target"@, "debug"@, "processor.exe"@],
            rel_view(subs@[2]@) == seq!["target"@, "release"@, "processor"@],
            rel_view(subs@[3]@) == seq!["target"@, "release"@, "processor.exe"@],
            paths_view(out@) == before + build_outputs(path_view(*a)).take(j as int),
        decreases 4 - j,
    {
        let c = join_rel(a, &subs[j]);
        let ghost mid = paths_view(out@);
        out.push(c);
        assert(paths_view(out@) =~= mid.push(path_view(c)));
        assert(build_outputs(path_view(*a)).take(j + 1) =~= build_outputs(path_view(*a)).take(j as int).push(
            path_view(c),
        ));
        j += 1;
    }
    assert(build_outputs(path_view(*a)).take(4) =~= build_outputs(path_view(*a)));
}

/// The paths where the desktop looks for the processor, in order (see
/// `processor_candidates_of`); the first that is a file is used.
pub fn processor_candidates(env_path: Option<PathParts>, exe_dir: Option<PathParts>, cwd: Option<PathParts>) -> (r:
    Vec<PathParts>)
    ensures
        paths_view(r@) == processor_candidates_of(env_path, exe_dir, cwd),
{
    let ghost e0 = env_path;
    let ghost d0 = exe_dir;
    let ghost c0 = cwd;
    let mut out: Vec<PathParts> = Vec::new();
    match env_path {
        Some(p) => {
            out.push(p);
        },
        None => {},
    }
    let ghost first = paths_view(out@);
    assert(first =~= match e0 {
        Some(p) => seq![path_view(p)],
        None => Seq::empty(),
    });
    match &exe_dir {
        Some(d) => {
            let r1: Vec<&str> = vec!["processor"];
            let r2: Vec<&str> = vec!["processor.exe"];
            let r3: Vec<&str> = vec!["..", "..", ".."];
            assert(rel_view(r1@) =~= seq!["processor"@]);
            assert(rel_view(r2@) =~= seq!["processor.exe"@]);
            assert(rel_view(r3@) =~= seq![".."@, ".."@, ".."@]);
            let a = join_rel(d, &r1);
            let b = join_rel(d, &r2);
            out.push(a);
            out.push(b);
            assert(paths_view(out@) =~= first + seq![path_view(a), path_view(b)]);
            let up = join_rel(d, &r3);
            push_build_outputs(&mut out, &up);
            assert(paths_view(out@) =~= first + beside_exe(*d));
        },
        None => {
            assert(paths_view(out@) =~= first + Seq::empty());
        },
    }
    let ghost second = paths_view(out@);
    match &cwd {
        Some(c) => {
            let n = c.parts.len();
            let count: usize = if n < 7 { n + 1 } else { 8 };
            let mut k: usize = 0;
            while k < count
                invariant
                    k <= count,
                    count as int == ancestors_searched(c.comps().len() as int),
                    n == c.parts@.len(),
                    count <= n + 1,
                    paths_view(out@) == second + ancestor_builds(*c, k as int),
                decreases count - k,
            {
                let keep = n - k;
                let mut parts: Vec<String> = Vec::new();
                let mut m: usize = 0;
                while m < keep
                    invariant
                        m <= keep <= c.parts@.len(),
                        Seq::new(parts@.len(), |x: int| parts@[x]@) == c.comps().take(m as int),
                    decreases keep - m,
                {
                    parts.push(c.parts[m].clone());
                    assert(c.comps().take(m + 1) =~= c.comps().take(m as int).push(c.parts@[m as int]@));
                    assert(Seq::new(parts@.len(), |x: int| parts@[x]@) =~= c.comps().take(m + 1));
                    m += 1;
                }
                let anc = PathParts { root: c.root.clone(), parts };
                assert(anc.comps() =~= c.comps().take(keep as int));
                push_build_outputs(&mut out, &anc);
                assert(second + ancestor_builds(*c, k + 1) =~= second + ancestor_builds(*c, k as int)
                    + build_outputs(path_view(anc)));
                k += 1;
            }
        },
        None => {
            assert(paths_view(out@) =~= second + Seq::empty());
        },
    }
    out
}

/// A cancel request ends a task at once when it has not started.
pub fn cancel_completes_now(status: &str, stage: &str) -> (r: bool)
    ensures
        r == (status@ == "queued"@ || stage@ == "queued"@),
{
    str_eq(status, "queued") || str_eq(stage, "queued")
}

/// How many log lines a task's log view shows: the requested count, 500 by
/// default.
pub fn log_tail_lines(tail: Option<usize>) -> (r: usize)
    ensures
        r == match tail {
            Some(t) => t,
            None => 500usize,
        },
{
    match tail {
        Some(t) => t,
        None => 500,
    }
}

/// `s` without its trailing `c` characters.
pub open spec fn trim_end_char(s: Seq<char>, c: char) -> Seq<char>
    decreases s.len(),
{
    if s.len() > 0 && s.last() == c {
        trim_end_char(s.drop_last(), c)
    } else {
        s
    }
}

pub fn trim_end_slashes(s: &str) -> (r: String)
    ensures
        r@ == trim_end_char(s@, '/'),
{
    let c = chars_of(s);
    let mut n = c.len();
    assert(c@.take(n as int) =~= c@);
    while n > 0 && c[n - 1] == '/'
        invariant
            n <= c.len(),
            trim_end_char(c@, '/') == trim_end_char(c@.take(n as int), '/'),
        decreases n,
    {
        assert(c@.take(n as int).drop_last() =~= c@.take(n - 1));
        n -= 1;
    }
    assert(n > 0 ==> c@.take(n as int).last() == c@[n - 1]);
    crate::text::string_of_range(s, &c, 0, n)
}

/// `s` without its trailing newlines.
pub fn trim_end_newlines(s: &str) -> (r: String)
    ensures
        r@ == trim_end_char(s@, '\n'),
{
    let c = chars_of(s);
    let mut n = c.len();
    assert(c@.take(n as int) =~= c@);
    while n > 0 && c[n - 1] == '\n'
        invariant
            n <= c.len(),
            trim_end_char(c@, '\n') == trim_end_char(c@.take(n as int), '\n'),
        decreases n,
    {
        assert(c@.take(n as int).drop_last() =~= c@.take(n - 1));
        n -= 1;
    }
    assert(n > 0 ==> c@.take(n as int).last() == c@[n - 1]);
    crate::text::string_of_range(s, &c, 0, n)
}

/// The URL the viewer loads an artifact's tileset from.
pub fn preview_url(base_url: &str, artifact_id: &str) -> (r: String)
    ensures
        r@ == trim_end_char(base_url@, '/') + "/artifacts/"@ + artifact_id@ + "/tileset.json"@,
{
    let b = trim_end_slashes(base_url);
    concat3(concat2(b.as_str(), "/artifacts/").as_str(), artifact_id, "/tileset.json")
}

/// The tileset path of an artifact directory shown in the preview.
pub fn preview_tileset_path(path: &str) -> (r: String)
    ensures
        r@ == trim_end_char(path@, '/') + "/tileset.json"@,
{
    let b = trim_end_slashes(path);
    concat2(b.as_str(), "/tileset.json")
}

/// The refusal to preview an artifact without a tileset.
pub fn missing_tileset_error(path: &str) -> (r: String)
    ensures
        r@ == "tileset.json missing under "@ + path@,
{
    concat2("tileset.json missing under ", path)
}

/// The inclusive byte range a `Range: bytes=START-END` (or `START-`)
/// header asks of a file of `len` bytes, clipped to the file; `None` when
/// the header is not such a range or the range is empty or past the end.
pub open spec fn byte_range(header: Seq<char>, len: int) -> Option<(int, int)> {
    if !starts_with(header, "bytes="@) {
        None
    } else {
        let s = header.skip(6);
        match char_index_from(s, '-', 0) {
            None => None,
            Some(d) => {
                let last = if len > 0 {
                    len - 1
                } else {
                    0
                };
                match parse_uint_upto(s.take(d), u64::MAX as int) {
                    None => None,
                    Some(start) => {
                        let end_text = s.skip(d + 1);
                        let end = if end_text.len() == 0 {
                            Some(last)
                        } else {
                            parse_uint_upto(end_text, u64::MAX as int)
                        };
                        match end {
                            None => None,
                            Some(e) => if start > e || start >= len {
                                None
                            } else {
                                Some((start, if e < last { e } else { last }))
                            },
                        }
                    },
                }
            },
        }
    }
}

/// Parse a byte-range request header for a file of `len` bytes.
pub fn parse_bytes_range(header: &str, len: u64) -> (r: Option<(u64, u64)>)
    ensures
        match (r, byte_range(header@, len as int)) {
            (Some((a, b)), Some((x, y))) => a as int == x && b as int == y,
            (None, None) => true,
            _ => false,
        },
{
    proof {
        reveal_strlit("bytes=");
    }
    let c = chars_of(header);
    if !crate::text::chars_start_with(&c, &chars_of("bytes=")) {
        return None;
    }
    let s = crate::text::slice_chars(&c, 6, c.len());
    assert(s@ =~= header@.skip(6));
    let d = match crate::validation::find_char(&s, '-') {
        None => return None,
        Some(d) => d,
    };
    let last: u64 = if len > 0 {
        len - 1
    } else {
        0
    };
    let start_text = crate::text::slice_chars(&s, 0, d);
    assert(start_text@ =~= s@.take(d as int));
    let start = match parse_u64(crate::text::string_of_chars(&start_text).as_str()) {
        None => return None,
        Some(v) => v,
    };
    let end_text = crate::text::slice_chars(&s, d + 1, s.len());
    assert(end_text@ =~= s@.skip(d + 1));
    let end = if end_text.len() == 0 {
        last
    } else {
        match parse_u64(crate::text::string_of_chars(&end_text).as_str()) {
            None => return None,
            Some(v) => v,
        }
    };
    if start > end || start >= len {
        return None;
    }
    Some((start, if end < last { end } else { last }))
}

/// A range handed out always lies within the file and is not empty; a
/// header that does not start with `bytes=` asks for no range.
pub proof fn lemma_byte_range_within(header: Seq<char>, len: int)
    requires
        len >= 0,
    ensures
        byte_range(header, len) matches Some((s, e)) ==> 0 <= s <= e < len,
        !starts_with(header, "bytes="@) ==> byte_range(header, len) is None,
{
    if starts_with(header, "bytes="@) {
        let s = header.skip(6);
        if let Some(d) = char_index_from(s, '-', 0) {
            crate::numbers::lemma_uint_literal_nonneg(s.take(d));
        }
    }
}

/// A range header `bytes=S-E` with decimal `S` and `E` is granted exactly
/// when it is satisfiable (`S <= E` and `S` inside the file), and then
/// covers `S..=min(E, len - 1)`; an open-ended `bytes=S-` inside the file
/// runs to the last byte.
pub proof fn lemma_byte_range_granted(ds: Seq<char>, de: Seq<char>, len: int)
    requires
        ds.len() > 0,
        crate::numbers::all_digits(ds),
        de.len() > 0,
        crate::numbers::all_digits(de),
        crate::numbers::digits_value(ds) <= u64::MAX,
        crate::numbers::digits_value(de) <= u64::MAX,
        len >= 0,
    ensures
        ({
            let s = crate::numbers::digits_value(ds);
            let e = crate::numbers::digits_value(de);
            byte_range("bytes="@ + ds + "-"@ + de, len) == if s <= e && s < len {
                Some((s, if e < len - 1 { e } else { len - 1 }))
            } else {
                None
            }
        }),
        crate::numbers::digits_value(ds) < len ==> byte_range("bytes="@ + ds + "-"@, len) == Some(
            (crate::numbers::digits_value(ds), len - 1),
        ),
{
    reveal_strlit("bytes=");
    reveal_strlit("-");
    crate::numbers::lemma_digits_value_nonneg(ds);
    crate::numbers::lemma_digits_value_nonneg(de);
    let h = "bytes="@ + ds + "-"@ + de;
    let t = ds + "-"@ + de;
    assert(h.subrange(0, 6) =~= "bytes="@);
    assert(h.skip(6) =~= t);
    assert(t[ds.len() as int] == '-');
    assert forall|j: int| 0 <= j < ds.len() implies t[j] != '-' by {
        assert(t[j] == ds[j]);
        assert(crate::numbers::is_digit(ds[j]));
    }
    crate::validation::lemma_char_index_first(t, '-', 0, ds.len() as int);
    assert(t.take(ds.len() as int) =~= ds);
    assert(t.skip(ds.len() as int + 1) =~= de);
    assert(crate::numbers::is_digit(ds[0]));
    assert(crate::numbers::is_digit(de[0]));
    let h2 = "bytes="@ + ds + "-"@;
    let t2 = ds + "-"@;
    assert(h2.subrange(0, 6) =~= "bytes="@);
    assert(h2.skip(6) =~= t2);
    assert(t2[ds.len() as int] == '-');
    assert forall|j: int| 0 <= j < ds.len() implies t2[j] != '-' by {
        assert(t2[j] == ds[j]);
        assert(crate::numbers::is_digit(ds[j]));
    }
    crate::validation::lemma_char_index_first(t2, '-', 0, ds.len() as int);
    assert(t2.take(ds.len() as int) =~= ds);
    assert(t2.skip(ds.len() as int + 1).len() == 0);
}

/// How a file request is answered.
#[derive(Debug, Clone, PartialEq, Eq)]
pub enum ServePlan {
    /// The whole file (status 200).
    Full { length: u64 },
    /// The bytes `start..=end` (status 206) with this `Content-Range`.
    Partial { start: u64, end: u64, length: u64, content_range: String },
}

/// Answer a file of `len` bytes: the requested range when the `Range`
/// header parses to one, else the whole file.
pub fn serve_plan(len: u64, range_header: Option<&str>) -> (r: ServePlan)
    ensures
        match range_header {
            Some(h) => match byte_range(h@, len as int) {
                Some((s, e)) => r matches ServePlan::Partial { start, end, length, content_range } && start
                    == s && end == e && length == e - s + 1 && content_range@ == "bytes "@ + dec_chars(
                    s as nat,
                ) + "-"@ + dec_chars(e as nat) + "/"@ + dec_chars(len as nat),
                None => r == ServePlan::Full { length: len },
            },
            None => r == ServePlan::Full { length: len },
        },
{
    match range_header {
        Some(h) => match parse_bytes_range(h, len) {
            Some((start, end)) => {
                let a = concat3("bytes ", dec_string(start).as_str(), "-");
                let b = concat3(a.as_str(), dec_string(end).as_str(), "/");
                let cr = concat2(b.as_str(), dec_string(len).as_str());
                ServePlan::Partial { start, end, length: end - start + 1, content_range: cr }
            },
            None => ServePlan::Full { length: len },
        },
        None => ServePlan::Full { length: len },
    }
}

/// The HTTP status of a refused file request: 400 for path traversal, 404
/// otherwise.
pub fn refusal_status(error: &str) -> (r: u16)
    ensures
        r == if crate::text::contains(error@, "traversal"@) {
            400u16
        } else {
            404u16
        },
{
    if crate::text::str_contains(error, "traversal") {
        400
    } else {
        404
    }
}

/// The file a request path names inside an artifact, before it is
/// resolved on disk: leading slashes dropped, `tileset.json` when empty,
/// and refused when a component is `..`.
pub open spec fn request_rel_path(rel: Seq<char>) -> Result<Seq<char>, Seq<char>> {
    let r = crate::validation::strip_leading(rel, '/');
    let r = if r.len() == 0 {
        "tileset.json"@
    } else {
        r
    };
    if split_on(r, '/').contains(".."@) {
        Err("path traversal rejected"@)
    } else {
        Ok(r)
    }
}

/// Check a request path inside an artifact.
pub fn request_path(rel: &str) -> (r: Result<String, String>)
    ensures
        match (r, request_rel_path(rel@)) {
            (Ok(a), Ok(b)) => a@ == b,
            (Err(a), Err(b)) => a@ == b,
            _ => false,
        },
{
    let c = chars_of(rel);
    let mut i: usize = 0;
    assert(c@.skip(0) =~= c@);
    while i < c.len() && c[i] == '/'
        invariant
            i <= c.len(),
            c@ == rel@,
            crate::validation::strip_leading(rel@, '/') == crate::validation::strip_leading(
                c@.skip(i as int),
                '/',
            ),
        decreases c.len() - i,
    {
        assert(c@.skip(i as int).skip(1) =~= c@.skip(i + 1));
        i += 1;
    }
    let stripped = crate::text::slice_chars(&c, i, c.len());
    assert(stripped@ =~= c@.skip(i as int));
    let path: String = if stripped.len() == 0 {
        "tileset.json".to_owned()
    } else {
        crate::text::string_of_chars(&stripped)
    };
    let parts = crate::model::split_on_char(&chars_of(path.as_str()), '/');
    assert(request_rel_path(rel@) == if split_on(path@, '/').contains(".."@) {
        Err::<Seq<char>, Seq<char>>("path traversal rejected"@)
    } else {
        Ok(path@)
    });
    let mut k: usize = 0;
    while k < parts.len()
        invariant
            request_rel_path(rel@) == if split_on(path@, '/').contains(".."@) {
                Err::<Seq<char>, Seq<char>>("path traversal rejected"@)
            } else {
                Ok(path@)
            },
            k <= parts.len(),
            crate::model::vviews(parts@) == split_on(path@, '/'),
            forall|j: int| 0 <= j < k ==> parts@[j]@ != ".."@,
        decreases parts.len() - k,
    {
        if crate::text::chars_equal(&parts[k], &chars_of("..")) {
            assert(crate::model::vviews(parts@)[k as int] == ".."@);
            assert(split_on(path@, '/')[k as int] == ".."@);
            assert(split_on(path@, '/').contains(".."@));
            return Err("path traversal rejected".to_owned());
        }
        k += 1;
    }
    proof {
        if split_on(path@, '/').contains(".."@) {
            let j = choose|j: int| 0 <= j < split_on(path@, '/').len() && split_on(path@, '/')[j] == ".."@;
            assert(crate::model::vviews(parts@)[j] == parts@[j]@);
        }
    }
    Ok(path)
}

/// A resolved file may be served only when it lies inside the artifact
/// root (after both were canonicalized) and is a file.
pub fn served_file_check(root: &PathParts, target: &PathParts, target_is_file: bool, rel: &str) -> (r: Result<(), String>)
    ensures
        !crate::path_policy::same_path(root.root@, root.comps(), target.root@, target.comps().take(
            root.comps().len() as int,
        ), false) || target.comps().len() < root.comps().len() ==> (r matches Err(e) && e@
            == "path traversal rejected"@),
        (crate::path_policy::same_path(root.root@, root.comps(), target.root@, target.comps().take(
            root.comps().len() as int,
        ), false) && target.comps().len() >= root.comps().len()) ==> if target_is_file {
            r is Ok
        } else {
            r matches Err(e) && e@ == "file not found: "@ + rel@
        },
{
    let n = root.parts.len();
    if target.parts.len() < n {
        return Err("path traversal rejected".to_owned());
    }
    let mut prefix_parts: Vec<String> = Vec::new();
    let mut i: usize = 0;
    while i < n
        invariant
            n == root.parts@.len(),
            n <= target.parts@.len(),
            i <= n,
            Seq::new(prefix_parts@.len(), |j: int| prefix_parts@[j]@) == target.comps().take(i as int),
        decreases n - i,
    {
        let ghost before = Seq::new(prefix_parts@.len(), |j: int| prefix_parts@[j]@);
        prefix_parts.push(target.parts[i].clone());
        assert(Seq::new(prefix_parts@.len(), |j: int| prefix_parts@[j]@) =~= before.push(target.comps()[i as int]));
        assert(target.comps().take(i + 1) =~= target.comps().take(i as int).push(target.comps()[i as int]));
        i += 1;
    }
    let prefix = PathParts { root: target.root.clone(), parts: prefix_parts };
    assert(prefix.comps() =~= target.comps().take(n as int));
    if !crate::path_policy::paths_equal(root, &prefix, false) {
        return Err("path traversal rejected".to_owned());
    }
    if !target_is_file {
        return Err(concat2("file not found: ", rel));
    }
    Ok(())
}

} // verus!
