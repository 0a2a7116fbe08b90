//! Decisions of the conversion stage: the converter's worker-thread
//! setting, its command line and environment, whether a failed run is
//! retried with one thread, and how a finished run is judged.

use crate::numbers::parse_uint_upto;
use crate::path_policy::PathParts;
use crate::util::CommandResult;
use crate::text::{concat2, concat3, contains, dec_chars, dec_string, int_chars, int_string, starts_with, str_contains};
use vstd::prelude::*;

verus! {

/// How the task options set the converter's worker threads.
pub enum ThreadSetting {
    /// `convert.threads` is an unsigned integer.
    Explicit(u64),
    /// `convert.threads` is present but not an unsigned integer; its JSON text.
    InvalidType(String),
    /// `convert.threads` is absent; the `GEOFORGE_CONVERT_THREADS` variable,
    /// when set to valid text.
    Omitted { env: Option<String> },
}

/// The resolved worker-thread setting: what was requested (for the log)
/// and the count passed to the converter, if any (0 meaning automatic).
#[derive(Debug, Clone)]
pub struct ThreadConfig {
    pub requested: String,
    pub override_value: Option<usize>,
}

impl ThreadConfig {
    /// The thread count to force on the converter, if any.
    pub fn to_override(&self) -> (r: Option<usize>)
        ensures
            r == self.override_value,
    {
        self.override_value
    }
}

/// What `resolve_thread_config` decides: the requested text and override.
pub open spec fn thread_decision(s: ThreadSetting) -> (Seq<char>, Option<int>) {
    match s {
        ThreadSetting::Explicit(v) => if v == 0 {
            ("0 (explicit auto)"@, Some(0))
        } else if v <= 16 {
            (dec_chars(v as nat) + " (explicit)"@, Some(v as int))
        } else {
            (dec_chars(v as nat) + " (invalid, > 16)"@, None)
        },
        ThreadSetting::InvalidType(t) => ("invalid type: "@ + t@, None),
        ThreadSetting::Omitted { env } => match env {
            None => ("default (omitted, no env)"@, None),
            Some(e) => match parse_uint_upto(e@, usize::MAX as int) {
                Some(p) => if 0 < p <= 16 {
                    ("from env: "@ + dec_chars(p as nat), Some(p))
                } else {
                    ("from env: "@ + dec_chars(p as nat) + " (invalid)"@, None)
                },
                None => ("from env: "@ + e@ + " (parse error)"@, None),
            },
        },
    }
}

/// Resolve the converter's worker threads: an explicit setting wins (0 is
/// automatic, 1 to 16 forced, more refused); without one the environment
/// variable may force 1 to 16; otherwise the converter decides.
pub fn resolve_thread_config(setting: &ThreadSetting) -> (r: ThreadConfig)
    ensures
        r.requested@ == thread_decision(*setting).0,
        match (r.override_value, thread_decision(*setting).1) {
            (Some(a), Some(b)) => a as int == b,
            (None, None) => true,
            _ => false,
        },
{
    match setting {
        ThreadSetting::Explicit(v) => {
            let v = *v;
            if v == 0 {
                ThreadConfig { requested: "0 (explicit auto)".to_owned(), override_value: Some(0) }
            } else if v <= 16 {
                let n = dec_string(v);
                ThreadConfig { requested: concat2(n.as_str(), " (explicit)"), override_value: Some(v as usize) }
            } else {
                let n = dec_string(v);
                ThreadConfig { requested: concat2(n.as_str(), " (invalid, > 16)"), override_value: None }
            }
        },
        ThreadSetting::InvalidType(t) => {
            ThreadConfig { requested: concat2("invalid type: ", t.as_str()), override_value: None }
        },
        ThreadSetting::Omitted { env } => match env {
            None => ThreadConfig {
                requested: "default (omitted, no env)".to_owned(),
                override_value: None,
            },
            Some(e) => match crate::numbers::parse_usize(e.as_str()) {
                Some(p) => {
                    let n = dec_string(p as u64);
                    if p > 0 && p <= 16 {
                        ThreadConfig { requested: concat2("from env: ", n.as_str()), override_value: Some(p) }
                    } else {
                        ThreadConfig {
                            requested: concat3("from env: ", n.as_str(), " (invalid)"),
                            override_value: None,
                        }
                    }
                },
                None => ThreadConfig {
                    requested: concat3("from env: ", e.as_str(), " (parse error)"),
                    override_value: None,
                },
            },
        },
    }
}

/// How the log describes the thread override passed to the converter.
pub fn thread_override_text(o: Option<usize>) -> (r: String)
    ensures
        r@ == match o {
            None => "none (converter default)"@,
            Some(t) => if t == 0 {
                "0 (auto)"@
            } else {
                dec_chars(t as nat)
            },
        },
{
    match o {
        None => "none (converter default)".to_owned(),
        Some(t) => if t == 0 {
            "0 (auto)".to_owned()
        } else {
            dec_string(t as u64)
        },
    }
}

/// Windows exit status of an access violation.
pub const STATUS_ACCESS_VIOLATION: i32 = -1073741819;

/// Windows exit status of heap corruption.
pub const STATUS_HEAP_CORRUPTION: i32 = -1073740940;

/// A failed converter run is worth one single-threaded retry when it lost
/// a tile's JSON or crashed natively.
pub open spec fn retry_worthy(r: CommandResult) -> bool {
    contains(r.stderr_tail@, "converter returned no JSON for tile:"@) || r.exit_code
        == STATUS_ACCESS_VIOLATION || r.exit_code == STATUS_HEAP_CORRUPTION
}

/// Does the failure look like one a single-threaded run avoids?
pub fn retry_single_thread(result: &CommandResult) -> (r: bool)
    ensures
        r == retry_worthy(*result),
{
    str_contains(result.stderr_tail.as_str(), "converter returned no JSON for tile:")
        || result.exit_code == STATUS_ACCESS_VIOLATION || result.exit_code == STATUS_HEAP_CORRUPTION
}

/// Retry once with one worker thread: the run failed in a retry-worthy
/// way, was not already single-threaded, and was not cancelled.
pub fn should_retry(result: &CommandResult, thread_override: Option<usize>, cancelled: bool) -> (r: bool)
    ensures
        r == (result.exit_code != 0 && thread_override != Some(1usize) && !cancelled && retry_worthy(
            *result,
        )),
{
    let single = match thread_override {
        Some(t) => t == 1,
        None => false,
    };
    result.exit_code != 0 && !single && !cancelled && retry_single_thread(result)
}

/// Before running the converter: it must be present; the message says how
/// to get it (a packaged install is broken, a checkout must prepare it).
pub fn converter_preflight(bin_is_file: bool, packaged: bool, bin_display: &str) -> (r: Result<(), String>)
    ensures
        bin_is_file ==> r is Ok,
        !bin_is_file && packaged ==> (r matches Err(e) && e@ == "组件缺失，请修复安装（转换器 _3dtile 未找到："@
            + bin_display@ + "）"@),
        !bin_is_file && !packaged ==> (r matches Err(e) && e@ == "找不到转换器 _3dtile（查过 "@ + bin_display@
            + "）。请运行 apps/desktop/scripts/prepare-converter.ps1，或设置 GEOFORGE_3DTILE。"@),
{
    if bin_is_file {
        Ok(())
    } else if packaged {
        Err(concat3("组件缺失，请修复安装（转换器 _3dtile 未找到：", bin_display, "）"))
    } else {
        Err(concat3(
            "找不到转换器 _3dtile（查过 ",
            bin_display,
            "）。请运行 apps/desktop/scripts/prepare-converter.ps1，或设置 GEOFORGE_3DTILE。",
        ))
    }
}

/// The verdict on a finished converter run.
pub open spec fn convert_verdict(
    cancelled: bool,
    r: CommandResult,
    tileset_is_file: bool,
    out_display: Seq<char>,
) -> Option<Seq<char>> {
    if cancelled {
        Some("cancelled"@)
    } else if r.exit_code != 0 {
        Some(
            "convert exited "@ + int_chars(r.exit_code as int) + ": "@ + if r.stderr_tail@.len() == 0 {
                "converter did not provide stderr output"@
            } else {
                "last converter output:\n"@ + r.stderr_tail@
            },
        )
    } else if !tileset_is_file {
        Some("tileset.json missing under "@ + out_display)
    } else {
        None
    }
}

/// Judge a finished converter run: cancellation wins, then a non-zero exit
/// (with the stderr tail), then a missing `tileset.json`.
pub fn convert_outcome(cancelled: bool, result: &CommandResult, tileset_is_file: bool, out_display: &str) -> (r: Result<(), String>)
    ensures
        match (r, convert_verdict(cancelled, *result, tileset_is_file, out_display@)) {
            (Ok(()), None) => true,
            (Err(e), Some(m)) => e@ == m,
            _ => false,
        },
{
    if cancelled {
        return Err("cancelled".to_owned());
    }
    if result.exit_code != 0 {
        let detail = if result.stderr_tail.as_str().is_empty() {
            "converter did not provide stderr output".to_owned()
        } else {
            concat2("last converter output:\n", result.stderr_tail.as_str())
        };
        let code = int_string(result.exit_code as i64);
        return Err(concat2(concat3("convert exited ", code.as_str(), ": ").as_str(), detail.as_str()));
    }
    if !tileset_is_file {
        return Err(concat2("tileset.json missing under ", out_display));
    }
    Ok(())
}

/// A Windows path without its verbatim prefix: `\\?\UNC\server\..` becomes
/// `\\server\..` and `\\?\C:\..` becomes `C:\..`; elsewhere unchanged.
pub open spec fn strip_verbatim_text(s: Seq<char>, windows: bool) -> Seq<char> {
    if windows && starts_with(s, "\\\\?\\UNC\\"@) {
        "\\\\"@ + s.skip(8)
    } else if windows && starts_with(s, "\\\\?\\"@) {
        s.skip(4)
    } else {
        s
    }
}

/// Strip a Windows verbatim prefix (only on Windows).
pub fn strip_verbatim_str(s: &str, windows: bool) -> (r: String)
    ensures
        r@ == strip_verbatim_text(s@, windows),
{
    proof {
        reveal_strlit("\\\\?\\UNC\\");
        reveal_strlit("\\\\?\\");
    }
    if windows {
        let c = crate::text::chars_of(s);
        if crate::text::chars_start_with(&c, &crate::text::chars_of("\\\\?\\UNC\\")) {
            let rest = crate::text::string_of_range(s, &c, 8, c.len());
            assert(rest@ =~= s@.skip(8));
            return concat2("\\\\", rest.as_str());
        }
        if crate::text::chars_start_with(&c, &crate::text::chars_of("\\\\?\\")) {
            let rest = crate::text::string_of_range(s, &c, 4, c.len());
            assert(rest@ =~= s@.skip(4));
            return rest;
        }
    }
    s.to_owned()
}

pub open spec fn strs(v: Seq<String>) -> Seq<Seq<char>> {
    Seq::new(v.len(), |i: int| v[i]@)
}

/// The extra converter flags of an OSGB conversion: `-v` when verbose,
/// the `-c` configuration (the task's own, else the derived geo
/// configuration), and native texture compression when the normalized
/// texture mode is not `keep` and the converter can serve it.
pub open spec fn convert_flag_list(
    verbose: bool,
    config: Option<Seq<char>>,
    cfg_json: Option<Seq<char>>,
    mode: Seq<char>,
    native_available: bool,
) -> Seq<Seq<char>> {
    (if verbose {
        seq!["-v"@]
    } else {
        seq![]
    }) + (match config {
        Some(c) => seq!["-c"@, c],
        None => match cfg_json {
            Some(c) => seq!["-c"@, c],
            None => seq![],
        },
    }) + (if mode != "keep"@ && native_available {
        seq!["--enable-texture-compress"@]
    } else {
        seq![]
    })
}

/// Where each converter flag stands: `-v` first when verbose; then `-c`
/// followed by the task's own configuration when it names one (it takes
/// precedence over the derived geo configuration), else by the derived
/// one, and no `-c` at all when there is neither; the texture-compression
/// flag last when it is asked for.
pub proof fn lemma_convert_flag_positions(
    verbose: bool,
    config: Option<Seq<char>>,
    cfg_json: Option<Seq<char>>,
    mode: Seq<char>,
    native_available: bool,
)
    ensures
        ({
            let l = convert_flag_list(verbose, config, cfg_json, mode, native_available);
            let k: int = if verbose {
                1
            } else {
                0
            };
            let compress = mode != "keep"@ && native_available;
            &&& l.len() == k + (if config is Some || cfg_json is Some {
                2int
            } else {
                0int
            }) + (if compress {
                1int
            } else {
                0int
            })
            &&& verbose ==> l[0] == "-v"@
            &&& config matches Some(c) ==> l[k] == "-c"@ && l[k + 1] == c
            &&& config is None ==> (cfg_json matches Some(j) ==> l[k] == "-c"@ && l[k + 1] == j)
            &&& config is None && cfg_json is None ==> forall|i: int| 0 <= i < l.len() ==> l[i] != "-c"@
            &&& compress ==> l[l.len() - 1] == "--enable-texture-compress"@
        }),
{
    reveal_strlit("-v");
    reveal_strlit("-c");
    reveal_strlit("--enable-texture-compress");
    assert("-v"@[1] != "-c"@[1]);
    assert("--enable-texture-compress"@.len() != "-c"@.len());
}

fn push_str(v: &mut Vec<String>, s: String)
    ensures
        strs(final(v)@) == strs(old(v)@).push(s@),
{
    let ghost before = v@;
    v.push(s);
    assert(strs(v@) =~= strs(before).push(s@));
}

/// The extra flags passed to the converter.
pub fn convert_flags(
    verbose: bool,
    config: Option<&str>,
    cfg_json: Option<&str>,
    mode: &str,
    native_available: bool,
) -> (r: Vec<String>)
    ensures
        strs(r@) == convert_flag_list(
            verbose,
            match config {
                Some(c) => Some(c@),
                None => None,
            },
            match cfg_json {
                Some(c) => Some(c@),
                None => None,
            },
            mode@,
            native_available,
        ),
{
    let mut extra: Vec<String> = Vec::new();
    if verbose {
        push_str(&mut extra, "-v".to_owned());
    }
    match config {
        Some(c) => {
            push_str(&mut extra, "-c".to_owned());
            push_str(&mut extra, c.to_owned());
        },
        None => match cfg_json {
            Some(c) => {
                push_str(&mut extra, "-c".to_owned());
                push_str(&mut extra, c.to_owned());
            },
            None => {},
        },
    }
    if !crate::text::str_eq(mode, "keep") && native_available {
        push_str(&mut extra, "--enable-texture-compress".to_owned());
    }
    assert(strs(extra@) =~= convert_flag_list(
        verbose,
        match config {
            Some(c) => Some(c@),
            None => None,
        },
        match cfg_json {
            Some(c) => Some(c@),
            None => None,
        },
        mode@,
        native_available,
    ));
    extra
}

/// The command line of an OSGB conversion: the converter, the input root
/// and output directory (verbatim prefixes stripped), then the extra flags.
pub fn osgb_command(bin: &str, osgb_root: &str, out_dir: &str, extra: &Vec<String>, windows: bool) -> (r: Vec<String>)
    ensures
        strs(r@) == seq![
            bin@,
            "-f"@,
            "osgb"@,
            "-i"@,
            strip_verbatim_text(osgb_root@, windows),
            "-o"@,
            strip_verbatim_text(out_dir@, windows),
        ] + strs(extra@),
{
    let mut cmd: Vec<String> = Vec::new();
    push_str(&mut cmd, bin.to_owned());
    push_str(&mut cmd, "-f".to_owned());
    push_str(&mut cmd, "osgb".to_owned());
    push_str(&mut cmd, "-i".to_owned());
    push_str(&mut cmd, strip_verbatim_str(osgb_root, windows));
    push_str(&mut cmd, "-o".to_owned());
    push_str(&mut cmd, strip_verbatim_str(out_dir, windows));
    let ghost head = strs(cmd@);
    let mut i: usize = 0;
    while i < extra.len()
        invariant
            i <= extra.len(),
            strs(cmd@) == head + strs(extra@).take(i as int),
        decreases extra.len() - i,
    {
        push_str(&mut cmd, extra[i].clone());
        assert(strs(extra@).take(i + 1) =~= strs(extra@).take(i as int).push(extra@[i as int]@));
        i += 1;
    }
    assert(strs(extra@).take(extra.len() as int) =~= strs(extra@));
    cmd
}

/// The command line of a model conversion: the converter, the format, the
/// input file, output directory and model configuration (verbatim prefixes
/// stripped), then the placement arguments when given.
pub fn model_command(
    bin: &str,
    extension: &str,
    input_file: &str,
    out_dir: &str,
    model_config: &str,
    placement: Option<(String, String, String)>,
    windows: bool,
) -> (r: Vec<String>)
    ensures
        strs(r@) == seq![
            bin@,
            "-f"@,
            extension@,
            "-i"@,
            strip_verbatim_text(input_file@, windows),
            "-o"@,
            strip_verbatim_text(out_dir@, windows),
            "--model-config"@,
            strip_verbatim_text(model_config@, windows),
        ] + match placement {
            Some((lon, lat, alt)) => seq!["--lon"@, lon@, "--lat"@, lat@, "--alt"@, alt@],
            None => seq![],
        },
{
    let mut cmd: Vec<String> = Vec::new();
    push_str(&mut cmd, bin.to_owned());
    push_str(&mut cmd, "-f".to_owned());
    push_str(&mut cmd, extension.to_owned());
    push_str(&mut cmd, "-i".to_owned());
    push_str(&mut cmd, strip_verbatim_str(input_file, windows));
    push_str(&mut cmd, "-o".to_owned());
    push_str(&mut cmd, strip_verbatim_str(out_dir, windows));
    push_str(&mut cmd, "--model-config".to_owned());
    push_str(&mut cmd, strip_verbatim_str(model_config, windows));
    match placement {
        Some((lon, lat, alt)) => {
            push_str(&mut cmd, "--lon".to_owned());
            push_str(&mut cmd, lon);
            push_str(&mut cmd, "--lat".to_owned());
            push_str(&mut cmd, lat);
            push_str(&mut cmd, "--alt".to_owned());
            push_str(&mut cmd, alt);
        },
        None => {},
    }
    cmd
}

/// The value of `GEOFORGE_CONVERT_THREADS` forced on the converter, if any.
pub fn thread_env_value(thread_override: Option<usize>) -> (r: Option<String>)
    ensures
        match thread_override {
            None => r is None,
            Some(t) => r matches Some(v) && v@ == dec_chars(t as nat),
        },
{
    match thread_override {
        None => None,
        Some(t) => Some(dec_string(t as u64)),
    }
}

/// An environment entry as name, root and components of its directory.
pub open spec fn env_view(v: Seq<(String, PathParts)>) -> Seq<(Seq<char>, Seq<char>, Seq<Seq<char>>)> {
    Seq::new(v.len(), |i: int| (v[i].0@, v[i].1.root@, v[i].1.comps()))
}

/// The environment a converter in directory `d` gets.
pub open spec fn env_expected(d: PathParts, has_plugins: bool, has_gdal: bool, has_proj: bool) -> Seq<
    (Seq<char>, Seq<char>, Seq<Seq<char>>),
> {
    (if has_plugins {
        seq![("OSG_LIBRARY_PATH"@, d.root@, d.comps().push("osgPlugins-3.6.5"@))]
    } else {
        seq![]
    }) + (if has_gdal {
        seq![("GDAL_DATA"@, d.root@, d.comps().push("gdal"@))]
    } else {
        seq![]
    }) + (if has_proj {
        seq![
            ("PROJ_DATA"@, d.root@, d.comps().push("proj"@)),
            ("PROJ_LIB"@, d.root@, d.comps().push("proj"@)),
        ]
    } else {
        seq![]
    })
}

fn push_env(env: &mut Vec<(String, PathParts)>, name: &str, d: &PathParts, sub: &str)
    ensures
        env_view(final(env)@) == env_view(old(env)@).push((name@, d.root@, d.comps().push(sub@))),
{
    let ghost before = env@;
    let p = join_one(d, sub);
    env.push((name.to_owned(), p));
    assert(env_view(env@) =~= env_view(before).push((name@, d.root@, d.comps().push(sub@))));
}

/// Environment the converter needs from the directories shipped beside it
/// (which of them exist is given): OSG plugins, GDAL data and PROJ data
/// (under both of PROJ's names). Nothing without a directory.
pub fn converter_environment(dir: Option<&PathParts>, has_plugins: bool, has_gdal: bool, has_proj: bool) -> (r: Vec<(String, PathParts)>)
    ensures
        dir is None ==> r@.len() == 0,
        dir matches Some(d) ==> env_view(r@) == env_expected(*d, has_plugins, has_gdal, has_proj),
{
    let mut env: Vec<(String, PathParts)> = Vec::new();
    let d = match dir {
        None => return env,
        Some(d) => d,
    };
    if has_plugins {
        push_env(&mut env, "OSG_LIBRARY_PATH", d, "osgPlugins-3.6.5");
    }
    if has_gdal {
        push_env(&mut env, "GDAL_DATA", d, "gdal");
    }
    if has_proj {
        push_env(&mut env, "PROJ_DATA", d, "proj");
        push_env(&mut env, "PROJ_LIB", d, "proj");
    }
    assert(env_view(env@) =~= env_expected(*d, has_plugins, has_gdal, has_proj));
    env
}

/// `dir` joined with one more component.
pub fn join_one(dir: &PathParts, name: &str) -> (r: PathParts)
    ensures
        r.root@ == dir.root@,
        r.comps() == dir.comps().push(name@),
{
    let mut parts = dir.parts.clone();
    let ghost before = parts@;
    parts.push(name.to_owned());
    let r = PathParts { root: dir.root.clone(), parts };
    assert(r.comps() =~= dir.comps().push(name@));
    r
}

} // verus!
