//! What the processor reports it can do, from what the tool probes found:
//! whether the converter supports the model pipeline, which texture modes
//! are offered, and the converter's readiness message.

use crate::text::str_eq;
use vstd::prelude::*;

verus! {

/// What the converter's `--capabilities-json` output says of models.
#[derive(Debug, Clone)]
pub struct ModelCapabilityProbe {
    /// The `formats` array, each entry as a string where it is one.
    pub formats: Option<Vec<Option<String>>>,
    /// The `modelConfigVersion`, where it is an unsigned integer.
    pub model_config_version: Option<u64>,
}

/// The probe lists the format `name`.
pub open spec fn lists_format(formats: Option<Seq<Option<String>>>, name: Seq<char>) -> bool {
    match formats {
        Some(fs) => exists|i: int| 0 <= i < fs.len() && (#[trigger] fs[i] matches Some(s) && s@ == name),
        None => false,
    }
}

/// The model pipeline is ready when the converter lists FBX and OBJ and
/// speaks model configuration version 1.
pub open spec fn model_ready_spec(p: ModelCapabilityProbe) -> bool {
    let fs = match p.formats {
        Some(v) => Some(v@),
        None => None,
    };
    lists_format(fs, "fbx"@) && lists_format(fs, "obj"@) && p.model_config_version == Some(1u64)
}

fn lists_format_exec(formats: &Option<Vec<Option<String>>>, name: &str) -> (r: bool)
    ensures
        r == lists_format(
            match formats {
                Some(v) => Some(v@),
                None => None,
            },
            name@,
        ),
{
    match formats {
        None => false,
        Some(fs) => {
            let mut i: usize = 0;
            while i < fs.len()
                invariant
                    i <= fs.len(),
                    match formats {
                        Some(v) => v@ == fs@,
                        None => false,
                    },
                    forall|j: int| 0 <= j < i ==> !(#[trigger] fs@[j] matches Some(s) && s@ == name@),
                decreases fs.len() - i,
            {
                match &fs[i] {
                    Some(s) => {
                        if str_eq(s.as_str(), name) {
                            assert(fs@[i as int] matches Some(x) && x@ == name@);
                            assert(lists_format(Some(fs@), name@));
                            return true;
                        }
                    },
                    None => {},
                }
                i += 1;
            }
            false
        },
    }
}

/// The model readiness a probe gives, with the reason when not ready.
pub fn model_capability(p: &ModelCapabilityProbe) -> (r: (bool, Option<String>))
    ensures
        r.0 == model_ready_spec(*p),
        r.0 ==> r.1 is None,
        !r.0 ==> (r.1 matches Some(m) && m@
            == "converter does not support FBX, OBJ, and modelConfigVersion=1"@),
{
    let fbx = lists_format_exec(&p.formats, "fbx");
    let obj = lists_format_exec(&p.formats, "obj");
    let v1 = match p.model_config_version {
        Some(v) => v == 1,
        None => false,
    };
    if fbx && obj && v1 {
        (true, None)
    } else {
        (false, Some("converter does not support FBX, OBJ, and modelConfigVersion=1".to_owned()))
    }
}

/// The converter's readiness message.
pub fn convert_message(ready: bool, packaged: bool) -> (r: &'static str)
    ensures
        ready ==> r@ == "ready"@,
        !ready && packaged ==> r@ == "组件缺失，请修复安装（转换器 _3dtile）"@,
        !ready && !packaged ==> r@ == "找不到转换器；运行 prepare-converter.ps1 或设置 GEOFORGE_3DTILE"@,
{
    if ready {
        "ready"
    } else if packaged {
        "组件缺失，请修复安装（转换器 _3dtile）"
    } else {
        "找不到转换器；运行 prepare-converter.ps1 或设置 GEOFORGE_3DTILE"
    }
}

/// Post-processing is ready when the texture tool launches and `basisu`
/// exists.
pub fn postprocess_ready(texture_launch_ok: bool, basisu_exists: bool) -> (r: bool)
    ensures
        r == (texture_launch_ok && basisu_exists),
{
    texture_launch_ok && basisu_exists
}

/// Native KTX2 needs a ready converter that supports it.
pub fn native_ktx2_ready(convert_ready: bool, native_supported: bool) -> (r: bool)
    ensures
        r == (convert_ready && native_supported),
{
    convert_ready && native_supported
}

/// How a texture mode applies to tiles that already exist.
#[derive(Debug, Clone, PartialEq, Eq)]
pub struct ExistingTilesSupport {
    pub mode: String,
    pub supported: bool,
    pub reason: Option<String>,
}

/// One offered texture mode.
#[derive(Debug, Clone, PartialEq, Eq)]
pub struct TextureModeInfo {
    pub mode: String,
    pub supported: bool,
    pub postprocess: bool,
    /// Whether the converter writes it natively (absent for modes where
    /// that does not apply).
    pub native: Option<bool>,
    /// Converter flags that select it (absent where none apply).
    pub cli_flags: Option<Vec<String>>,
    pub process_tileset: Option<ExistingTilesSupport>,
    pub reason: Option<String>,
}

/// The plain values of an entry: mode, supported, postprocess, native,
/// flags, existing-tiles (mode, supported, reason) and reason.
pub open spec fn mode_view(m: TextureModeInfo) -> (
    Seq<char>,
    bool,
    bool,
    Option<bool>,
    Option<Seq<Seq<char>>>,
    Option<(Seq<char>, bool, Option<Seq<char>>)>,
    Option<Seq<char>>,
) {
    (
        m.mode@,
        m.supported,
        m.postprocess,
        m.native,
        match m.cli_flags {
            Some(f) => Some(crate::scan::strs(f@)),
            None => None,
        },
        match m.process_tileset {
            Some(p) => Some(
                (
                    p.mode@,
                    p.supported,
                    match p.reason {
                        Some(r) => Some(r@),
                        None => None,
                    },
                ),
            ),
            None => None,
        },
        match m.reason {
            Some(r) => Some(r@),
            None => None,
        },
    )
}

/// The offered texture modes: `keep` always; ETC1S (and its `ktx2`
/// alias) natively or by post-processing; UASTC by post-processing only.
pub open spec fn texture_modes_spec(native: bool, post: bool) -> Seq<
    (
        Seq<char>,
        bool,
        bool,
        Option<bool>,
        Option<Seq<Seq<char>>>,
        Option<(Seq<char>, bool, Option<Seq<char>>)>,
        Option<Seq<char>>,
    ),
> {
    let etc1s = native || post;
    let ktx2_existing = (
        "ktx2-etc1s"@,
        post,
        if post {
            None
        } else {
            Some("KTX2 processing for existing tiles requires the texture component"@)
        },
    );
    let etc1s_reason = if etc1s {
        None
    } else {
        Some("KTX2 encoder unavailable"@)
    };
    let uastc_reason = if post {
        None
    } else {
        Some("UASTC requires the texture component"@)
    };
    seq![
        ("keep"@, true, false, None, None, None, None),
        (
            "ktx2-etc1s"@,
            etc1s,
            !native && post,
            Some(native),
            Some(
                if native {
                    seq!["--enable-texture-compress"@]
                } else {
                    Seq::empty()
                },
            ),
            Some(ktx2_existing),
            etc1s_reason,
        ),
        (
            "ktx2-uastc"@,
            post,
            true,
            None,
            None,
            Some(("ktx2-uastc"@, post, uastc_reason)),
            uastc_reason,
        ),
        ("ktx2"@, etc1s, !native && post, Some(native), None, Some(ktx2_existing), etc1s_reason),
    ]
}

fn opt_text(b: bool, text: &str) -> (r: Option<String>)
    ensures
        b ==> r is None,
        !b ==> (r matches Some(s) && s@ == text@),
{
    if b {
        None
    } else {
        Some(text.to_owned())
    }
}

/// The texture modes offered for the given native and post-processing
/// readiness.
pub fn texture_modes(native_ktx2: bool, postprocess: bool) -> (r: Vec<TextureModeInfo>)
    ensures
        r@.len() == 4,
        Seq::new(4, |i: int| mode_view(r@[i])) == texture_modes_spec(native_ktx2, postprocess),
{
    let etc1s = native_ktx2 || postprocess;
    let ktx2_existing_reason = "KTX2 processing for existing tiles requires the texture component";
    let keep = TextureModeInfo {
        mode: "keep".to_owned(),
        supported: true,
        postprocess: false,
        native: None,
        cli_flags: None,
        process_tileset: None,
        reason: None,
    };
    let mut flags: Vec<String> = Vec::new();
    if native_ktx2 {
        flags.push("--enable-texture-compress".to_owned());
    }
    let etc = TextureModeInfo {
        mode: "ktx2-etc1s".to_owned(),
        supported: etc1s,
        postprocess: !native_ktx2 && postprocess,
        native: Some(native_ktx2),
        cli_flags: Some(flags),
        process_tileset: Some(
            ExistingTilesSupport {
                mode: "ktx2-etc1s".to_owned(),
                supported: postprocess,
                reason: opt_text(postprocess, ktx2_existing_reason),
            },
        ),
        reason: opt_text(etc1s, "KTX2 encoder unavailable"),
    };
    let uastc = TextureModeInfo {
        mode: "ktx2-uastc".to_owned(),
        supported: postprocess,
        postprocess: true,
        native: None,
        cli_flags: None,
        process_tileset: Some(
            ExistingTilesSupport {
                mode: "ktx2-uastc".to_owned(),
                supported: postprocess,
                reason: opt_text(postprocess, "UASTC requires the texture component"),
            },
        ),
        reason: opt_text(postprocess, "UASTC requires the texture component"),
    };
    let alias = TextureModeInfo {
        mode: "ktx2".to_owned(),
        supported: etc1s,
        postprocess: !native_ktx2 && postprocess,
        native: Some(native_ktx2),
        cli_flags: None,
        process_tileset: Some(
            ExistingTilesSupport {
                mode: "ktx2-etc1s".to_owned(),
                supported: postprocess,
                reason: opt_text(postprocess, ktx2_existing_reason),
            },
        ),
        reason: opt_text(etc1s, "KTX2 encoder unavailable"),
    };
    assert(crate::scan::strs(etc.cli_flags->0@) =~= if native_ktx2 {
        seq!["--enable-texture-compress"@]
    } else {
        Seq::<Seq<char>>::empty()
    });
    let ghost spec = texture_modes_spec(native_ktx2, postprocess);
    assert(mode_view(keep) == spec[0]);
    assert(mode_view(etc) == spec[1]);
    assert(mode_view(uastc) == spec[2]);
    assert(mode_view(alias) == spec[3]);
    let r = vec![keep, etc, uastc, alias];
    assert(Seq::new(4, |i: int| mode_view(r@[i])) =~= texture_modes_spec(native_ktx2, postprocess));
    r
}

/// How a `--help` probe of a tool went: it launched correctly when it
/// exited 0 in time; otherwise the error says it timed out or how it
/// exited (-1 when no exit code was reported).
pub fn probe_verdict(timed_out: bool, status_code: Option<i32>) -> (r: (bool, Option<String>))
    ensures
        r.0 == (!timed_out && status_code == Some(0i32)),
        r.0 ==> r.1 is None,
        timed_out ==> (r.1 matches Some(e) && e@ == "--help timed out after 3 seconds"@),
        !timed_out && !r.0 ==> (r.1 matches Some(e) && e@ == "--help exited with "@
            + crate::text::int_chars(
            match status_code {
                Some(c) => c as int,
                None => -1,
            },
        )),
{
    let launch_ok = !timed_out && match status_code {
        Some(c) => c == 0,
        None => false,
    };
    if timed_out {
        (false, Some("--help timed out after 3 seconds".to_owned()))
    } else if !launch_ok {
        let code: i32 = match status_code {
            Some(c) => c,
            None => -1,
        };
        (false, Some(crate::text::concat2("--help exited with ", crate::text::int_string(code as i64).as_str())))
    } else {
        (true, None)
    }
}

/// The description of a missing tool.
pub fn missing_tool_error(path_display: &str) -> (r: String)
    ensures
        r@ == "missing: "@ + path_display@,
{
    crate::text::concat2("missing: ", path_display)
}

} // verus!
