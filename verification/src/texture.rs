//! Texture stage decisions: normalizing the requested texture mode, which
//! modes the installed tools can serve, and detecting KTX2 evidence in
//! produced glTF / GLB / B3DM content.

use crate::bytes::{bytes_contain, bytes_contain_exec, bytes_occur_at, le_u32, read_u32_le};
use crate::text::{
    chars_of, contains, lower_chars, lower_seq, str_contains, str_eq, trim, trim_chars,
};
use crate::texture_ktx2::{embedded_glb_start, extract_glb_from_b3dm, gltf_magic};
use vstd::prelude::*;
use vstd::utf8::{decode_utf8, valid_utf8};

verus! {

/// Unicode lower-casing as `str::to_lowercase` performs it.
pub uninterp spec fn unicode_lower(s: Seq<char>) -> Seq<char>;

/// `str::to_lowercase`: full Unicode lower-casing; a function of the input
/// alone. On ASCII text it lower-cases the ASCII letters, as
/// `str::to_ascii_lowercase` does (whose documentation points to
/// `to_lowercase` for lower-casing non-ASCII characters "in addition");
/// nothing further about the mapping is stated.
#[verifier::external_body]
fn to_lowercase(s: &str) -> (r: String)
    ensures
        r@ == unicode_lower(s@),
        crate::text::all_ascii(s@) ==> r@ == lower_seq(s@),
{
    s.to_lowercase()
}

/// The text of the `Utf8Error` that `std::str::from_utf8` reports for
/// invalid bytes.
pub uninterp spec fn utf8_error_text(b: Seq<u8>) -> Seq<char>;

/// `std::str::from_utf8`: succeeds exactly on valid UTF-8 and then yields
/// the decoded characters; on invalid bytes, the error's text (named, not
/// spelled out).
#[verifier::external_body]
pub(crate) fn str_from_utf8(b: &[u8]) -> (r: Result<&str, String>)
    ensures
        r is Ok <==> valid_utf8(b@),
        r matches Ok(s) ==> s@ == decode_utf8(b@),
        r matches Err(e) ==> e@ == utf8_error_text(b@),
{
    std::str::from_utf8(b).map_err(|e| e.to_string())
}

/// The normalized name of an already lower-cased texture mode, once
/// trimmed: aliases of "keep", of ETC1S and of UASTC collapse to one name
/// each; anything else is kept as trimmed.
pub open spec fn normalize_lowered_spec(lowered: Seq<char>) -> Seq<char> {
    let m = trim(lowered);
    if m == "keep"@ || m == "none"@ || m == ""@ || m == "passthrough"@ {
        "keep"@
    } else if m == "ktx2"@ || m == "ktx2-etc1s"@ || m == "etc1s"@ {
        "ktx2-etc1s"@
    } else if m == "ktx2-uastc"@ || m == "uastc"@ {
        "ktx2-uastc"@
    } else {
        m
    }
}

/// The normalized name of a texture mode: the mode (or "keep" when there
/// is none) lower-cased, then normalized as `normalize_lowered_spec` says.
pub open spec fn normalize_mode_spec(mode: Option<Seq<char>>) -> Seq<char> {
    normalize_lowered_spec(
        unicode_lower(
            match mode {
                Some(s) => s,
                None => "keep"@,
            },
        ),
    )
}

proof fn lemma_first_non_ws_bounds(s: Seq<char>, from: int)
    requires
        0 <= from <= s.len(),
    ensures
        from <= crate::text::first_non_ws(s, from) <= s.len(),
        crate::text::first_non_ws(s, from) < s.len() ==> !crate::text::is_ws(s[crate::text::first_non_ws(s, from)]),
    decreases s.len() - from,
{
    if from < s.len() && crate::text::is_ws(s[from]) {
        lemma_first_non_ws_bounds(s, from + 1);
    }
}

proof fn lemma_last_non_ws_bounds(s: Seq<char>, lo: int, to: int)
    requires
        0 <= lo <= to <= s.len(),
    ensures
        lo <= crate::text::last_non_ws_end(s, lo, to) <= to,
        crate::text::last_non_ws_end(s, lo, to) > lo ==> !crate::text::is_ws(s[crate::text::last_non_ws_end(s, lo, to) - 1]),
    decreases to - lo,
{
    if to > lo && crate::text::is_ws(s[to - 1]) {
        lemma_last_non_ws_bounds(s, lo, to - 1);
    }
}

proof fn lemma_trim_fixed(t: Seq<char>)
    requires
        t.len() == 0 || (!crate::text::is_ws(t[0]) && !crate::text::is_ws(t.last())),
    ensures
        trim(t) == t,
{
    if t.len() > 0 {
        assert(crate::text::first_non_ws(t, 0) == 0);
        assert(crate::text::last_non_ws_end(t, 0, t.len() as int) == t.len());
    }
    assert(t.subrange(0, t.len() as int) =~= t);
}

/// Trimming twice is trimming once.
pub proof fn lemma_trim_idempotent(s: Seq<char>)
    ensures
        trim(trim(s)) == trim(s),
{
    let lo = crate::text::first_non_ws(s, 0);
    lemma_first_non_ws_bounds(s, 0);
    lemma_last_non_ws_bounds(s, lo, s.len() as int);
    let hi = crate::text::last_non_ws_end(s, lo, s.len() as int);
    let t = s.subrange(lo, hi);
    if t.len() > 0 {
        assert(t[0] == s[lo]);
        assert(t.last() == s[hi - 1]);
    }
    lemma_trim_fixed(t);
}

/// Normalizing an already normalized (and lower-case) mode gives it back.
/// Whether `normalize_mode` as a whole is idempotent also depends on
/// lower-casing leaving its own results unchanged, which nothing here
/// states of `str::to_lowercase`.
pub proof fn lemma_normalize_lowered_idempotent(m: Seq<char>)
    ensures
        normalize_lowered_spec(normalize_lowered_spec(m)) == normalize_lowered_spec(m),
{
    reveal_strlit("keep");
    reveal_strlit("none");
    reveal_strlit("");
    reveal_strlit("passthrough");
    reveal_strlit("ktx2");
    reveal_strlit("ktx2-etc1s");
    reveal_strlit("etc1s");
    reveal_strlit("ktx2-uastc");
    reveal_strlit("uastc");
    lemma_trim_idempotent(m);
    let k = "keep"@;
    let e = "ktx2-etc1s"@;
    let u = "ktx2-uastc"@;
    assert(!crate::text::is_ws(k[0]) && !crate::text::is_ws(k.last()));
    assert(!crate::text::is_ws(e[0]) && !crate::text::is_ws(e.last()));
    assert(!crate::text::is_ws(u[0]) && !crate::text::is_ws(u.last()));
    lemma_trim_fixed(k);
    lemma_trim_fixed(e);
    lemma_trim_fixed(u);
}

proof fn lemma_lower_seq_fixed(s: Seq<char>)
    requires
        forall|i: int| 0 <= i < s.len() ==> !('A' <= #[trigger] s[i] && s[i] <= 'Z'),
    ensures
        lower_seq(s) == s,
{
    assert(lower_seq(s) =~= s);
}

/// Normalizing an ASCII mode twice is normalizing it once: its normalized
/// name is ASCII, lower-case, and normalizes to itself.
pub proof fn lemma_normalize_ascii_idempotent(m: Seq<char>)
    requires
        crate::text::all_ascii(m),
    ensures
        crate::text::all_ascii(normalize_lowered_spec(lower_seq(m))),
        normalize_lowered_spec(lower_seq(normalize_lowered_spec(lower_seq(m)))) == normalize_lowered_spec(
            lower_seq(m),
        ),
{
    reveal_strlit("keep");
    reveal_strlit("ktx2-etc1s");
    reveal_strlit("ktx2-uastc");
    let l = lower_seq(m);
    let n = normalize_lowered_spec(l);
    lemma_normalize_lowered_idempotent(l);
    let lo = crate::text::first_non_ws(l, 0);
    lemma_first_non_ws_bounds(l, 0);
    lemma_last_non_ws_bounds(l, lo, l.len() as int);
    let t = trim(l);
    assert forall|i: int| 0 <= i < t.len() implies !('A' <= #[trigger] t[i] && t[i] <= 'Z') && (t[i] as u32) < 128 by {
        assert(t[i] == l[lo + i]);
        assert(l[lo + i] == crate::text::ascii_lower(m[lo + i]));
        assert((m[lo + i] as u32) < 128);
    }
    assert forall|i: int| 0 <= i < n.len() implies !('A' <= #[trigger] n[i] && n[i] <= 'Z') && (n[i] as u32) < 128 by {
        if n != t {
            let k = "keep"@;
            let e = "ktx2-etc1s"@;
            let u = "ktx2-uastc"@;
            assert(n == k || n == e || n == u);
        }
    }
    lemma_lower_seq_fixed(n);
}

fn eq_lit(v: &Vec<char>, lit: &str) -> (r: bool)
    ensures
        r == (v@ == lit@),
{
    let l = chars_of(lit);
    if v.len() != l.len() {
        return false;
    }
    let r = crate::text::occurs_at_exec(v, &l, 0);
    assert(v@.subrange(0, v@.len() as int) =~= v@);
    r
}

/// Normalize a texture mode that is already lower-cased.
pub fn normalize_lowered(lowered: &str) -> (r: String)
    ensures
        r@ == normalize_lowered_spec(lowered@),
{
    let chars = chars_of(lowered);
    let m = trim_chars(&chars);
    if eq_lit(&m, "keep") || eq_lit(&m, "none") || eq_lit(&m, "") || eq_lit(&m, "passthrough") {
        "keep".to_owned()
    } else if eq_lit(&m, "ktx2") || eq_lit(&m, "ktx2-etc1s") || eq_lit(&m, "etc1s") {
        "ktx2-etc1s".to_owned()
    } else if eq_lit(&m, "ktx2-uastc") || eq_lit(&m, "uastc") {
        "ktx2-uastc".to_owned()
    } else {
        let lo = crate::text::skip_ws(&chars, 0);
        let hi = crate::text::trim_end_index(&chars, lo, chars.len());
        crate::text::string_of_range(lowered, &chars, lo, hi)
    }
}

/// The text of a requested texture mode ("keep" when there is none).
pub open spec fn mode_text(mode: Option<&str>) -> Seq<char> {
    match mode {
        Some(s) => s@,
        None => "keep"@,
    }
}

/// Normalize a requested texture mode (a missing mode means "keep").
pub fn normalize_mode(mode: Option<&str>) -> (r: String)
    ensures
        r@ == normalize_mode_spec(
            match mode {
                Some(s) => Some(s@),
                None => None,
            },
        ),
        crate::text::all_ascii(mode_text(mode)) ==> r@ == normalize_lowered_spec(lower_seq(mode_text(mode))),
{
    proof {
        reveal_strlit("keep");
    }
    let lowered = match mode {
        Some(s) => to_lowercase(s),
        None => to_lowercase("keep"),
    };
    normalize_lowered(lowered.as_str())
}

/// Does the mode mean "leave textures as they are"?
pub fn is_keep(mode: &str) -> (r: bool)
    ensures
        r == (normalize_mode_spec(Some(mode@)) == "keep"@),
        crate::text::all_ascii(mode@) ==> normalize_mode_spec(Some(mode@)) == normalize_lowered_spec(lower_seq(mode@)),
{
    let n = normalize_mode(Some(mode));
    str_eq(n.as_str(), "keep")
}

/// What the installed texture tools offer, as observed on disk.
pub struct ToolAvailability {
    /// The packaged texture tool exists.
    pub texture_bin: bool,
    /// The source-tree texture script exists.
    pub texture_py: bool,
    /// The Python interpreter can be launched.
    pub python: bool,
    /// The `basisu` encoder exists.
    pub basisu: bool,
    /// The runtime is a packaged installation.
    pub packaged: bool,
}

/// Post-processing needs the texture tool (or, outside packaged installs,
/// the script and Python) and `basisu`.
pub open spec fn postprocess_spec(t: ToolAvailability) -> bool {
    (t.texture_bin || (!t.packaged && t.texture_py && t.python)) && t.basisu
}

/// Can existing tiles be post-processed into KTX2?
pub fn postprocess_available(tools: &ToolAvailability) -> (r: bool)
    ensures
        r == postprocess_spec(*tools),
{
    (tools.texture_bin || (!tools.packaged && tools.texture_py && tools.python)) && tools.basisu
}

/// When a normalized texture mode can be served.
pub open spec fn mode_servable(
    mode: Seq<char>,
    tools: ToolAvailability,
    allow_native: bool,
    native_available: bool,
) -> bool {
    ||| normalize_mode_spec(Some(mode)) == "keep"@
    ||| allow_native && native_available && mode != "ktx2-uastc"@
    ||| postprocess_spec(tools)
}

fn unavailable_message(mode: &str) -> (r: String)
    ensures
        r@ == "texture mode="@ + mode@
            + " is unavailable: the texture encoder or basisu is missing; choose keep or install the texture component"@,
{
    crate::text::concat3(
        "texture mode=",
        mode,
        " is unavailable: the texture encoder or basisu is missing; choose keep or install the texture component",
    )
}

/// Check a texture mode against the available tools and the converter's
/// native KTX2 support (which cannot produce UASTC).
pub fn validate_texture_mode_with_tools(
    mode: &str,
    tools: &ToolAvailability,
    allow_native: bool,
    native_available: bool,
) -> (r: Result<(), String>)
    ensures
        r is Ok <==> mode_servable(mode@, *tools, allow_native, native_available),
        r matches Err(e) ==> e@ == "texture mode="@ + mode@
            + " is unavailable: the texture encoder or basisu is missing; choose keep or install the texture component"@,
{
    if is_keep(mode) {
        return Ok(());
    }
    if allow_native && native_available && !str_eq(mode, "ktx2-uastc") {
        return Ok(());
    }
    if postprocess_available(tools) {
        return Ok(());
    }
    Err(unavailable_message(mode))
}

/// Validate the texture mode of a conversion (native KTX2 allowed).
pub fn validate_texture_mode(mode: &str, tools: &ToolAvailability, native_available: bool) -> (r:
    Result<(), String>)
    ensures
        r is Ok <==> mode_servable(
            normalize_mode_spec(Some(mode@)),
            *tools,
            true,
            native_available,
        ),
        r matches Err(e) ==> e@ == "texture mode="@ + normalize_mode_spec(Some(mode@))
            + " is unavailable: the texture encoder or basisu is missing; choose keep or install the texture component"@,
        crate::text::all_ascii(mode@) ==> normalize_mode_spec(Some(mode@)) == normalize_lowered_spec(lower_seq(mode@)),
{
    let m = normalize_mode(Some(mode));
    validate_texture_mode_with_tools(m.as_str(), tools, true, native_available)
}

/// Validate the texture mode of a re-processing of existing tiles (only the
/// post-process path applies).
pub fn validate_existing_tiles_texture_mode(mode: &str, tools: &ToolAvailability) -> (r: Result<
    (),
    String,
>)
    ensures
        r is Ok <==> mode_servable(normalize_mode_spec(Some(mode@)), *tools, false, false),
        r matches Err(e) ==> e@ == "texture mode="@ + normalize_mode_spec(Some(mode@))
            + " is unavailable: the texture encoder or basisu is missing; choose keep or install the texture component"@,
{
    let m = normalize_mode(Some(mode));
    validate_texture_mode_with_tools(m.as_str(), tools, false, false)
}

/// The converter itself writes KTX2 for this mode (ETC1S only).
pub fn native_texture_mode_available(mode: &str, native_supported: bool) -> (r: bool)
    ensures
        r == (normalize_mode_spec(Some(mode@)) == "ktx2-etc1s"@ && native_supported),
{
    let m = normalize_mode(Some(mode));
    str_eq(m.as_str(), "ktx2-etc1s") && native_supported
}

/// Text mentions the basisu extension, the KTX2 MIME type or a `.ktx2` file.
pub open spec fn ktx2_text(s: Seq<char>) -> bool {
    contains(s, "KHR_texture_basisu"@) || contains(s, "image/ktx2"@) || contains(s, ".ktx2"@)
}

/// Does glTF JSON text mention KTX2?
pub fn text_has_ktx2(s: &str) -> (r: bool)
    ensures
        r == ktx2_text(s@),
{
    str_contains(s, "KHR_texture_basisu") || str_contains(s, "image/ktx2") || str_contains(
        s,
        ".ktx2",
    )
}

/// The KTX2 marker byte string the evidence scan looks for.
pub open spec fn ktx2_marker() -> Seq<u8> {
    seq![0xabu8, 0x4bu8, 0x54u8, 0x58u8, 0x20u8, 0x32u8, 0x30u8, 0x0du8, 0x0au8, 0x1au8, 0x0au8]
}

/// Bytes that decode as UTF-8 text mentioning KTX2.
pub open spec fn utf8_has_ktx2(b: Seq<u8>) -> bool {
    valid_utf8(b) && ktx2_text(decode_utf8(b))
}

/// KTX2 evidence in a content file with the given (lower-cased) extension.
pub open spec fn ktx2_evidence_spec(ext: Seq<char>, data: Seq<u8>) -> bool {
    if ext == "gltf"@ {
        utf8_has_ktx2(data)
    } else {
        let glb = if ext == "b3dm"@ {
            match embedded_glb_start(data) {
                Some(o) => data.subrange(o, data.len() as int),
                None => Seq::<u8>::empty(),
            }
        } else {
            data
        };
        if glb.len() < 20 || !bytes_occur_at(glb, gltf_magic(), 0) {
            bytes_contain(data, ktx2_marker())
        } else {
            let end = 20 + le_u32(glb, 12);
            (end <= glb.len() && utf8_has_ktx2(glb.subrange(20, end))) || bytes_contain(
                glb,
                ktx2_marker(),
            )
        }
    }
}

fn utf8_text_has_ktx2(b: &[u8]) -> (r: bool)
    ensures
        r == utf8_has_ktx2(b@),
{
    match str_from_utf8(b) {
        Ok(s) => text_has_ktx2(s),
        Err(_) => false,
    }
}

/// Does a content file (`ext` as on disk, any case) carry KTX2 evidence:
/// glTF JSON mentioning KTX2, a GLB/B3DM whose JSON chunk mentions it, or
/// the KTX2 marker bytes?
pub fn file_has_ktx2_evidence(ext: &str, data: &[u8]) -> (r: bool)
    ensures
        r == ktx2_evidence_spec(lower_seq(ext@), data@),
{
    let ext_chars = chars_of(ext);
    let lower = lower_chars(&ext_chars);
    let marker: [u8; 11] = [0xab, 0x4b, 0x54, 0x58, 0x20, 0x32, 0x30, 0x0d, 0x0a, 0x1a, 0x0a];
    assert(marker@ == ktx2_marker());
    if eq_lit(&lower, "gltf") {
        return utf8_text_has_ktx2(data);
    }
    let glb: &[u8] = if eq_lit(&lower, "b3dm") {
        match extract_glb_from_b3dm(data) {
            Some(o) => vstd::slice::slice_subrange(data, o, data.len()),
            None => {
                let empty: &[u8] = &[];
                assert(empty@ =~= Seq::<u8>::empty());
                empty
            },
        }
    } else {
        data
    };
    if glb.len() < 20 || !(glb[0] == 0x67 && glb[1] == 0x6c && glb[2] == 0x54 && glb[3] == 0x46) {
        proof {
            if glb@.len() >= 20 && bytes_occur_at(glb@, gltf_magic(), 0) {
                assert(glb@[0] == glb@.subrange(0, 4)[0]);
                assert(glb@[1] == glb@.subrange(0, 4)[1]);
                assert(glb@[2] == glb@.subrange(0, 4)[2]);
                assert(glb@[3] == glb@.subrange(0, 4)[3]);
            }
        }
        return bytes_contain_exec(data, &marker);
    }
    assert(glb@.subrange(0, 4) =~= gltf_magic());
    let json_len = read_u32_le(glb, 12) as u64;
    let json_end = 20 + json_len;
    if json_end <= glb.len() as u64 {
        let end = json_end as usize;
        if utf8_text_has_ktx2(vstd::slice::slice_subrange(glb, 20, end)) {
            return true;
        }
    }
    bytes_contain_exec(glb, &marker)
}

/// The `GEOFORGE_NATIVE_KTX2` setting turns native KTX2 on when it is `1`
/// or `true` in any ASCII case.
pub fn native_ktx2_setting(value: &str) -> (r: bool)
    ensures
        r == (value@ == "1"@ || lower_seq(value@) == "true"@),
{
    let v = chars_of(value);
    let l = lower_chars(&v);
    str_eq(value, "1") || eq_lit(&l, "true")
}

/// The converter's help text shows that it can compress textures itself.
pub fn help_offers_texture_compress(succeeded: bool, stdout: &str, stderr: &str) -> (r: bool)
    ensures
        r == (succeeded && (contains(stdout@, "--enable-texture-compress"@) || contains(
            stderr@,
            "--enable-texture-compress"@,
        ))),
{
    succeeded && (str_contains(stdout, "--enable-texture-compress") || str_contains(
        stderr,
        "--enable-texture-compress",
    ))
}

/// How the texture stage treats a finished conversion.
#[derive(Debug, Clone, Copy, PartialEq, Eq)]
pub enum TextureStep {
    /// Textures are left as they are.
    Keep,
    /// The converter already wrote KTX2.
    Native,
    /// The texture tool post-processes the output.
    PostProcess,
}

/// The step for a requested mode: keep when it normalizes to keep; native
/// when the converter can write this mode and KTX2 evidence is present in
/// the output; else post-processing.
pub fn texture_step(mode: &str, native_supported: bool, native_evidence: bool) -> (r: TextureStep)
    ensures
        normalize_mode_spec(Some(mode@)) == "keep"@ ==> r == TextureStep::Keep,
        normalize_mode_spec(Some(mode@)) != "keep"@ ==> (r == TextureStep::Native <==> (
        normalize_mode_spec(Some(mode@)) == "ktx2-etc1s"@ && native_supported && native_evidence)),
        normalize_mode_spec(Some(mode@)) != "keep"@ ==> r != TextureStep::Keep,
{
    if is_keep(mode) {
        return TextureStep::Keep;
    }
    if native_texture_mode_available(mode, native_supported) && native_evidence {
        TextureStep::Native
    } else {
        TextureStep::PostProcess
    }
}

/// Where the texture tools are, as far as the post-process command needs:
/// `texture_bin` and `basisu` are `Some` only when the file exists.
#[derive(Debug, Clone)]
pub struct TextureTools {
    pub texture_bin: Option<String>,
    pub python: String,
    pub texture_py: String,
    pub basisu: Option<String>,
}

/// The post-process command: the packaged texture tool when it exists,
/// else the texture script under Python; `--basisu` added when the encoder
/// exists.
pub open spec fn texture_command_spec(tools: TextureTools, out_dir: Seq<char>, mode: Seq<char>) -> Seq<
    Seq<char>,
> {
    let head = match tools.texture_bin {
        Some(b) => seq![b@],
        None => seq![tools.python@, tools.texture_py@],
    };
    let tail = match tools.basisu {
        Some(b) => seq!["--basisu"@, b@],
        None => Seq::empty(),
    };
    head + seq!["-i"@, out_dir, "--mode"@, mode] + tail
}

/// Build the post-process command.
pub fn texture_command(tools: &TextureTools, out_dir: &str, mode: &str) -> (r: Vec<String>)
    ensures
        crate::scan::strs(r@) == texture_command_spec(*tools, out_dir@, mode@),
{
    let mut cmd: Vec<String> = Vec::new();
    match &tools.texture_bin {
        Some(b) => {
            cmd.push(b.clone());
        },
        None => {
            cmd.push(tools.python.clone());
            cmd.push(tools.texture_py.clone());
        },
    }
    cmd.push("-i".to_owned());
    cmd.push(out_dir.to_owned());
    cmd.push("--mode".to_owned());
    cmd.push(mode.to_owned());
    match &tools.basisu {
        Some(b) => {
            cmd.push("--basisu".to_owned());
            cmd.push(b.clone());
        },
        None => {},
    }
    assert(crate::scan::strs(cmd@) =~= texture_command_spec(*tools, out_dir@, mode@));
    cmd
}

/// The verdict after the post-process ran: a cancel wins, then a non-zero
/// exit, then missing KTX2 evidence; otherwise the stage succeeds.
pub fn texture_postprocess_verdict(cancelled: bool, exit_code: i32, found: bool, mode: &str, out_dir: &str) -> (r:
    Result<(), String>)
    ensures
        cancelled ==> (r matches Err(e) && e@ == "cancelled"@),
        !cancelled && exit_code != 0 ==> (r matches Err(e) && e@ == "texture post-process exited "@
            + crate::text::int_chars(exit_code as int)),
        !cancelled && exit_code == 0 && !found ==> (r matches Err(e) && e@ == "KTX2 mode="@ + mode@
            + " was requested, but no KTX2 evidence found under "@ + out_dir@),
        r is Ok <==> (!cancelled && exit_code == 0 && found),
{
    if cancelled {
        return Err("cancelled".to_owned());
    }
    if exit_code != 0 {
        return Err(crate::text::concat2(
            "texture post-process exited ",
            crate::text::int_string(exit_code as i64).as_str(),
        ));
    }
    if !found {
        let a = crate::text::concat3(
            "KTX2 mode=",
            mode,
            " was requested, but no KTX2 evidence found under ",
        );
        return Err(crate::text::concat2(a.as_str(), out_dir));
    }
    Ok(())
}

/// How deep below the output root the KTX2 evidence walk descends.
pub const MAX_EVIDENCE_DEPTH: u32 = 12;

/// What the evidence walk does with a file, by its extension.
#[derive(Debug, Clone, Copy, PartialEq, Eq, Structural)]
pub enum EvidenceCheck {
    /// A standalone `.ktx2` file: evidence by itself.
    Standalone,
    /// glTF, GLB or B3DM content: its bytes are inspected.
    Inspect,
    /// Anything else.
    Ignore,
}

/// The check for a file with extension `ext` (ASCII case-insensitively).
pub fn evidence_check(ext: &str) -> (r: EvidenceCheck)
    ensures
        lower_seq(ext@) == "ktx2"@ ==> r == EvidenceCheck::Standalone,
        (lower_seq(ext@) == "glb"@ || lower_seq(ext@) == "b3dm"@ || lower_seq(ext@) == "gltf"@)
            ==> r == EvidenceCheck::Inspect,
        !(lower_seq(ext@) == "ktx2"@ || lower_seq(ext@) == "glb"@ || lower_seq(ext@) == "b3dm"@
            || lower_seq(ext@) == "gltf"@) ==> r == EvidenceCheck::Ignore,
{
    proof {
        reveal_strlit("ktx2");
        reveal_strlit("glb");
        reveal_strlit("b3dm");
        reveal_strlit("gltf");
        assert("ktx2"@[0] != "glb"@[0] && "ktx2"@[0] != "b3dm"@[0] && "ktx2"@[1] != "gltf"@[1]);
    }
    let l = lower_chars(&chars_of(ext));
    if eq_lit(&l, "ktx2") {
        EvidenceCheck::Standalone
    } else if eq_lit(&l, "glb") || eq_lit(&l, "b3dm") || eq_lit(&l, "gltf") {
        EvidenceCheck::Inspect
    } else {
        EvidenceCheck::Ignore
    }
}

} // verus!
