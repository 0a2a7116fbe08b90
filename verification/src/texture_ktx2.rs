//! B3DM / GLB container handling for the KTX2 texture post-process: the
//! 4-byte alignment rule, splitting a B3DM into header and embedded GLB,
//! walking GLB chunks and assembling a GLB from its JSON and binary chunks.

use crate::bytes::{
    bytes_occur_at, bytes_occur_at_exec, copy_range, le_bytes, le_u32, lemma_le_at, lemma_le_roundtrip,
    push_all, push_repeat, push_u32_le, read_u32_le,
};
use crate::text::{dec_chars, dec_string};
use vstd::prelude::*;
use vstd::string::StringExecFns;

verus! {

/// `"glTF"`.
pub open spec fn gltf_magic() -> Seq<u8> {
    seq![0x67u8, 0x6cu8, 0x54u8, 0x46u8]
}

/// `"b3dm"`.
pub open spec fn b3dm_magic() -> Seq<u8> {
    seq![0x62u8, 0x33u8, 0x64u8, 0x6du8]
}

/// `"JSON"`, the type of a GLB JSON chunk.
pub open spec fn json_chunk_type() -> Seq<u8> {
    seq![0x4au8, 0x53u8, 0x4fu8, 0x4eu8]
}

/// `"BIN"`, the prefix of the type of a GLB binary chunk.
pub open spec fn bin_chunk_prefix() -> Seq<u8> {
    seq![0x42u8, 0x49u8, 0x4eu8]
}

/// Padding that brings `n` to a multiple of four.
pub open spec fn pad4_spec(n: int) -> int {
    (4 - (n % 4)) % 4
}

/// Number of bytes to add to `n` to reach a multiple of four.
pub fn pad4(n: usize) -> (p: usize)
    ensures
        p == pad4_spec(n as int),
        p < 4,
        (n + p) % 4 == 0,
{
    (4 - (n % 4)) % 4
}

/// Pad `buf` with zero bytes to a multiple of four.
pub fn align4(buf: &mut Vec<u8>)
    ensures
        final(buf)@ == old(buf)@ + Seq::new(pad4_spec(old(buf)@.len() as int) as nat, |_i: int| 0u8),
        final(buf)@.len() % 4 == 0,
{
    let pad = pad4(buf.len());
    push_repeat(buf, 0u8, pad);
}

fn is_gltf_at(data: &[u8], i: usize) -> (r: bool)
    ensures
        r == bytes_occur_at(data@, gltf_magic(), i as int),
{
    let magic: [u8; 4] = [0x67u8, 0x6cu8, 0x54u8, 0x46u8];
    assert(magic@ == gltf_magic());
    bytes_occur_at_exec(data, &magic, i)
}

fn is_b3dm_at_start(data: &[u8]) -> (r: bool)
    ensures
        r == bytes_occur_at(data@, b3dm_magic(), 0),
{
    let magic: [u8; 4] = [0x62u8, 0x33u8, 0x64u8, 0x6du8];
    assert(magic@ == b3dm_magic());
    bytes_occur_at_exec(data, &magic, 0)
}

/// Offset where a B3DM's body (the embedded GLB) should start according to
/// its header: 28 header bytes plus the four table lengths.
pub open spec fn b3dm_body_start(data: Seq<u8>) -> int {
    28 + le_u32(data, 12) + le_u32(data, 16) + le_u32(data, 20) + le_u32(data, 24)
}

/// First `base + pad` (for `pad` from `start` up to 7) where `"glTF"` occurs.
pub open spec fn first_gltf(data: Seq<u8>, base: int, pad: int) -> Option<int>
    decreases 8 - pad,
{
    if pad >= 8 {
        None
    } else if bytes_occur_at(data, gltf_magic(), base + pad) {
        Some(base + pad)
    } else {
        first_gltf(data, base, pad + 1)
    }
}

/// Where a B3DM splits into header and GLB, or why it cannot be split.
pub open spec fn b3dm_split(data: Seq<u8>) -> Result<int, Seq<char>> {
    if data.len() < 28 || !bytes_occur_at(data, b3dm_magic(), 0) {
        Err("not b3dm"@)
    } else if b3dm_body_start(data) + 4 > data.len() {
        Err("b3dm truncated"@)
    } else {
        match first_gltf(data, b3dm_body_start(data), 0) {
            Some(o) => Ok(o),
            None => Err("glb not found in b3dm"@),
        }
    }
}

fn b3dm_body_start_exec(data: &[u8]) -> (r: u64)
    requires
        data@.len() >= 28,
    ensures
        r as int == b3dm_body_start(data@),
{
    let a = read_u32_le(data, 12) as u64;
    let b = read_u32_le(data, 16) as u64;
    let c = read_u32_le(data, 20) as u64;
    let d = read_u32_le(data, 24) as u64;
    28 + a + b + c + d
}

fn find_gltf(data: &[u8], base: usize) -> (r: Option<usize>)
    ensures
        match r {
            Some(o) => first_gltf(data@, base as int, 0) == Some(o as int) && bytes_occur_at(
                data@,
                gltf_magic(),
                o as int,
            ),
            None => first_gltf(data@, base as int, 0) == None::<int>,
        },
{
    let mut pad: usize = 0;
    while pad < 8
        invariant
            pad <= 8,
            first_gltf(data@, base as int, 0) == first_gltf(data@, base as int, pad as int),
        decreases 8 - pad,
    {
        if base <= data.len() && pad <= data.len() - base && is_gltf_at(data, base + pad) {
            return Some(base + pad);
        }
        pad += 1;
    }
    None
}

/// Split a B3DM into its header (everything before the embedded GLB) and
/// the GLB. The GLB is looked for at the offset the header gives, or up
/// to seven bytes later (writers that pad the tables).
pub fn parse_b3dm(data: &[u8]) -> (r: Result<(Vec<u8>, Vec<u8>), String>)
    ensures
        match r {
            Ok((header, glb)) => b3dm_split(data@) == Ok::<int, Seq<char>>(header@.len() as int)
                && header@ + glb@ == data@,
            Err(e) => b3dm_split(data@) == Err::<int, Seq<char>>(e@),
        },
{
    if data.len() < 28 || !is_b3dm_at_start(data) {
        return Err("not b3dm".to_owned());
    }
    let base = b3dm_body_start_exec(data);
    if base + 4 > data.len() as u64 {
        return Err("b3dm truncated".to_owned());
    }
    let base = base as usize;
    match find_gltf(data, base) {
        Some(o) => {
            let header = copy_range(data, 0, o);
            let glb = copy_range(data, o, data.len());
            assert(header@ + glb@ =~= data@);
            Ok((header, glb))
        },
        None => Err("glb not found in b3dm".to_owned()),
    }
}

/// Where the GLB inside a B3DM begins for KTX2 evidence scanning: the
/// header's offset, or the first `"glTF"` within seven bytes after it when
/// the header offset does not hold one; `None` when the offset is past the
/// data or the file is not a B3DM.
pub open spec fn embedded_glb_start(data: Seq<u8>) -> Option<int> {
    if data.len() < 28 || !bytes_occur_at(data, b3dm_magic(), 0) {
        None
    } else if b3dm_body_start(data) >= data.len() {
        None
    } else if b3dm_body_start(data) + 4 <= data.len() && !bytes_occur_at(
        data,
        gltf_magic(),
        b3dm_body_start(data),
    ) {
        match first_gltf(data, b3dm_body_start(data), 0) {
            Some(o) => Some(o),
            None => Some(b3dm_body_start(data)),
        }
    } else {
        Some(b3dm_body_start(data))
    }
}

/// Offset of the embedded GLB of a B3DM (see `embedded_glb_start`).
pub fn extract_glb_from_b3dm(data: &[u8]) -> (r: Option<usize>)
    ensures
        match r {
            Some(o) => embedded_glb_start(data@) == Some(o as int) && o < data@.len(),
            None => embedded_glb_start(data@) == None::<int>,
        },
{
    if data.len() < 28 || !is_b3dm_at_start(data) {
        return None;
    }
    let base = b3dm_body_start_exec(data);
    if base >= data.len() as u64 {
        return None;
    }
    let base = base as usize;
    if data.len() - base >= 4 && !is_gltf_at(data, base) {
        match find_gltf(data, base) {
            Some(o) => Some(o),
            None => Some(base),
        }
    } else {
        Some(base)
    }
}

/// The byte contents of a list of byte vectors.
pub open spec fn views(s: Seq<Vec<u8>>) -> Seq<Seq<u8>> {
    s.map_values(|v: Vec<u8>| v@)
}

/// The chunks of a GLB that matter to the texture rewrite: every JSON chunk
/// in file order and the last binary chunk (empty when there is none).
pub struct GlbChunks {
    pub json: Vec<Vec<u8>>,
    pub bin: Vec<u8>,
}

/// Walk the chunk list of a GLB from `pos`, stopping at the declared total
/// `length`, at the end of the data, or at a chunk that overruns the data.
pub open spec fn glb_scan(glb: Seq<u8>, length: int, pos: int, json: Seq<Seq<u8>>, bin: Seq<u8>) -> (
    Seq<Seq<u8>>,
    Seq<u8>,
)
    decreases glb.len() - pos,
{
    if pos >= 0 && pos + 8 <= glb.len() && pos < length {
        let clen = le_u32(glb, pos);
        let start = pos + 8;
        if start + clen > glb.len() {
            (json, bin)
        } else {
            let chunk = glb.subrange(start, start + clen);
            let kind = glb.subrange(pos + 4, pos + 8);
            if kind == json_chunk_type() {
                glb_scan(glb, length, start + clen, json.push(chunk), bin)
            } else if kind.take(3) == bin_chunk_prefix() {
                glb_scan(glb, length, start + clen, json, chunk)
            } else {
                glb_scan(glb, length, start + clen, json, bin)
            }
        }
    } else {
        (json, bin)
    }
}

/// The chunk split of a GLB, or why the data is not a usable GLB.
pub open spec fn glb_chunks_spec(glb: Seq<u8>) -> Result<(Seq<Seq<u8>>, Seq<u8>), Seq<char>> {
    if glb.len() < 12 || !bytes_occur_at(glb, gltf_magic(), 0) {
        Err("not glb"@)
    } else if le_u32(glb, 4) != 2 {
        Err("unsupported glTF version "@ + dec_chars(le_u32(glb, 4) as nat))
    } else {
        Ok(glb_scan(glb, le_u32(glb, 8), 12, seq![], seq![]))
    }
}

/// The JSON chunks and binary chunk of a GLB (version 2 only).
pub fn glb_chunks(glb: &[u8]) -> (r: Result<GlbChunks, String>)
    ensures
        match r {
            Ok(c) => glb_chunks_spec(glb@) == Ok::<(Seq<Seq<u8>>, Seq<u8>), Seq<char>>(
                (views(c.json@), c.bin@),
            ),
            Err(e) => glb_chunks_spec(glb@) == Err::<(Seq<Seq<u8>>, Seq<u8>), Seq<char>>(e@),
        },
{
    if glb.len() < 12 || !is_gltf_at(glb, 0) {
        return Err("not glb".to_owned());
    }
    let version = read_u32_le(glb, 4);
    if version != 2 {
        return Err("unsupported glTF version ".to_owned().concat(dec_string(version as u64).as_str()));
    }
    let length = read_u32_le(glb, 8) as usize;
    let mut pos: usize = 12;
    let mut json: Vec<Vec<u8>> = Vec::new();
    let mut bin: Vec<u8> = Vec::new();
    assert(views(json@) =~= Seq::<Seq<u8>>::empty());
    assert(glb_chunks_spec(glb@) == Ok::<(Seq<Seq<u8>>, Seq<u8>), Seq<char>>(
        glb_scan(glb@, length as int, 12, seq![], seq![])));
    while pos <= glb.len() && 8 <= glb.len() - pos && pos < length
        invariant
            12 <= pos <= glb@.len(),
            length as int == le_u32(glb@, 8),
            glb_chunks_spec(glb@) == Ok::<(Seq<Seq<u8>>, Seq<u8>), Seq<char>>(
                glb_scan(glb@, length as int, 12, seq![], seq![]),
            ),
            glb_scan(glb@, length as int, 12, seq![], seq![]) == glb_scan(
                glb@,
                length as int,
                pos as int,
                views(json@),
                bin@,
            ),
        decreases glb@.len() - pos,
    {
        let clen = read_u32_le(glb, pos) as usize;
        let start = pos + 8;
        if clen > glb.len() - start {
            assert(glb_scan(glb@, length as int, pos as int, views(json@), bin@)
                == (views(json@), bin@));
            return Ok(GlbChunks { json, bin });
        }
        let chunk = copy_range(glb, start, start + clen);
        let is_json = glb[pos + 4] == 0x4a && glb[pos + 5] == 0x53 && glb[pos + 6] == 0x4f
            && glb[pos + 7] == 0x4e;
        let is_bin = glb[pos + 4] == 0x42 && glb[pos + 5] == 0x49 && glb[pos + 6] == 0x4e;
        let ghost kind = glb@.subrange(pos + 4, pos + 8);
        assert(is_json == (kind == json_chunk_type())) by {
            if is_json {
                assert(kind =~= json_chunk_type());
            }
        }
        assert(is_bin == (kind.take(3) == bin_chunk_prefix())) by {
            if is_bin {
                assert(kind.take(3) =~= bin_chunk_prefix());
            }
        }
        let ghost before = views(json@);
        if is_json {
            json.push(chunk);
            assert(views(json@) =~= before.push(
                glb@.subrange(start as int, start + clen),
            ));
        } else if is_bin {
            bin = chunk;
        }
        pos = start + clen;
    }
    assert(glb_scan(glb@, length as int, pos as int, views(json@), bin@) == (
    views(json@), bin@));
    Ok(GlbChunks { json, bin })
}

/// The bytes of a GLB assembled from a JSON chunk and a binary chunk: the
/// JSON is padded with spaces and the binary with zeros to four bytes.
pub open spec fn glb_bytes(json: Seq<u8>, bin: Seq<u8>) -> Seq<u8> {
    let jp = json + Seq::new(pad4_spec(json.len() as int) as nat, |_i: int| 0x20u8);
    let bp = bin + Seq::new(pad4_spec(bin.len() as int) as nat, |_i: int| 0u8);
    let total = 12 + 8 + jp.len() + 8 + bp.len();
    gltf_magic() + le_bytes(2) + le_bytes(total as u32) + le_bytes(jp.len() as u32)
        + json_chunk_type() + jp + le_bytes(bp.len() as u32) + bin_chunk_prefix().push(0u8) + bp
}

/// Assemble a version-2 GLB from serialized JSON and binary data.
pub fn build_glb(json: &[u8], bin_data: &[u8]) -> (out: Vec<u8>)
    requires
        json@.len() + bin_data@.len() + 40 <= usize::MAX,
    ensures
        out@ == glb_bytes(json@, bin_data@),
{
    let mut json_bytes: Vec<u8> = Vec::new();
    push_all(&mut json_bytes, json);
    let jpad = pad4(json_bytes.len());
    push_repeat(&mut json_bytes, 0x20u8, jpad);
    let mut bin_padded: Vec<u8> = Vec::new();
    push_all(&mut bin_padded, bin_data);
    let bpad = pad4(bin_padded.len());
    push_repeat(&mut bin_padded, 0u8, bpad);
    let total = 12 + 8 + json_bytes.len() + 8 + bin_padded.len();
    let mut out: Vec<u8> = Vec::new();
    let magic: [u8; 4] = [0x67u8, 0x6cu8, 0x54u8, 0x46u8];
    push_all(&mut out, &magic);
    push_u32_le(&mut out, 2);
    push_u32_le(&mut out, total as u32);
    push_u32_le(&mut out, json_bytes.len() as u32);
    let jtag: [u8; 4] = [0x4au8, 0x53u8, 0x4fu8, 0x4eu8];
    push_all(&mut out, &jtag);
    push_all(&mut out, json_bytes.as_slice());
    push_u32_le(&mut out, bin_padded.len() as u32);
    let btag: [u8; 4] = [0x42u8, 0x49u8, 0x4eu8, 0u8];
    push_all(&mut out, &btag);
    push_all(&mut out, bin_padded.as_slice());
    assert(magic@ == gltf_magic());
    assert(jtag@ == json_chunk_type());
    assert(btag@ == bin_chunk_prefix().push(0u8));
    assert(out@ =~= glb_bytes(json@, bin_data@));
    out
}

/// The 20 bytes of an assembled GLB before its JSON chunk data.
pub open spec fn glb_prefix(total: int, jlen: int) -> Seq<u8> {
    gltf_magic() + le_bytes(2) + le_bytes(total as u32) + le_bytes(jlen as u32) + json_chunk_type()
}

/// The 8 bytes of an assembled GLB between its JSON data and binary data.
pub open spec fn glb_bin_header(blen: int) -> Seq<u8> {
    le_bytes(blen as u32) + bin_chunk_prefix().push(0u8)
}

proof fn lemma_glb_layout(json: Seq<u8>, bin: Seq<u8>)
    ensures
        ({
            let jp = json + Seq::new(pad4_spec(json.len() as int) as nat, |_i: int| 0x20u8);
            let bp = bin + Seq::new(pad4_spec(bin.len() as int) as nat, |_i: int| 0u8);
            let total = 12 + 8 + jp.len() + 8 + bp.len();
            glb_bytes(json, bin) == glb_prefix(total as int, jp.len() as int) + jp + glb_bin_header(
                bp.len() as int,
            ) + bp
        }),
{
    let jp = json + Seq::new(pad4_spec(json.len() as int) as nat, |_i: int| 0x20u8);
    let bp = bin + Seq::new(pad4_spec(bin.len() as int) as nat, |_i: int| 0u8);
    let total = 12 + 8 + jp.len() + 8 + bp.len();
    assert(glb_bytes(json, bin) =~= glb_prefix(total as int, jp.len() as int) + jp + glb_bin_header(
        bp.len() as int,
    ) + bp);
}

proof fn lemma_glb_prefix(total: int, jlen: int)
    ensures
        glb_prefix(total, jlen).len() == 20,
        glb_prefix(total, jlen).subrange(0, 4) == gltf_magic(),
        glb_prefix(total, jlen).subrange(4, 8) == le_bytes(2),
        glb_prefix(total, jlen).subrange(8, 12) == le_bytes(total as u32),
        glb_prefix(total, jlen).subrange(12, 16) == le_bytes(jlen as u32),
        glb_prefix(total, jlen).subrange(16, 20) == json_chunk_type(),
{
    let p = glb_prefix(total, jlen);
    assert(p.subrange(0, 4) =~= gltf_magic());
    assert(p.subrange(4, 8) =~= le_bytes(2));
    assert(p.subrange(8, 12) =~= le_bytes(total as u32));
    assert(p.subrange(12, 16) =~= le_bytes(jlen as u32));
    assert(p.subrange(16, 20) =~= json_chunk_type());
}

/// Walking the chunks of an assembled GLB gives back exactly the padded
/// JSON chunk and the padded binary chunk that went in.
#[verifier::rlimit(50)]
pub proof fn lemma_glb_roundtrip(json: Seq<u8>, bin: Seq<u8>)
    requires
        json.len() + bin.len() + 40 < 0x1_0000_0000,
    ensures
        glb_chunks_spec(glb_bytes(json, bin)) == Ok::<(Seq<Seq<u8>>, Seq<u8>), Seq<char>>(
            (
                seq![json + Seq::new(pad4_spec(json.len() as int) as nat, |_i: int| 0x20u8)],
                bin + Seq::new(pad4_spec(bin.len() as int) as nat, |_i: int| 0u8),
            ),
        ),
{
    let jp = json + Seq::new(pad4_spec(json.len() as int) as nat, |_i: int| 0x20u8);
    let bp = bin + Seq::new(pad4_spec(bin.len() as int) as nat, |_i: int| 0u8);
    let total: int = (12 + 8 + jp.len() + 8 + bp.len()) as int;
    let jl = jp.len() as int;
    let pre = glb_prefix(total, jl);
    let mid = glb_bin_header(bp.len() as int);
    let g = glb_bytes(json, bin);
    lemma_glb_layout(json, bin);
    lemma_glb_prefix(total, jl);
    assert(g == pre + jp + mid + bp);
    assert(g.len() == total);
    assert(g.subrange(0, 20) =~= pre);
    assert(g.subrange(20, 20 + jl) =~= jp);
    assert(g.subrange(20 + jl, 28 + jl) =~= mid);
    assert(g.subrange(28 + jl, total) =~= bp);
    assert(g.subrange(0, 4) =~= pre.subrange(0, 4));
    assert(g.subrange(4, 8) =~= pre.subrange(4, 8));
    assert(g.subrange(8, 12) =~= pre.subrange(8, 12));
    assert(g.subrange(12, 16) =~= pre.subrange(12, 16));
    assert(g.subrange(16, 20) =~= pre.subrange(16, 20));
    lemma_le_at(g, 4, 2);
    lemma_le_at(g, 8, total as u32);
    lemma_le_at(g, 12, jl as u32);
    assert(mid.subrange(0, 4) =~= le_bytes(bp.len() as u32));
    assert(g.subrange(20 + jl, 24 + jl) =~= mid.subrange(0, 4));
    lemma_le_at(g, 20 + jl, bp.len() as u32);
    let k2 = g.subrange(24 + jl, 28 + jl);
    assert(k2 =~= mid.subrange(4, 8));
    assert(mid.subrange(4, 8) =~= bin_chunk_prefix().push(0u8));
    assert(k2.take(3) =~= bin_chunk_prefix());
    assert(k2 != json_chunk_type()) by {
        assert(k2[0] != json_chunk_type()[0]);
    }
    assert(bytes_occur_at(g, gltf_magic(), 0));
    assert(glb_scan(g, total, total, seq![jp], bp) == (seq![jp], bp));
    assert(glb_scan(g, total, 20 + jl, seq![jp], seq![]) == glb_scan(g, total, total, seq![jp], bp));
    assert(glb_scan(g, total, 12, seq![], seq![]) == glb_scan(g, total, 20 + jl, seq![jp], seq![]));
}

} // verus!
