//! The glTF document side of the KTX2 post-process: reading the document of
//! a `.gltf` file or of a GLB's JSON chunk, planning which images are
//! encoded, and rewriting the document and its binary buffer once the
//! encoder has produced KTX2 data.

use crate::gltf_textures::{
    image_source, image_source_of, source_view, ImageSource, SourceView, ViewSpan, EXT_NAME, KTX2_MIME,
};
use crate::json::{
    array_items, field, get_field, items, json_doc, json_view, parse_json, str_of, str_value, u64_of,
    u64_value, JsonValue, JsonView,
};
use crate::text::{chars_of, last_non_ws_end, lower_chars, lower_seq, string_of_chars};
use crate::texture::{str_from_utf8, utf8_error_text};
use crate::texture_ktx2::{glb_chunks, glb_chunks_spec, views};
use vstd::prelude::*;
use vstd::utf8::{decode_utf8, valid_utf8};

verus! {

/// The images of a document.
pub open spec fn doc_images(d: JsonView) -> Seq<JsonView> {
    items(field(d, "images"@))
}

/// The buffer views of a document.
pub open spec fn doc_views(d: JsonView) -> Seq<JsonView> {
    items(field(d, "bufferViews"@))
}

/// The byte ranges the buffer views declare.
pub open spec fn view_spans(bvs: Seq<JsonView>) -> Seq<ViewSpan> {
    Seq::new(
        bvs.len(),
        |k: int|
            ViewSpan {
                offset: u64_of(field(bvs[k], "byteOffset"@)),
                length: u64_of(field(bvs[k], "byteLength"@)),
            },
    )
}

/// An image's declared MIME type, ASCII lower-cased (empty when none).
pub open spec fn image_mime(img: JsonView) -> Seq<char> {
    lower_seq(
        match str_of(field(img, "mimeType"@)) {
            Some(s) => s,
            None => Seq::empty(),
        },
    )
}

/// Where one image's pixels come from.
pub open spec fn image_plan_of(img: JsonView, views: Seq<ViewSpan>, bin_len: int, has_base: bool) -> Result<
    SourceView,
    Seq<char>,
> {
    image_source_of(
        image_mime(img),
        u64_of(field(img, "bufferView"@)),
        views,
        bin_len,
        str_of(field(img, "uri"@)),
        has_base,
    )
}

/// The plan of the first `n` images, in order: for each, where its pixels
/// come from and its declared MIME type, up to the first broken image,
/// whose error comes second.
pub open spec fn encode_plan_spec(imgs: Seq<JsonView>, views: Seq<ViewSpan>, bin_len: int, has_base: bool, n: int) -> (
    Seq<(SourceView, Seq<char>)>,
    Option<Seq<char>>,
)
    decreases n,
{
    if n <= 0 {
        (Seq::empty(), None)
    } else {
        let (p, e) = encode_plan_spec(imgs, views, bin_len, has_base, n - 1);
        if e is Some {
            (p, e)
        } else {
            match image_plan_of(imgs[n - 1], views, bin_len, has_base) {
                Err(m) => (p, Some(m)),
                Ok(s) => (p.push((s, image_mime(imgs[n - 1]))), None),
            }
        }
    }
}

proof fn lemma_plan_error_stays(imgs: Seq<JsonView>, views: Seq<ViewSpan>, bin_len: int, has_base: bool, k: int, n: int)
    requires
        0 <= k <= n,
        encode_plan_spec(imgs, views, bin_len, has_base, k).1 is Some,
    ensures
        encode_plan_spec(imgs, views, bin_len, has_base, n) == encode_plan_spec(imgs, views, bin_len, has_base, k),
    decreases n - k,
{
    if n > k {
        lemma_plan_error_stays(imgs, views, bin_len, has_base, k, n - 1);
    }
}

/// The plan of a whole document, with a binary buffer of `bin_len` bytes.
pub open spec fn doc_plan(d: JsonView, bin_len: int, has_base: bool) -> (Seq<(SourceView, Seq<char>)>, Option<Seq<char>>) {
    encode_plan_spec(
        doc_images(d),
        view_spans(doc_views(d)),
        bin_len,
        has_base,
        doc_images(d).len() as int,
    )
}

/// An optional error, viewed.
pub open spec fn opt_error(e: Option<String>) -> Option<Seq<char>> {
    match e {
        Some(x) => Some(x@),
        None => None,
    }
}

/// What to do with one image: where its pixels come from, and its declared
/// MIME type (ASCII lower-cased, empty when none).
#[derive(Debug, Clone)]
pub struct ImagePlan {
    pub source: ImageSource,
    pub mime: String,
}

/// The plan as plain values.
pub open spec fn plan_views(p: Seq<ImagePlan>) -> Seq<(SourceView, Seq<char>)> {
    Seq::new(p.len(), |i: int| (source_view(p[i].source), p[i].mime@))
}

fn spans_of(bvs: &Vec<JsonValue>) -> (r: Vec<ViewSpan>)
    requires
        crate::json::iviews(*bvs).len() == bvs@.len(),
        forall|j: int| 0 <= j < bvs@.len() ==> #[trigger] crate::json::iviews(*bvs)[j] == json_view(bvs@[j]),
    ensures
        r@ == view_spans(crate::json::iviews(*bvs)),
{
    let ghost vs = crate::json::iviews(*bvs);
    let mut out: Vec<ViewSpan> = Vec::new();
    let mut k: usize = 0;
    while k < bvs.len()
        invariant
            k <= bvs@.len(),
            vs == crate::json::iviews(*bvs),
            vs.len() == bvs@.len(),
            forall|j: int| 0 <= j < bvs@.len() ==> #[trigger] vs[j] == json_view(bvs@[j]),
            out@ == view_spans(vs).take(k as int),
        decreases bvs@.len() - k,
    {
        let bv = &bvs[k];
        let s = ViewSpan {
            offset: u64_value(get_field(bv, "byteOffset")),
            length: u64_value(get_field(bv, "byteLength")),
        };
        out.push(s);
        assert(view_spans(vs).take(k + 1) =~= view_spans(vs).take(k as int).push(s));
        k += 1;
    }
    assert(view_spans(vs).take(bvs@.len() as int) =~= view_spans(vs));
    out
}

/// The buffer views of a document as byte ranges.
fn doc_spans(doc: &JsonValue) -> (r: Vec<ViewSpan>)
    ensures
        r@ == view_spans(doc_views(json_view(*doc))),
{
    match array_items(get_field(doc, "bufferViews")) {
        Some(bvs) => spans_of(bvs),
        None => {
            let r: Vec<ViewSpan> = Vec::new();
            assert(r@ =~= view_spans(Seq::<JsonView>::empty()));
            r
        },
    }
}

/// Plan the encoding of a document's images against a binary buffer of
/// `bin_len` bytes: for each image in order, where its pixels come from
/// (see `image_source`) and its declared MIME type, up to the first broken
/// image; its error comes second. The images before it are encoded (and
/// may fail) before that error is reported.
pub fn encode_plan_of(doc: &JsonValue, bin_len: usize, has_base: bool) -> (r: (Vec<ImagePlan>, Option<String>))
    ensures
        plan_views(r.0@) == doc_plan(json_view(*doc), bin_len as int, has_base).0,
        opt_error(r.1) == doc_plan(json_view(*doc), bin_len as int, has_base).1,
{
    let ghost d = json_view(*doc);
    let spans = doc_spans(doc);
    let mut out: Vec<ImagePlan> = Vec::new();
    match array_items(get_field(doc, "images")) {
        None => {
            assert(plan_views(out@) =~= Seq::<(SourceView, Seq<char>)>::empty());
            (out, None)
        },
        Some(imgs) => {
            let ghost iv = crate::json::iviews(*imgs);
            let mut i: usize = 0;
            assert(plan_views(out@) =~= Seq::<(SourceView, Seq<char>)>::empty());
            while i < imgs.len()
                invariant
                    i <= imgs@.len(),
                    d == json_view(*doc),
                    iv == doc_images(d),
                    iv.len() == imgs@.len(),
                    forall|j: int| 0 <= j < imgs@.len() ==> #[trigger] iv[j] == json_view(imgs@[j]),
                    spans@ == view_spans(doc_views(d)),
                    encode_plan_spec(iv, spans@, bin_len as int, has_base, i as int) == (
                        plan_views(out@),
                        None::<Seq<char>>,
                    ),
                decreases imgs@.len() - i,
            {
                let img = &imgs[i];
                let declared = match str_value(get_field(img, "mimeType")) {
                    Some(m) => lower_chars(&chars_of(m)),
                    None => Vec::new(),
                };
                let mime = string_of_chars(&declared);
                assert(mime@ == image_mime(iv[i as int]));
                let bv = u64_value(get_field(img, "bufferView"));
                let uri = str_value(get_field(img, "uri"));
                assert(bv == u64_of(field(iv[i as int], "bufferView"@)));
                assert(match uri {
                    Some(u) => Some(u@),
                    None => None,
                } == str_of(field(iv[i as int], "uri"@)));
                let src = image_source(mime.as_str(), bv, &spans, bin_len, uri, has_base);
                match src {
                    Err(e) => {
                        proof {
                            assert(image_plan_of(iv[i as int], spans@, bin_len as int, has_base) == Err::<SourceView, Seq<char>>(e@));
                            assert(encode_plan_spec(iv, spans@, bin_len as int, has_base, i + 1) == (
                                plan_views(out@),
                                Some(e@),
                            ));
                            lemma_plan_error_stays(iv, spans@, bin_len as int, has_base, i + 1, iv.len() as int);
                        }
                        return (out, Some(e));
                    },
                    Ok(s) => {
                        let ghost before = plan_views(out@);
                        let ghost sv = source_view(s);
                        out.push(ImagePlan { source: s, mime });
                        assert(plan_views(out@) =~= before.push((sv, image_mime(iv[i as int]))));
                    },
                }
                i += 1;
            }
            (out, None)
        },
    }
}

/// Read a `.gltf` file's text: the document `serde_json` reads (or its
/// error) and the file its binary buffer is read from (see
/// `gltf_bin_uri_spec`). Its images are planned with `encode_plan_of` once
/// that buffer is read.
pub fn read_gltf(text: &str) -> (r: Result<(JsonValue, Option<String>), String>)
    ensures
        match (r, json_doc(text@)) {
            (Ok((doc, uri)), Ok(d)) => json_view(doc) == d && match uri {
                Some(u) => gltf_bin_uri_spec(d) == Some(u@),
                None => gltf_bin_uri_spec(d) is None,
            },
            (Err(e), Err(m)) => e@ == m,
            _ => false,
        },
{
    match parse_json(text) {
        Ok(doc) => {
            let uri = gltf_bin_uri(&doc);
            Ok((doc, uri))
        },
        Err(e) => Err(e),
    }
}

/// `s` without trailing whitespace (Rust's `str::trim_end`).
pub open spec fn trim_end(s: Seq<char>) -> Seq<char> {
    s.subrange(0, last_non_ws_end(s, 0, s.len() as int))
}

/// What one JSON chunk of a GLB gives: its text, trimmed at the end and
/// read as JSON.
pub open spec fn chunk_doc(c: Seq<u8>) -> Result<JsonView, Seq<char>> {
    if !valid_utf8(c) {
        Err(utf8_error_text(c))
    } else {
        json_doc(trim_end(decode_utf8(c)))
    }
}

/// The document of the first `n` JSON chunks: the last one read wins; the
/// first that fails is the error.
pub open spec fn chunks_doc(cs: Seq<Seq<u8>>, n: int) -> Result<Option<JsonView>, Seq<char>>
    decreases n,
{
    if n <= 0 {
        Ok(None)
    } else {
        match chunks_doc(cs, n - 1) {
            Err(e) => Err(e),
            Ok(_) => match chunk_doc(cs[n - 1]) {
                Err(e) => Err(e),
                Ok(d) => Ok(Some(d)),
            },
        }
    }
}

proof fn lemma_chunks_error_stays(cs: Seq<Seq<u8>>, k: int, n: int)
    requires
        0 <= k <= n,
        chunks_doc(cs, k) is Err,
    ensures
        chunks_doc(cs, n) == chunks_doc(cs, k),
    decreases n - k,
{
    if n > k {
        lemma_chunks_error_stays(cs, k, n - 1);
    }
}

/// The document and binary buffer of a GLB, or why it has none.
pub open spec fn glb_document_spec(glb: Seq<u8>) -> Result<(JsonView, Seq<u8>), Seq<char>> {
    match glb_chunks_spec(glb) {
        Err(e) => Err(e),
        Ok((js, bin)) => match chunks_doc(js, js.len() as int) {
            Err(e) => Err(e),
            Ok(None) => Err("GLB missing JSON chunk"@),
            Ok(Some(d)) => Ok((d, bin)),
        },
    }
}

fn read_chunk(c: &Vec<u8>) -> (r: Result<JsonValue, String>)
    ensures
        match (r, chunk_doc(c@)) {
            (Ok(v), Ok(d)) => json_view(v) == d,
            (Err(e), Err(m)) => e@ == m,
            _ => false,
        },
{
    match str_from_utf8(c.as_slice()) {
        Err(e) => Err(e),
        Ok(s) => {
            let cs = chars_of(s);
            let end = crate::text::trim_end_index(&cs, 0, cs.len());
            let t = crate::text::string_of_range(s, &cs, 0, end);
            parse_json(t.as_str())
        },
    }
}

/// Read a GLB's document (the last JSON chunk, its text trimmed at the end)
/// and binary buffer, and plan the encoding of its images (no external
/// images are read for a GLB): the plan up to the first broken image, and
/// its error (see `encode_plan_of`).
pub fn glb_encode_plan(glb: &[u8]) -> (r: Result<(JsonValue, Vec<u8>, Vec<ImagePlan>, Option<String>), String>)
    ensures
        match glb_document_spec(glb@) {
            Err(m) => r matches Err(e) && e@ == m,
            Ok((d, bin)) => r matches Ok((doc, b, p, e)) && json_view(doc) == d && b@ == bin && plan_views(p@)
                == doc_plan(d, bin.len() as int, false).0 && opt_error(e) == doc_plan(d, bin.len() as int, false).1,
        },
{
    let chunks = match glb_chunks(glb) {
        Ok(c) => c,
        Err(e) => {
            return Err(e);
        },
    };
    let ghost js = views(chunks.json@);
    let mut doc: Option<JsonValue> = None;
    let mut i: usize = 0;
    while i < chunks.json.len()
        invariant
            i <= chunks.json@.len(),
            js == views(chunks.json@),
            js.len() == chunks.json@.len(),
            glb_chunks_spec(glb@) == Ok::<(Seq<Seq<u8>>, Seq<u8>), Seq<char>>((js, chunks.bin@)),
            chunks_doc(js, i as int) matches Ok(o) && match (o, doc) {
                (None, None) => true,
                (Some(d), Some(v)) => json_view(v) == d,
                _ => false,
            },
        decreases chunks.json@.len() - i,
    {
        assert(js[i as int] == chunks.json@[i as int]@);
        match read_chunk(&chunks.json[i]) {
            Err(e) => {
                proof {
                    assert(chunks_doc(js, i + 1) == Err::<Option<JsonView>, Seq<char>>(e@));
                    lemma_chunks_error_stays(js, i + 1, js.len() as int);
                }
                return Err(e);
            },
            Ok(v) => {
                doc = Some(v);
            },
        }
        i += 1;
    }
    let doc = match doc {
        None => {
            return Err("GLB missing JSON chunk".to_owned());
        },
        Some(d) => d,
    };
    let bin = chunks.bin;
    let (p, e) = encode_plan_of(&doc, bin.len(), false);
    Ok((doc, bin, p, e))
}

// ---- the rewrite ----

/// The encoded data handed in for image `i`, if any.
pub open spec fn enc_at(enc: Seq<Option<Vec<u8>>>, i: int) -> Option<Vec<u8>> {
    if 0 <= i < enc.len() {
        enc[i]
    } else {
        None
    }
}

/// Image `i` (of `n`) was encoded.
pub open spec fn is_converted(n: int, enc: Seq<Option<Vec<u8>>>, i: int) -> bool {
    0 <= i < n && enc_at(enc, i) is Some
}

/// How many of the first `k` images were encoded.
pub open spec fn converted_count(enc: Seq<Option<Vec<u8>>>, k: int) -> nat
    decreases k,
{
    if k <= 0 {
        0
    } else {
        converted_count(enc, k - 1) + if enc_at(enc, k - 1) is Some {
            1nat
        } else {
            0nat
        }
    }
}

/// Image `i` names a buffer view by something other than an index.
pub open spec fn odd_view_ref(imgs: Seq<JsonView>, i: int) -> bool {
    field(imgs[i], "bufferView"@) is Some && u64_of(field(imgs[i], "bufferView"@)) is None
}

/// The buffer view each image names by index.
pub open spec fn image_view_ids(imgs: Seq<JsonView>) -> Seq<Option<u64>> {
    Seq::new(imgs.len(), |i: int| u64_of(field(imgs[i], "bufferView"@)))
}

/// The encoded data that is laid into the new buffer: that of every
/// encoded image, except one whose buffer view is named by something other
/// than an index (its data is dropped).
pub open spec fn placed(imgs: Seq<JsonView>, enc: Seq<Option<Vec<u8>>>) -> Seq<Option<Vec<u8>>> {
    Seq::new(
        imgs.len(),
        |i: int|
            if odd_view_ref(imgs, i) {
                None
            } else {
                enc_at(enc, i)
            },
    )
}

/// The pieces of the new binary buffer (see `new_pieces`).
pub open spec fn doc_pieces(d: JsonView, bin: Seq<u8>, enc: Seq<Option<Vec<u8>>>) -> Seq<Seq<u8>> {
    crate::gltf_textures::new_pieces(
        view_spans(doc_views(d)),
        bin,
        image_view_ids(doc_images(d)),
        placed(doc_images(d), enc),
    )
}

/// An existing buffer view moved to `off`, `len` bytes long (its other
/// members kept).
pub open spec fn moved_view(bv: JsonView, off: int, len: int) -> JsonView {
    JsonView::Object(
        crate::json::member_set(
            crate::json::member_set(crate::json::members(bv), "byteOffset"@, crate::json::num(off as nat)),
            "byteLength"@,
            crate::json::num(len as nat),
        ),
    )
}

/// A new buffer view of buffer 0.
pub open spec fn added_view(off: int, len: int) -> JsonView {
    JsonView::Object(
        seq![
            ("buffer"@, crate::json::num(0)),
            ("byteOffset"@, crate::json::num(off as nat)),
            ("byteLength"@, crate::json::num(len as nat)),
        ],
    )
}

/// The buffer views after the rewrite: every old view at its new place,
/// then one new view for each encoded image that had none.
pub open spec fn new_views(d: JsonView, bin: Seq<u8>, enc: Seq<Option<Vec<u8>>>) -> Seq<JsonView> {
    let ps = doc_pieces(d, bin, enc);
    let bvs = doc_views(d);
    Seq::new(
        ps.len(),
        |k: int|
            if k < bvs.len() {
                moved_view(bvs[k], crate::gltf_textures::piece_offset(ps, k), ps[k].len() as int)
            } else {
                added_view(crate::gltf_textures::piece_offset(ps, k), ps[k].len() as int)
            },
    )
}

/// An image replaced by KTX2 data in the buffer view `bv`.
pub open spec fn ktx2_image(bv: JsonView) -> JsonView {
    JsonView::Object(seq![("mimeType"@, JsonView::Str(KTX2_MIME@)), ("bufferView"@, bv)])
}

/// The images after the rewrite: an encoded image becomes a KTX2 image in
/// the view it named (kept as written), or in its new view; the others are
/// unchanged.
pub open spec fn new_images(d: JsonView, enc: Seq<Option<Vec<u8>>>) -> Seq<JsonView> {
    let imgs = doc_images(d);
    Seq::new(
        imgs.len(),
        |i: int|
            if enc_at(enc, i) is Some {
                match field(imgs[i], "bufferView"@) {
                    Some(bv) => ktx2_image(bv),
                    None => ktx2_image(
                        crate::json::num(
                            (doc_views(d).len() + crate::gltf_textures::external_images(
                                image_view_ids(imgs),
                                placed(imgs, enc),
                                i,
                            ).len()) as nat,
                        ),
                    ),
                }
            } else {
                imgs[i]
            },
    )
}

/// A buffer that is only a length.
pub open spec fn empty_buffer() -> JsonView {
    JsonView::Object(seq![("byteLength"@, crate::json::num(0))])
}

/// The buffers before the rewrite touches buffer 0 (one empty buffer when
/// the document lists none).
pub open spec fn buffers_in(d: JsonView) -> Seq<JsonView> {
    match field(d, "buffers"@) {
        Some(JsonView::Array(a)) => if a.len() == 0 {
            seq![empty_buffer()]
        } else {
            a
        },
        _ => seq![empty_buffer()],
    }
}

/// The buffers after the rewrite: buffer 0 is `len` bytes long and no
/// longer points at a file.
pub open spec fn new_buffers(d: JsonView, len: int) -> Seq<JsonView> {
    let b = buffers_in(d);
    b.update(
        0,
        JsonView::Object(
            crate::json::member_remove(
                crate::json::member_set(crate::json::members(b[0]), "byteLength"@, crate::json::num(len as nat)),
                "uri"@,
            ),
        ),
    )
}

/// A texture pointed at the Basis Universal extension for image `src`
/// (its `source` kept).
pub open spec fn basisu_texture(tex: JsonView, src: u64) -> JsonView {
    let t = crate::json::member_remove(crate::json::members(tex), "source"@);
    let exts = crate::json::opt_members(crate::json::member_get(t, "extensions"@));
    let exts2 = crate::json::member_set(
        exts,
        EXT_NAME@,
        JsonView::Object(seq![("source"@, crate::json::num(src as nat))]),
    );
    JsonView::Object(
        crate::json::member_set(
            crate::json::member_set(t, "extensions"@, JsonView::Object(exts2)),
            "source"@,
            crate::json::num(src as nat),
        ),
    )
}

/// A texture after the rewrite: one whose source image was encoded now or
/// is KTX2 uses the extension; the others are unchanged.
pub open spec fn new_texture(tex: JsonView, imgs2: Seq<JsonView>, n: int, enc: Seq<Option<Vec<u8>>>) -> JsonView {
    match u64_of(field(tex, "source"@)) {
        None => tex,
        Some(src) => if is_converted(n, enc, src as int) || (src < imgs2.len() && str_of(
            field(imgs2[src as int], "mimeType"@),
        ) == Some(KTX2_MIME@)) {
            basisu_texture(tex, src)
        } else {
            tex
        },
    }
}

/// The list with the extension's name added when it is not there.
pub open spec fn with_ext(entries: Seq<JsonView>) -> Seq<JsonView> {
    if exists|i: int| 0 <= i < entries.len() && entries[i] == JsonView::Str(EXT_NAME@) {
        entries
    } else {
        entries.push(JsonView::Str(EXT_NAME@))
    }
}

/// The new buffer fits a `Vec<u8>`: at most `isize::MAX` bytes.
pub open spec fn rewrite_fits(d: JsonView, bin: Seq<u8>, enc: Seq<Option<Vec<u8>>>) -> bool {
    crate::gltf_textures::laid(doc_pieces(d, bin, enc)).len() <= isize::MAX
}

/// The rewritten document, its new binary buffer and how many images were
/// encoded. With no image encoded, the document and the buffer are
/// unchanged. Otherwise the images, buffer views, buffers and textures are
/// replaced as `new_images`, `new_views`, `new_buffers` and `new_texture`
/// say, and the extension is listed in `extensionsUsed` and
/// `extensionsRequired`.
pub open spec fn rewrite_gltf_spec(d: JsonView, bin: Seq<u8>, enc: Seq<Option<Vec<u8>>>) -> (JsonView, Seq<u8>, nat) {
    let imgs = doc_images(d);
    let n = converted_count(enc, imgs.len() as int);
    if n == 0 {
        (d, bin, 0)
    } else {
        let ps = doc_pieces(d, bin, enc);
        let nb = crate::gltf_textures::laid(ps);
        let imgs2 = new_images(d, enc);
        let texs = items(field(d, "textures"@));
        let texs2 = Seq::new(texs.len(), |t: int| new_texture(texs[t], imgs2, imgs.len() as int, enc));
        let m = crate::json::members(d);
        let m1 = crate::json::member_set(m, "images"@, JsonView::Array(imgs2));
        let m2 = crate::json::member_set(m1, "bufferViews"@, JsonView::Array(new_views(d, bin, enc)));
        let m3 = crate::json::member_set(m2, "buffers"@, JsonView::Array(new_buffers(d, nb.len() as int)));
        let m4 = crate::json::member_set(m3, "textures"@, JsonView::Array(texs2));
        let m5 = crate::json::member_set(
            m4,
            "extensionsUsed"@,
            JsonView::Array(with_ext(items(field(d, "extensionsUsed"@)))),
        );
        let m6 = crate::json::member_set(
            m5,
            "extensionsRequired"@,
            JsonView::Array(with_ext(items(field(d, "extensionsRequired"@)))),
        );
        (JsonView::Object(m6), nb, n)
    }
}

/// A copy of the members of a value (none unless it is an object).
fn members_copy(o: Option<&JsonValue>) -> (r: Vec<(String, JsonValue)>)
    ensures
        crate::json::mviews(r) == crate::json::opt_members(crate::json::opt_view(o)),
{
    match o {
        Some(v) => {
            let c = crate::json::json_clone(v);
            match c {
                JsonValue::Object(m) => {
                    proof {
                        crate::json::lemma_object_view(m);
                    }
                    m
                },
                _ => {
                    let r: Vec<(String, JsonValue)> = Vec::new();
                    proof {
                        crate::json::lemma_object_view(r);
                    }
                    r
                },
            }
        },
        None => {
            let r: Vec<(String, JsonValue)> = Vec::new();
            proof {
                crate::json::lemma_object_view(r);
            }
            r
        },
    }
}

/// An object value.
fn object(m: Vec<(String, JsonValue)>) -> (r: JsonValue)
    ensures
        json_view(r) == JsonView::Object(crate::json::mviews(m)),
{
    JsonValue::Object(m)
}

/// An array value.
fn array(a: Vec<JsonValue>) -> (r: JsonValue)
    ensures
        json_view(r) == JsonView::Array(crate::json::iviews(a)),
{
    JsonValue::Array(a)
}

fn pair(k1: &str, v1: JsonValue, k2: &str, v2: JsonValue) -> (r: Vec<(String, JsonValue)>)
    ensures
        crate::json::mviews(r) == seq![(k1@, json_view(v1)), (k2@, json_view(v2))],
{
    let mut m: Vec<(String, JsonValue)> = Vec::new();
    m.push((k1.to_owned(), v1));
    m.push((k2.to_owned(), v2));
    proof {
        crate::json::lemma_object_view(m);
    }
    assert(crate::json::mviews(m) =~= seq![(k1@, json_view(v1)), (k2@, json_view(v2))]);
    m
}

fn moved_view_of(bv: &JsonValue, off: usize, len: usize) -> (r: JsonValue)
    ensures
        json_view(r) == moved_view(json_view(*bv), off as int, len as int),
{
    let mut m = members_copy(Some(bv));
    crate::json::members_set(&mut m, "byteOffset", crate::json::number(off as u64));
    crate::json::members_set(&mut m, "byteLength", crate::json::number(len as u64));
    object(m)
}

fn added_view_of(off: usize, len: usize) -> (r: JsonValue)
    ensures
        json_view(r) == added_view(off as int, len as int),
{
    let mut m: Vec<(String, JsonValue)> = Vec::new();
    m.push(("buffer".to_owned(), crate::json::number(0)));
    m.push(("byteOffset".to_owned(), crate::json::number(off as u64)));
    m.push(("byteLength".to_owned(), crate::json::number(len as u64)));
    proof {
        crate::json::lemma_object_view(m);
    }
    assert(crate::json::mviews(m) =~= seq![
        ("buffer"@, crate::json::num(0)),
        ("byteOffset"@, crate::json::num(off as nat)),
        ("byteLength"@, crate::json::num(len as nat)),
    ]);
    object(m)
}

fn ktx2_image_of(bv: JsonValue) -> (r: JsonValue)
    ensures
        json_view(r) == ktx2_image(json_view(bv)),
{
    let mime = JsonValue::Str(KTX2_MIME.to_owned());
    object(pair("mimeType", mime, "bufferView", bv))
}

/// The items of a value when it is an array, copied.
fn items_copy(o: Option<&JsonValue>) -> (r: Vec<JsonValue>)
    ensures
        crate::json::iviews(r) == items(crate::json::opt_view(o)),
{
    match array_items(o) {
        Some(a) => {
            let mut out: Vec<JsonValue> = Vec::new();
            let mut i: usize = 0;
            while i < a.len()
                invariant
                    i <= a@.len(),
                    out@.len() == i,
                    forall|j: int| 0 <= j < i ==> json_view(#[trigger] out@[j]) == json_view(a@[j]),
                decreases a@.len() - i,
            {
                out.push(crate::json::json_clone(&a[i]));
                i += 1;
            }
            proof {
                crate::json::lemma_array_view(out);
                crate::json::lemma_array_view(*a);
                assert(crate::json::iviews(out) =~= crate::json::iviews(*a));
            }
            out
        },
        None => {
            let r: Vec<JsonValue> = Vec::new();
            proof {
                crate::json::lemma_array_view(r);
            }
            assert(crate::json::iviews(r) =~= Seq::<JsonView>::empty());
            r
        },
    }
}

/// The extension list with the extension's name added when missing.
fn with_ext_of(o: Option<&JsonValue>) -> (r: Vec<JsonValue>)
    ensures
        crate::json::iviews(r) == with_ext(items(crate::json::opt_view(o))),
{
    let mut v = items_copy(o);
    let ghost e = crate::json::iviews(v);
    proof {
        crate::json::lemma_array_view(v);
    }
    let mut i: usize = 0;
    while i < v.len()
        invariant
            i <= v@.len(),
            e == crate::json::iviews(v),
            e == items(crate::json::opt_view(o)),
            e.len() == v@.len(),
            forall|j: int| 0 <= j < v@.len() ==> #[trigger] e[j] == json_view(v@[j]),
            forall|j: int| 0 <= j < i ==> #[trigger] e[j] != JsonView::Str(EXT_NAME@),
        decreases v@.len() - i,
    {
        let hit = match &v[i] {
            JsonValue::Str(x) => crate::text::str_eq(x.as_str(), EXT_NAME),
            _ => false,
        };
        if hit {
            assert(e[i as int] == JsonView::Str(EXT_NAME@));
            return v;
        }
        i += 1;
    }
    let ghost before = v@;
    v.push(JsonValue::Str(EXT_NAME.to_owned()));
    proof {
        crate::json::lemma_array_view(v);
        assert forall|j: int| 0 <= j < e.len() implies #[trigger] crate::json::iviews(v)[j] == e[j] by {
            assert(v@[j] == before[j]);
        }
        assert(crate::json::iviews(v) =~= e.push(JsonView::Str(EXT_NAME@)));
    }
    v
}

/// The buffers with buffer 0 set to `len` bytes and no file.
fn new_buffers_of(o: Option<&JsonValue>, len: usize) -> (r: Vec<JsonValue>)
    ensures
        crate::json::iviews(r) == {
            let b = match crate::json::opt_view(o) {
                Some(JsonView::Array(a)) => if a.len() == 0 {
                    seq![empty_buffer()]
                } else {
                    a
                },
                _ => seq![empty_buffer()],
            };
            b.update(
                0,
                JsonView::Object(
                    crate::json::member_remove(
                        crate::json::member_set(crate::json::members(b[0]), "byteLength"@, crate::json::num(len as nat)),
                        "uri"@,
                    ),
                ),
            )
        },
{
    let mut b = items_copy(o);
    proof {
        crate::json::lemma_array_view(b);
    }
    if b.len() == 0 {
        let mut m: Vec<(String, JsonValue)> = Vec::new();
        m.push(("byteLength".to_owned(), crate::json::number(0)));
        proof {
            crate::json::lemma_object_view(m);
        }
        assert(crate::json::mviews(m) =~= seq![("byteLength"@, crate::json::num(0))]);
        b.push(object(m));
        proof {
            crate::json::lemma_array_view(b);
        }
        assert(crate::json::iviews(b) =~= seq![empty_buffer()]);
    }
    let ghost bb = crate::json::iviews(b);
    let mut m0 = members_copy(Some(&b[0]));
    crate::json::members_set(&mut m0, "byteLength", crate::json::number(len as u64));
    let m1 = crate::json::members_remove(&m0, "uri");
    let ghost before = b@;
    b.set(0, object(m1));
    proof {
        crate::json::lemma_array_view(b);
        assert forall|j: int| 0 <= j < bb.len() implies #[trigger] crate::json::iviews(b)[j] == bb.update(
            0,
            JsonView::Object(crate::json::mviews(m1)),
        )[j] by {
            if j != 0 {
                assert(b@[j] == before[j]);
            }
        }
        assert(crate::json::iviews(b) =~= bb.update(0, JsonView::Object(crate::json::mviews(m1))));
    }
    b
}

fn basisu_texture_of(tex: &JsonValue, src: u64) -> (r: JsonValue)
    ensures
        json_view(r) == basisu_texture(json_view(*tex), src),
{
    let m = members_copy(Some(tex));
    let mut t = crate::json::members_remove(&m, "source");
    let mut exts = members_copy(crate::json::members_get(&t, "extensions"));
    let mut srcm: Vec<(String, JsonValue)> = Vec::new();
    srcm.push(("source".to_owned(), crate::json::number(src)));
    proof {
        crate::json::lemma_object_view(srcm);
    }
    assert(crate::json::mviews(srcm) =~= seq![("source"@, crate::json::num(src as nat))]);
    crate::json::members_set(&mut exts, EXT_NAME, object(srcm));
    crate::json::members_set(&mut t, "extensions", object(exts));
    crate::json::members_set(&mut t, "source", crate::json::number(src));
    object(t)
}

/// Rewrite a glTF document once its images are encoded: `encoded` holds,
/// for each image (by index), the KTX2 data it was encoded to, if any.
/// Encoded images become KTX2 images, the binary buffer is laid out again
/// with their data, buffer 0 takes the new length and drops its file, the
/// textures of encoded (or already KTX2) images use `KHR_texture_basisu`,
/// and the extension is listed as used and required. Returns the document,
/// the new buffer and how many images were encoded; with none encoded the
/// document and buffer come back unchanged. The one error is a new buffer
/// longer than a `Vec<u8>` can be (`isize::MAX` bytes).
pub fn rewrite_gltf_document(doc: JsonValue, bin: &[u8], encoded: Vec<Option<Vec<u8>>>) -> (r: Result<
    (JsonValue, Vec<u8>, usize),
    String,
>)
    ensures
        r is Err <==> (converted_count(encoded@, doc_images(json_view(doc)).len() as int) > 0 && !rewrite_fits(
            json_view(doc),
            bin@,
            encoded@,
        )),
        r matches Err(e) ==> e@ == "glTF rewrite too large to build in memory"@,
        r matches Ok((d2, b2, n)) ==> (json_view(d2), b2@, n as nat) == rewrite_gltf_spec(
            json_view(doc),
            bin@,
            encoded@,
        ),
{
    let ghost d = json_view(doc);
    let ghost enc = encoded@;
    let mut bin_vec: Vec<u8> = Vec::new();
    crate::bytes::push_all(&mut bin_vec, bin);
    let imgs = items_copy(get_field(&doc, "images"));
    let ghost iv = doc_images(d);
    proof {
        crate::json::lemma_array_view(imgs);
    }
    let ni = imgs.len();
    let mut flags: Vec<bool> = Vec::new();
    let mut count: usize = 0;
    let mut i: usize = 0;
    while i < ni
        invariant
            i <= ni,
            ni == imgs@.len(),
            enc == encoded@,
            flags@.len() == i,
            forall|j: int| 0 <= j < i ==> #[trigger] flags@[j] == (enc_at(enc, j) is Some),
            count == converted_count(enc, i as int),
            count <= i,
        decreases ni - i,
    {
        let c = i < encoded.len() && encoded[i].is_some();
        flags.push(c);
        if c {
            count = count + 1;
        }
        i += 1;
    }
    if count == 0 {
        return Ok((doc, bin_vec, 0));
    }
    let bvs = items_copy(get_field(&doc, "bufferViews"));
    proof {
        crate::json::lemma_array_view(bvs);
    }
    let nv = bvs.len();
    let spans = doc_spans(&doc);
    let mut ids: Vec<Option<u64>> = Vec::new();
    i = 0;
    while i < ni
        invariant
            i <= ni,
            ni == imgs@.len(),
            iv == crate::json::iviews(imgs),
            iv.len() == ni,
            forall|j: int| 0 <= j < ni ==> #[trigger] iv[j] == json_view(imgs@[j]),
            ids@ == image_view_ids(iv).take(i as int),
        decreases ni - i,
    {
        let b = u64_value(get_field(&imgs[i], "bufferView"));
        ids.push(b);
        assert(image_view_ids(iv).take(i + 1) =~= image_view_ids(iv).take(i as int).push(b));
        i += 1;
    }
    assert(image_view_ids(iv).take(ni as int) =~= image_view_ids(iv));
    let mut pl = encoded;
    while pl.len() > ni
        invariant
            pl@.len() == enc.len() || pl@.len() >= ni,
            forall|j: int| 0 <= j < pl@.len() ==> #[trigger] pl@[j] == enc_at(enc, j),
            pl@.len() <= enc.len(),
        decreases pl@.len(),
    {
        pl.pop();
    }
    while pl.len() < ni
        invariant
            forall|j: int| 0 <= j < pl@.len() ==> #[trigger] pl@[j] == enc_at(enc, j),
            pl@.len() >= enc.len() || pl@.len() >= ni,
            pl@.len() <= ni,
        decreases ni - pl@.len(),
    {
        pl.push(None);
    }
    i = 0;
    while i < ni
        invariant
            i <= ni,
            pl@.len() == ni,
            ni == imgs@.len(),
            iv == crate::json::iviews(imgs),
            iv.len() == ni,
            forall|j: int| 0 <= j < ni ==> #[trigger] iv[j] == json_view(imgs@[j]),
            ids@ == image_view_ids(iv),
            forall|j: int|
                0 <= j < ni ==> #[trigger] pl@[j] == if j < i && odd_view_ref(iv, j) {
                    None
                } else {
                    enc_at(enc, j)
                },
        decreases ni - i,
    {
        if get_field(&imgs[i], "bufferView").is_some() && ids[i].is_none() {
            pl.set(i, None);
        }
        i += 1;
    }
    assert(pl@ =~= placed(iv, enc));
    let ghost ps = doc_pieces(d, bin@, enc);
    assert(spans@ == view_spans(doc_views(d)));
    assert(bin_vec@ == bin@);
    let size = crate::gltf_textures::relayout_len(&spans, bin_vec.len(), Ghost(bin_vec@), &ids, &pl);
    if size.is_none() {
        return Err("glTF rewrite too large to build in memory".to_owned());
    }
    let lay = crate::gltf_textures::relayout_buffers(&spans, &bin_vec, &ids, &pl);
    let n_views = lay.views.len();
    proof {
        crate::gltf_textures::lemma_external_images(ids@, pl@, ni as int);
    }
    // the buffer views
    let mut views2: Vec<JsonValue> = Vec::new();
    let mut k: usize = 0;
    while k < lay.views.len()
        invariant
            k <= lay.views@.len(),
            ps == doc_pieces(d, bin@, enc),
            lay.views@.len() == ps.len(),
            lay.bin@ == crate::gltf_textures::laid(ps),
            crate::gltf_textures::laid(ps).len() <= usize::MAX,
            forall|j: int|
                0 <= j < lay.views@.len() ==> #[trigger] lay.views@[j] == (
                    crate::gltf_textures::piece_offset(ps, j) as usize,
                    ps[j].len() as usize,
                ),
            nv == bvs@.len(),
            crate::json::iviews(bvs) == doc_views(d),
            crate::json::iviews(bvs).len() == bvs@.len(),
            forall|j: int| 0 <= j < bvs@.len() ==> #[trigger] crate::json::iviews(bvs)[j] == json_view(bvs@[j]),
            views2@.len() == k,
            forall|j: int| 0 <= j < k ==> json_view(#[trigger] views2@[j]) == new_views(d, bin@, enc)[j],
        decreases lay.views@.len() - k,
    {
        let (off, len) = lay.views[k];
        proof {
            crate::gltf_textures::lemma_laid_prefix(ps, k + 1);
            assert(crate::gltf_textures::laid(ps.take(k + 1)).len() == crate::gltf_textures::piece_offset(ps, k as int)
                + ps[k as int].len());
        }
        let v = if k < nv {
            moved_view_of(&bvs[k], off, len)
        } else {
            added_view_of(off, len)
        };
        assert(off as int == crate::gltf_textures::piece_offset(ps, k as int));
        assert(len as int == ps[k as int].len());
        assert(json_view(v) == new_views(d, bin@, enc)[k as int]);
        let ghost before = views2@;
        views2.push(v);
        assert(forall|j: int| 0 <= j < k ==> views2@[j] == before[j]);
        k += 1;
    }
    assert(crate::json::iviews(views2) =~= new_views(d, bin@, enc)) by {
        crate::json::lemma_array_view(views2);
    }
    // the images
    let ghost imgs2_spec = new_images(d, enc);
    let mut imgs2: Vec<JsonValue> = Vec::new();
    i = 0;
    while i < ni
        invariant
            i <= ni,
            ni == imgs@.len(),
            nv == bvs@.len(),
            nv == doc_views(d).len(),
            iv == doc_images(d),
            iv == crate::json::iviews(imgs),
            iv.len() == ni,
            forall|j: int| 0 <= j < ni ==> #[trigger] iv[j] == json_view(imgs@[j]),
            ids@ == image_view_ids(iv),
            pl@ == placed(iv, enc),
            flags@.len() == ni,
            forall|j: int| 0 <= j < ni ==> #[trigger] flags@[j] == (enc_at(enc, j) is Some),
            lay.image_views@.len() == ni,
            forall|j: int|
                0 <= j < ni ==> #[trigger] lay.image_views@[j] == match pl@[j] {
                    None => None,
                    Some(_) => match ids@[j] {
                        Some(b) => Some(b as usize),
                        None => Some((nv + crate::gltf_textures::external_images(ids@, pl@, j).len()) as usize),
                    },
                },
            nv + crate::gltf_textures::external_images(ids@, pl@, ni as int).len() <= usize::MAX,
            imgs2_spec == new_images(d, enc),
            imgs2@.len() == i,
            forall|j: int| 0 <= j < i ==> json_view(#[trigger] imgs2@[j]) == imgs2_spec[j],
        decreases ni - i,
    {
        let img = &imgs[i];
        let v = if flags[i] {
            match get_field(img, "bufferView") {
                Some(bv) => ktx2_image_of(crate::json::json_clone(bv)),
                None => {
                    proof {
                        crate::gltf_textures::lemma_external_images(ids@, pl@, i as int);
                        crate::gltf_textures::lemma_external_prefix(ids@, pl@, i as int, ni as int);
                    }
                    let x: usize = match lay.image_views[i] {
                        Some(x) => x,
                        None => 0,
                    };
                    ktx2_image_of(crate::json::number(x as u64))
                },
            }
        } else {
            crate::json::json_clone(img)
        };
        imgs2.push(v);
        i += 1;
    }
    assert(crate::json::iviews(imgs2) =~= imgs2_spec) by {
        crate::json::lemma_array_view(imgs2);
    }
    // the textures
    let texs = items_copy(get_field(&doc, "textures"));
    proof {
        crate::json::lemma_array_view(texs);
        crate::json::lemma_array_view(imgs2);
    }
    let ghost ts = crate::json::iviews(texs);
    let mut texs2: Vec<JsonValue> = Vec::new();
    let mut t: usize = 0;
    while t < texs.len()
        invariant
            t <= texs@.len(),
            ts == crate::json::iviews(texs),
            ts == items(field(d, "textures"@)),
            ts.len() == texs@.len(),
            forall|j: int| 0 <= j < texs@.len() ==> #[trigger] ts[j] == json_view(texs@[j]),
            ni == iv.len(),
            flags@.len() == ni,
            forall|j: int| 0 <= j < ni ==> #[trigger] flags@[j] == (enc_at(enc, j) is Some),
            crate::json::iviews(imgs2) == imgs2_spec,
            crate::json::iviews(imgs2).len() == imgs2@.len(),
            forall|j: int| 0 <= j < imgs2@.len() ==> #[trigger] crate::json::iviews(imgs2)[j] == json_view(imgs2@[j]),
            texs2@.len() == t,
            forall|j: int|
                0 <= j < t ==> json_view(#[trigger] texs2@[j]) == new_texture(ts[j], imgs2_spec, ni as int, enc),
        decreases texs@.len() - t,
    {
        let tex = &texs[t];
        let v = match u64_value(get_field(tex, "source")) {
            None => crate::json::json_clone(tex),
            Some(src) => {
                let conv = src < ni as u64 && flags[src as usize];
                let ktx = src < imgs2.len() as u64 && match str_value(get_field(&imgs2[src as usize], "mimeType")) {
                    Some(m) => crate::text::str_eq(m, KTX2_MIME),
                    None => false,
                };
                if crate::gltf_textures::texture_uses_basisu(Some(src), conv, ktx) {
                    basisu_texture_of(tex, src)
                } else {
                    crate::json::json_clone(tex)
                }
            },
        };
        texs2.push(v);
        t += 1;
    }
    assert(crate::json::iviews(texs2) =~= Seq::new(
        ts.len(),
        |j: int| new_texture(ts[j], imgs2_spec, ni as int, enc),
    )) by {
        crate::json::lemma_array_view(texs2);
    }
    let bufs = new_buffers_of(get_field(&doc, "buffers"), lay.bin.len());
    let used = with_ext_of(get_field(&doc, "extensionsUsed"));
    let req = with_ext_of(get_field(&doc, "extensionsRequired"));
    match doc {
        JsonValue::Object(mut m) => {
            crate::json::members_set(&mut m, "images", array(imgs2));
            crate::json::members_set(&mut m, "bufferViews", array(views2));
            crate::json::members_set(&mut m, "buffers", array(bufs));
            crate::json::members_set(&mut m, "textures", array(texs2));
            crate::json::members_set(&mut m, "extensionsUsed", array(used));
            crate::json::members_set(&mut m, "extensionsRequired", array(req));
            Ok((object(m), lay.bin, count))
        },
        other => {
            proof {
                assert(iv.len() == 0);
            }
            Ok((other, lay.bin, count))
        },
    }
}

/// The MIME type an image is encoded from, when the encoder takes it: the
/// declared type; without one, the type of the bytes (by signature for the
/// binary buffer, `ext` being `None`; by the file's extension, else its
/// bytes, for an external file).
pub open spec fn encode_mime_spec(declared: Seq<char>, raw: Seq<u8>, ext: Option<Seq<char>>) -> Option<Seq<char>> {
    let m = if declared.len() > 0 {
        declared
    } else {
        match ext {
            None => crate::gltf_textures::sniffed_mime(raw),
            Some(e) => if e == "png"@ {
                "image/png"@
            } else if e == "jpg"@ || e == "jpeg"@ {
                "image/jpeg"@
            } else if e == "webp"@ {
                "image/webp"@
            } else {
                crate::gltf_textures::sniffed_mime(raw)
            },
        }
    };
    if crate::gltf_textures::raster_mime(m) {
        Some(m)
    } else {
        None
    }
}

/// An optional text, viewed.
pub open spec fn opt_text(o: Option<&str>) -> Option<Seq<char>> {
    match o {
        Some(s) => Some(s@),
        None => None,
    }
}

/// The MIME type to encode an image from, or `None` when it is not a
/// raster image the encoder takes (see `encode_mime_spec`).
pub fn encode_mime(declared: &str, raw: &[u8], ext: Option<&str>) -> (r: Option<String>)
    ensures
        match r {
            Some(m) => encode_mime_spec(declared@, raw@, opt_text(ext)) == Some(m@),
            None => encode_mime_spec(declared@, raw@, opt_text(ext)) is None,
        },
{
    let m: String = if chars_of(declared).len() > 0 {
        declared.to_owned()
    } else {
        match ext {
            None => crate::gltf_textures::sniff_mime(raw).to_owned(),
            Some(e) => crate::gltf_textures::external_image_mime(e, raw),
        }
    };
    if crate::gltf_textures::is_raster_mime(m.as_str()) {
        Some(m)
    } else {
        None
    }
}

/// The GLB after the rewrite (see `glb_rewrite`).
pub open spec fn glb_rewrite_spec(glb: Seq<u8>, d: JsonView, bin: Seq<u8>, enc: Seq<Option<Vec<u8>>>) -> Result<
    (Seq<u8>, nat),
    Seq<char>,
> {
    let (d2, b2, n) = rewrite_gltf_spec(d, bin, enc);
    if converted_count(enc, doc_images(d).len() as int) > 0 && !rewrite_fits(d, bin, enc) {
        Err("glTF rewrite too large to build in memory"@)
    } else if n == 0 {
        Ok((glb, 0))
    } else if crate::json::json_compact(d2).len() + b2.len() + 40 > isize::MAX {
        Err("GLB too large to build in memory"@)
    } else {
        Ok((crate::texture_ktx2::glb_bytes(crate::json::json_compact(d2), b2), n))
    }
}

/// A GLB once its images are encoded: the original bytes when none was,
/// else a new GLB of the rewritten document (compact JSON) and buffer, with
/// how many images were encoded.
pub fn glb_rewrite(glb: &[u8], doc: JsonValue, bin: &[u8], encoded: Vec<Option<Vec<u8>>>) -> (r: Result<(Vec<u8>, usize), String>)
    ensures
        match (r, glb_rewrite_spec(glb@, json_view(doc), bin@, encoded@)) {
            (Ok((g, n)), Ok((h, m))) => g@ == h && n as nat == m,
            (Err(e), Err(m)) => e@ == m,
            _ => false,
        },
{
    let (d2, b2, n) = match rewrite_gltf_document(doc, bin, encoded) {
        Ok(t) => t,
        Err(e) => {
            return Err(e);
        },
    };
    if n == 0 {
        let mut same: Vec<u8> = Vec::new();
        crate::bytes::push_all(&mut same, glb);
        return Ok((same, 0));
    }
    let j = crate::json::json_bytes(&d2);
    if j.len() as u128 + b2.len() as u128 + 40 > isize::MAX as u128 {
        return Err("GLB too large to build in memory".to_owned());
    }
    Ok((crate::texture_ktx2::build_glb(j.as_slice(), b2.as_slice()), n))
}

/// A B3DM of the given header and GLB, its total length (as a 32-bit
/// number) written into the header.
pub fn b3dm_with_glb(header: &[u8], glb: &[u8]) -> (r: Vec<u8>)
    requires
        header@.len() >= 12,
        header@.len() + glb@.len() <= usize::MAX,
    ensures
        r@ == header@.take(8) + crate::bytes::le_bytes((header@.len() + glb@.len()) as u32) + header@.skip(12)
            + glb@,
{
    let total = header.len() + glb.len();
    let mut out: Vec<u8> = Vec::new();
    let head = crate::bytes::copy_range(header, 0, 8);
    let rest = crate::bytes::copy_range(header, 12, header.len());
    crate::bytes::push_all(&mut out, head.as_slice());
    crate::bytes::push_u32_le(&mut out, total as u32);
    crate::bytes::push_all(&mut out, rest.as_slice());
    crate::bytes::push_all(&mut out, glb);
    assert(header@.subrange(0, 8) =~= header@.take(8));
    assert(header@.subrange(12, header@.len() as int) =~= header@.skip(12));
    out
}

/// The file a `.gltf` document's binary buffer is read from: buffer 0's
/// URI, unless it is a data URI.
pub open spec fn gltf_bin_uri_spec(d: JsonView) -> Option<Seq<char>> {
    let bufs = items(field(d, "buffers"@));
    if bufs.len() == 0 {
        None
    } else {
        match str_of(field(bufs[0], "uri"@)) {
            Some(u) => if crate::text::starts_with(u, "data:"@) {
                None
            } else {
                Some(u)
            },
            None => None,
        }
    }
}

/// The file a `.gltf` document's binary buffer is read from.
pub fn gltf_bin_uri(doc: &JsonValue) -> (r: Option<String>)
    ensures
        match r {
            Some(u) => gltf_bin_uri_spec(json_view(*doc)) == Some(u@),
            None => gltf_bin_uri_spec(json_view(*doc)) is None,
        },
{
    match array_items(get_field(doc, "buffers")) {
        None => None,
        Some(bufs) => {
            if bufs.len() == 0 {
                return None;
            }
            match str_value(get_field(&bufs[0], "uri")) {
                None => None,
                Some(u) => {
                    proof {
                        reveal_strlit("data:");
                    }
                    if crate::text::chars_start_with(&chars_of(u), &chars_of("data:")) {
                        None
                    } else {
                        Some(u.to_owned())
                    }
                },
            }
        },
    }
}

/// A `.gltf` document made to point at its new binary buffer of `len`
/// bytes: buffer 0 keeps its file name (or takes `default_uri`) and takes
/// the length; a document without buffers gets one. Also the file the
/// buffer is written to.
pub open spec fn gltf_output_spec(d: JsonView, len: nat, default_uri: Seq<char>) -> (JsonView, Seq<char>) {
    let bufs = items(field(d, "buffers"@));
    let m = crate::json::members(d);
    if bufs.len() == 0 {
        let b = JsonView::Object(seq![("byteLength"@, crate::json::num(len)), ("uri"@, JsonView::Str(default_uri))]);
        (JsonView::Object(crate::json::member_set(m, "buffers"@, JsonView::Array(seq![b]))), default_uri)
    } else {
        let b0 = crate::json::members(bufs[0]);
        let uri = match str_of(crate::json::member_get(b0, "uri"@)) {
            Some(u) => u,
            None => default_uri,
        };
        let b1 = crate::json::member_set(
            crate::json::member_set(b0, "uri"@, JsonView::Str(uri)),
            "byteLength"@,
            crate::json::num(len),
        );
        (
            JsonView::Object(
                crate::json::member_set(m, "buffers"@, JsonView::Array(bufs.update(0, JsonView::Object(b1)))),
            ),
            uri,
        )
    }
}

/// The indented text of a rewritten `.gltf` document pointed at its new
/// binary buffer of `len` bytes, and the file the buffer goes to (see
/// `gltf_output_spec`).
pub fn gltf_output(doc: JsonValue, len: usize, default_uri: &str) -> (r: (String, String))
    requires
        json_view(doc) is Object,
    ensures
        r.0@ == crate::json::json_pretty(gltf_output_spec(json_view(doc), len as nat, default_uri@).0),
        r.1@ == gltf_output_spec(json_view(doc), len as nat, default_uri@).1,
{
    let ghost d = json_view(doc);
    let mut bufs = items_copy(get_field(&doc, "buffers"));
    proof {
        crate::json::lemma_array_view(bufs);
    }
    let uri: String;
    if bufs.len() == 0 {
        let mut b: Vec<(String, JsonValue)> = Vec::new();
        b.push(("byteLength".to_owned(), crate::json::number(len as u64)));
        b.push(("uri".to_owned(), JsonValue::Str(default_uri.to_owned())));
        proof {
            crate::json::lemma_object_view(b);
        }
        assert(crate::json::mviews(b) =~= seq![
            ("byteLength"@, crate::json::num(len as nat)),
            ("uri"@, JsonView::Str(default_uri@)),
        ]);
        bufs.push(object(b));
        proof {
            crate::json::lemma_array_view(bufs);
        }
        uri = default_uri.to_owned();
    } else {
        let mut b0 = members_copy(Some(&bufs[0]));
        proof {
            crate::json::lemma_object_view(b0);
        }
        uri = match str_value(crate::json::members_get(&b0, "uri")) {
            Some(u) => u.to_owned(),
            None => default_uri.to_owned(),
        };
        crate::json::members_set(&mut b0, "uri", JsonValue::Str(uri.clone()));
        crate::json::members_set(&mut b0, "byteLength", crate::json::number(len as u64));
        let ghost before = bufs@;
        let ghost bv = crate::json::iviews(bufs);
        bufs.set(0, object(b0));
        proof {
            crate::json::lemma_array_view(bufs);
            assert forall|j: int| 0 <= j < bv.len() implies #[trigger] crate::json::iviews(bufs)[j] == bv.update(
                0,
                JsonView::Object(crate::json::mviews(b0)),
            )[j] by {
                if j != 0 {
                    assert(bufs@[j] == before[j]);
                }
            }
            assert(crate::json::iviews(bufs) =~= bv.update(0, JsonView::Object(crate::json::mviews(b0))));
        }
    }
    let ghost bviews = crate::json::iviews(bufs);
    let out = match doc {
        JsonValue::Object(mut m) => {
            crate::json::members_set(&mut m, "buffers", array(bufs));
            object(m)
        },
        other => other,
    };
    assert(bviews.len() == 1 ==> bviews =~= seq![bviews[0]]);
    let text = crate::json::json_pretty_text(&out);
    (text, uri)
}

} // verus!
