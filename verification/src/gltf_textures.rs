//! The glTF side of the KTX2 post-process: which images are encoded and
//! where their pixels come from, how the binary buffer is laid out again
//! once some images are replaced by KTX2 data, and which textures
//! change.

use crate::bytes::{push_all, bytes_occur_at};
use crate::texture_ktx2::{align4, pad4_spec};
use crate::text::{chars_of, concat2, concat3, dec_chars, dec_string, lower_chars, lower_seq, starts_with, str_eq};
use vstd::prelude::*;

verus! {

/// MIME type of KTX2 images.
pub const KTX2_MIME: &'static str = "image/ktx2";

/// The glTF extension that carries Basis Universal textures.
pub const EXT_NAME: &'static str = "KHR_texture_basisu";

/// The MIME type raw image bytes look like: JPEG or PNG by signature,
/// JPEG when neither matches.
pub open spec fn sniffed_mime(raw: Seq<u8>) -> Seq<char> {
    if raw.len() >= 3 && raw[0] == 0xffu8 && raw[1] == 0xd8u8 && raw[2] == 0xffu8 {
        "image/jpeg"@
    } else if raw.len() >= 8 && raw.take(8) == seq![0x89u8, 0x50u8, 0x4eu8, 0x47u8, 0x0du8, 0x0au8, 0x1au8, 0x0au8] {
        "image/png"@
    } else {
        "image/jpeg"@
    }
}

/// Guess the MIME type of image bytes from their signature.
pub fn sniff_mime(raw: &[u8]) -> (r: &'static str)
    ensures
        r@ == sniffed_mime(raw@),
{
    if raw.len() >= 3 && raw[0] == 0xff && raw[1] == 0xd8 && raw[2] == 0xff {
        return "image/jpeg";
    }
    if raw.len() >= 8 && raw[0] == 0x89 && raw[1] == 0x50 && raw[2] == 0x4e && raw[3] == 0x47 && raw[4] == 0x0d
        && raw[5] == 0x0a && raw[6] == 0x1a && raw[7] == 0x0a {
        assert(raw@.take(8) =~= seq![0x89u8, 0x50u8, 0x4eu8, 0x47u8, 0x0du8, 0x0au8, 0x1au8, 0x0au8]);
        return "image/png";
    }
    proof {
        if raw@.len() >= 8 && raw@.take(8) == seq![0x89u8, 0x50u8, 0x4eu8, 0x47u8, 0x0du8, 0x0au8, 0x1au8, 0x0au8] {
            assert(raw@[0] == raw@.take(8)[0]);
            assert(raw@[1] == raw@.take(8)[1]);
            assert(raw@[2] == raw@.take(8)[2]);
            assert(raw@[3] == raw@.take(8)[3]);
            assert(raw@[4] == raw@.take(8)[4]);
            assert(raw@[5] == raw@.take(8)[5]);
            assert(raw@[6] == raw@.take(8)[6]);
            assert(raw@[7] == raw@.take(8)[7]);
        }
    }
    "image/jpeg"
}

/// A raster image type the encoder takes: JPEG, PNG, WebP, or any other
/// `image/` type except KTX2 (ASCII case-insensitively).
pub open spec fn raster_mime(mime: Seq<char>) -> bool {
    let m = lower_seq(mime);
    m == "image/jpeg"@ || m == "image/jpg"@ || m == "image/png"@ || m == "image/webp"@ || (
    starts_with(m, "image/"@) && m != "image/ktx2"@)
}

/// Is the MIME type one the encoder takes?
pub fn is_raster_mime(mime: &str) -> (r: bool)
    ensures
        r == raster_mime(mime@),
{
    let m = lower_chars(&chars_of(mime));
    crate::text::chars_equal(&m, &chars_of("image/jpeg")) || crate::text::chars_equal(&m, &chars_of("image/jpg"))
        || crate::text::chars_equal(&m, &chars_of("image/png")) || crate::text::chars_equal(
        &m,
        &chars_of("image/webp"),
    ) || (crate::text::chars_start_with(&m, &chars_of("image/")) && !crate::text::chars_equal(
        &m,
        &chars_of("image/ktx2"),
    ))
}

/// The MIME type of an external image file: by its extension (`png`,
/// `jpg`/`jpeg`, `webp`), else by its bytes.
pub fn external_image_mime(extension: &str, bytes: &[u8]) -> (r: String)
    ensures
        r@ == if extension@ == "png"@ {
            "image/png"@
        } else if extension@ == "jpg"@ || extension@ == "jpeg"@ {
            "image/jpeg"@
        } else if extension@ == "webp"@ {
            "image/webp"@
        } else {
            sniffed_mime(bytes@)
        },
{
    if str_eq(extension, "png") {
        "image/png".to_owned()
    } else if str_eq(extension, "jpg") || str_eq(extension, "jpeg") {
        "image/jpeg".to_owned()
    } else if str_eq(extension, "webp") {
        "image/webp".to_owned()
    } else {
        sniff_mime(bytes).to_owned()
    }
}

/// A buffer view as the rewrite reads it.
#[derive(Debug, Clone, Copy)]
pub struct ViewSpan {
    pub offset: Option<u64>,
    pub length: Option<u64>,
}

/// Where an image's pixels come from.
#[derive(Debug, Clone, PartialEq, Eq)]
pub enum ImageSource {
    /// Not encoded (already KTX2, a data URI, or nowhere to read it).
    Skip,
    /// The bytes `offset..offset + length` of the binary buffer.
    Bin { offset: u64, length: u64 },
    /// The external file named by the URI, relative to the glTF file.
    External { uri: String },
}

/// Where an image's pixels come from, as the contracts read it.
pub enum SourceView {
    Skip,
    Bin(int, int),
    External(Seq<char>),
}

pub open spec fn source_view(s: ImageSource) -> SourceView {
    match s {
        ImageSource::Skip => SourceView::Skip,
        ImageSource::Bin { offset, length } => SourceView::Bin(offset as int, length as int),
        ImageSource::External { uri } => SourceView::External(uri@),
    }
}

/// Where an image's pixels come from, or why the glTF is broken.
pub open spec fn image_source_of(
    mime_lower: Seq<char>,
    buffer_view: Option<u64>,
    views: Seq<ViewSpan>,
    bin_len: int,
    uri: Option<Seq<char>>,
    has_base: bool,
) -> Result<SourceView, Seq<char>> {
    if mime_lower == "image/ktx2"@ {
        Ok(SourceView::Skip)
    } else {
        match buffer_view {
            Some(b) => if b >= views.len() {
                Err("bad bufferView "@ + dec_chars(b as nat))
            } else {
                let v = views[b as int];
                let off = match v.offset {
                    Some(o) => o as int,
                    None => 0,
                };
                match v.length {
                    None => Err("bufferView missing byteLength"@),
                    Some(len) => if off + len > bin_len {
                        Err("bufferView "@ + dec_chars(b as nat) + " out of range"@)
                    } else {
                        Ok(SourceView::Bin(off, len as int))
                    },
                }
            },
            None => match uri {
                Some(u) => if has_base && !starts_with(u, "data:"@) {
                    Ok(SourceView::External(u))
                } else {
                    Ok(SourceView::Skip)
                },
                None => Ok(SourceView::Skip),
            },
        }
    }
}

/// Where an image's pixels come from: KTX2 images are left alone; an
/// image in a buffer view must lie within the binary buffer; an external
/// image (not a data URI) is read relative to the glTF file when there is
/// one.
pub fn image_source(
    mime_lower: &str,
    buffer_view: Option<u64>,
    views: &Vec<ViewSpan>,
    bin_len: usize,
    uri: Option<&str>,
    has_base: bool,
) -> (r: Result<ImageSource, String>)
    ensures
        match (
            r,
            image_source_of(
                mime_lower@,
                buffer_view,
                views@,
                bin_len as int,
                match uri {
                    Some(u) => Some(u@),
                    None => None,
                },
                has_base,
            ),
        ) {
            (Ok(a), Ok(b)) => source_view(a) == b,
            (Err(a), Err(b)) => a@ == b,
            _ => false,
        },
{
    if str_eq(mime_lower, "image/ktx2") {
        return Ok(ImageSource::Skip);
    }
    match buffer_view {
        Some(b) => {
            if b >= views.len() as u64 {
                return Err(concat2("bad bufferView ", dec_string(b).as_str()));
            }
            let v = views[b as usize];
            let off: u64 = match v.offset {
                Some(o) => o,
                None => 0,
            };
            match v.length {
                None => Err("bufferView missing byteLength".to_owned()),
                Some(len) => {
                    if off as u128 + len as u128 > bin_len as u128 {
                        Err(concat3("bufferView ", dec_string(b).as_str(), " out of range"))
                    } else {
                        Ok(ImageSource::Bin { offset: off, length: len })
                    }
                },
            }
        },
        None => match uri {
            Some(u) => {
                proof {
                    reveal_strlit("data:");
                }
                if has_base && !crate::text::chars_start_with(&chars_of(u), &chars_of("data:")) {
                    Ok(ImageSource::External { uri: u.to_owned() })
                } else {
                    Ok(ImageSource::Skip)
                }
            },
            None => Ok(ImageSource::Skip),
        },
    }
}

/// `s` padded with zero bytes to a multiple of four.
pub open spec fn padded(s: Seq<u8>) -> Seq<u8> {
    s + Seq::new(pad4_spec(s.len() as int) as nat, |_i: int| 0u8)
}

/// The pieces laid one after another, each starting on a four-byte
/// boundary.
pub open spec fn laid(ps: Seq<Seq<u8>>) -> Seq<u8>
    decreases ps.len(),
{
    if ps.len() == 0 {
        seq![]
    } else {
        padded(laid(ps.drop_last())) + ps.last()
    }
}

/// Where piece `k` starts in `laid(ps)`.
pub open spec fn piece_offset(ps: Seq<Seq<u8>>, k: int) -> int {
    padded(laid(ps.take(k))).len() as int
}

/// The last image (below `n`) converted from buffer view `b`.
pub open spec fn replacer(iv: Seq<Option<u64>>, conv: Seq<Option<Vec<u8>>>, b: int, n: int) -> Option<int>
    decreases n,
{
    if n <= 0 {
        None
    } else if conv[n - 1] is Some && iv[n - 1] == Some(b as u64) && 0 <= b {
        Some(n - 1)
    } else {
        replacer(iv, conv, b, n - 1)
    }
}

/// The bytes a buffer view covers (nothing when it does not fit).
pub open spec fn chunk_of(v: ViewSpan, bin: Seq<u8>) -> Seq<u8> {
    let off = match v.offset {
        Some(o) => o as int,
        None => 0,
    };
    let len = match v.length {
        Some(l) => l as int,
        None => 0,
    };
    if off + len <= bin.len() {
        bin.subrange(off, off + len)
    } else {
        seq![]
    }
}

/// The converted images without a buffer view (they get new ones), in
/// order, among the first `n`.
pub open spec fn external_images(iv: Seq<Option<u64>>, conv: Seq<Option<Vec<u8>>>, n: int) -> Seq<int>
    decreases n,
{
    if n <= 0 {
        seq![]
    } else if conv[n - 1] is Some && iv[n - 1] is None {
        external_images(iv, conv, n - 1).push(n - 1)
    } else {
        external_images(iv, conv, n - 1)
    }
}

/// The pieces of the new binary buffer: each old view's bytes (or the KTX2
/// data replacing them), then the KTX2 data of the external images.
pub open spec fn new_pieces(views: Seq<ViewSpan>, bin: Seq<u8>, iv: Seq<Option<u64>>, conv: Seq<Option<Vec<u8>>>) -> Seq<Seq<u8>> {
    let ext = external_images(iv, conv, iv.len() as int);
    Seq::new(
        views.len(),
        |k: int|
            match replacer(iv, conv, k, iv.len() as int) {
                Some(i) => conv[i].unwrap()@,
                None => chunk_of(views[k], bin),
            },
    ) + Seq::new(ext.len(), |j: int| conv[ext[j]].unwrap()@)
}

/// The buffer after the rewrite: its bytes, its views as (offset, length),
/// and for each image the view it now uses when it was converted.
pub struct Relayout {
    pub bin: Vec<u8>,
    pub views: Vec<(usize, usize)>,
    pub image_views: Vec<Option<usize>>,
}

pub(crate) proof fn lemma_replacer(iv: Seq<Option<u64>>, conv: Seq<Option<Vec<u8>>>, b: int, n: int)
    requires
        0 <= n <= iv.len(),
        n <= conv.len(),
    ensures
        replacer(iv, conv, b, n) matches Some(i) ==> 0 <= i < n && conv[i] is Some,
    decreases n,
{
    if n > 0 {
        lemma_replacer(iv, conv, b, n - 1);
    }
}

pub(crate) proof fn lemma_external_images(iv: Seq<Option<u64>>, conv: Seq<Option<Vec<u8>>>, n: int)
    requires
        0 <= n <= iv.len(),
        n <= conv.len(),
    ensures
        external_images(iv, conv, n).len() <= n,
        forall|j: int|
            0 <= j < external_images(iv, conv, n).len() ==> 0 <= #[trigger] external_images(iv, conv, n)[j]
                < n && conv[external_images(iv, conv, n)[j]] is Some,
    decreases n,
{
    if n > 0 {
        lemma_external_images(iv, conv, n - 1);
    }
}

fn push_piece(out: &mut Vec<u8>, views_out: &mut Vec<(usize, usize)>, piece: &[u8], ghost_ps: Ghost<Seq<Seq<u8>>>)
    requires
        old(out)@ == laid(ghost_ps@),
        old(views_out)@.len() == ghost_ps@.len(),
        old(out)@.len() + 3 + piece@.len() <= usize::MAX,
    ensures
        final(out)@ == laid(ghost_ps@.push(piece@)),
        final(views_out)@ == old(views_out)@.push(
            (piece_offset(ghost_ps@.push(piece@), ghost_ps@.len() as int) as usize, piece@.len() as usize),
        ),
{
    let ghost ps = ghost_ps@;
    align4(out);
    let off = out.len();
    push_all(out, piece);
    views_out.push((off, piece.len()));
    assert(ps.push(piece@).drop_last() =~= ps);
    assert(ps.push(piece@).take(ps.len() as int) =~= ps);
}

/// Lay the binary buffer out again after encoding: every buffer view keeps
/// its index and gets the bytes it covered, or the KTX2 data of the last
/// image converted from it; converted images without a view get new views
/// after the existing ones, in image order. Every view starts on a
/// four-byte boundary.
pub fn relayout_buffers(
    views: &Vec<ViewSpan>,
    bin: &Vec<u8>,
    image_views: &Vec<Option<u64>>,
    converted: &Vec<Option<Vec<u8>>>,
) -> (r: Relayout)
    requires
        image_views@.len() == converted@.len(),
        laid(new_pieces(views@, bin@, image_views@, converted@)).len() + 3 <= usize::MAX,
    ensures
        r.bin@ == laid(new_pieces(views@, bin@, image_views@, converted@)),
        r.views@.len() == new_pieces(views@, bin@, image_views@, converted@).len(),
        forall|k: int|
            0 <= k < r.views@.len() ==> #[trigger] r.views@[k] == (
                piece_offset(new_pieces(views@, bin@, image_views@, converted@), k) as usize,
                new_pieces(views@, bin@, image_views@, converted@)[k].len() as usize,
            ),
        r.image_views@.len() == converted@.len(),
        forall|i: int|
            0 <= i < converted@.len() ==> #[trigger] r.image_views@[i] == match converted@[i] {
                None => None,
                Some(_) => match image_views@[i] {
                    Some(b) => Some(b as usize),
                    None => Some((views@.len() + external_images(image_views@, converted@, i).len()) as usize),
                },
            },
{
    let ghost ps = new_pieces(views@, bin@, image_views@, converted@);
    let ghost iv = image_views@;
    let ghost cv = converted@;
    let ghost ext = external_images(iv, cv, iv.len() as int);
    let nv = views.len();
    let mut out: Vec<u8> = Vec::new();
    let mut views_out: Vec<(usize, usize)> = Vec::new();
    proof {
        lemma_external_images(iv, cv, iv.len() as int);
        assert(ps.take(0) =~= Seq::<Seq<u8>>::empty());
    }
    let mut k: usize = 0;
    while k < nv
        invariant
            nv == views@.len(),
            ps == new_pieces(views@, bin@, image_views@, converted@),
            iv == image_views@,
            cv == converted@,
            iv.len() == cv.len(),
            laid(ps).len() + 3 <= usize::MAX,
            k <= nv,
            out@ == laid(ps.take(k as int)),
            views_out@.len() == k,
            forall|j: int|
                0 <= j < k ==> #[trigger] views_out@[j] == (piece_offset(ps, j) as usize, ps[j].len() as usize),
        decreases nv - k,
    {
        let piece: Vec<u8> = match find_replacer(image_views, converted, k as u64) {
            Some(i) => {
                proof {
                    lemma_replacer(iv, cv, k as int, iv.len() as int);
                }
                match &converted[i] {
                    Some(bytes) => {
                        let mut c: Vec<u8> = Vec::new();
                        push_all(&mut c, bytes.as_slice());
                        c
                    },
                    None => Vec::new(),
                }
            },
            None => view_chunk(&views[k], bin),
        };
        assert(piece@ == ps[k as int]);
        proof {
            lemma_laid_prefix(ps, k + 1);
            assert(ps.take(k + 1) =~= ps.take(k as int).push(piece@));
            assert(ps.take(k as int).push(piece@).drop_last() =~= ps.take(k as int));
        }
        let ghost before = views_out@;
        push_piece(&mut out, &mut views_out, piece.as_slice(), Ghost(ps.take(k as int)));
        proof {
            assert(ps.take(k as int).push(piece@).take(k as int) =~= ps.take(k as int));
            assert(ps.take(k as int) =~= ps.take(k + 1).take(k as int));
            assert forall|j: int| 0 <= j < k + 1 implies #[trigger] views_out@[j] == (
                piece_offset(ps, j) as usize,
                ps[j].len() as usize,
            ) by {
                if j < k {
                    assert(views_out@[j] == before[j]);
                } else {
                    assert(ps.take(k + 1).take(k as int) =~= ps.take(k as int));
                }
            }
        }
        k += 1;
    }
    let mut image_out: Vec<Option<usize>> = Vec::new();
    let mut e: usize = 0;
    let mut i: usize = 0;
    while i < converted.len()
        invariant
            nv == views@.len(),
            ps == new_pieces(views@, bin@, image_views@, converted@),
            iv == image_views@,
            cv == converted@,
            ext == external_images(iv, cv, iv.len() as int),
            iv.len() == cv.len(),
            laid(ps).len() + 3 <= usize::MAX,
            i <= cv.len(),
            e == external_images(iv, cv, i as int).len(),
            e <= i,
            out@ == laid(ps.take(nv + e)),
            views_out@.len() == nv + e,
            forall|j: int|
                0 <= j < nv + e ==> #[trigger] views_out@[j] == (piece_offset(ps, j) as usize, ps[j].len() as usize),
            image_out@.len() == i,
            forall|j: int|
                0 <= j < i ==> #[trigger] image_out@[j] == match cv[j] {
                    None => None,
                    Some(_) => match iv[j] {
                        Some(b) => Some(b as usize),
                        None => Some((nv + external_images(iv, cv, j).len()) as usize),
                    },
                },
        decreases cv.len() - i,
    {
        proof {
            lemma_external_images(iv, cv, i as int);
            lemma_external_prefix(iv, cv, i as int + 1, iv.len() as int);
        }
        match &converted[i] {
            None => {
                image_out.push(None);
            },
            Some(bytes) => match image_views[i] {
                Some(b) => {
                    #[verifier::truncate]
                    let bu = b as usize;
                    image_out.push(Some(bu));
                },
                None => {
                    image_out.push(Some(views_out.len()));
                    proof {
                        assert(external_images(iv, cv, i + 1) == external_images(iv, cv, i as int).push(i as int));
                        assert(external_images(iv, cv, i + 1).len() == e + 1);
                        assert(ext.take(e + 1) == external_images(iv, cv, i + 1));
                        assert(ext.take(e + 1)[e as int] == i as int);
                        assert(ext[e as int] == i as int);
                        assert(ps[nv + e] == bytes@);
                        lemma_laid_prefix(ps, nv + e + 1);
                        assert(ps.take(nv + e + 1) =~= ps.take(nv + e).push(bytes@));
                        assert(ps.take(nv + e).push(bytes@).drop_last() =~= ps.take(nv + e));
                    }
                    let ghost before = views_out@;
                    push_piece(&mut out, &mut views_out, bytes.as_slice(), Ghost(ps.take(nv + e)));
                    proof {
                        assert forall|j: int| 0 <= j < nv + e + 1 implies #[trigger] views_out@[j] == (
                            piece_offset(ps, j) as usize,
                            ps[j].len() as usize,
                        ) by {
                            if j < nv + e {
                                assert(views_out@[j] == before[j]);
                            } else {
                                assert(ps.take(nv + e).push(bytes@).take(nv + e) =~= ps.take(nv + e));
                                assert(ps.take(nv + e + 1).take(nv + e) =~= ps.take(nv + e));
                            }
                        }
                    }
                    e = e + 1;
                },
            },
        }
        i += 1;
    }
    proof {
        assert(ps.len() == nv + ext.len());
        assert(ps.take(nv + e) =~= ps);
    }
    Relayout { bin: out, views: views_out, image_views: image_out }
}

proof fn lemma_laid_len(ps: Seq<Seq<u8>>, k: int)
    requires
        0 <= k <= ps.len(),
    ensures
        laid(ps.take(k)).len() <= laid(ps).len(),
    decreases ps.len() - k,
{
    if k < ps.len() {
        lemma_laid_len(ps, k + 1);
        assert(ps.take(k + 1).drop_last() =~= ps.take(k));
    } else {
        assert(ps.take(k) =~= ps);
    }
}

pub(crate) proof fn lemma_laid_prefix(ps: Seq<Seq<u8>>, k: int)
    requires
        0 < k <= ps.len(),
    ensures
        laid(ps.take(k)).len() <= laid(ps).len(),
        laid(ps.take(k)) == padded(laid(ps.take(k - 1))) + ps[k - 1],
{
    lemma_laid_len(ps, k);
    assert(ps.take(k).drop_last() =~= ps.take(k - 1));
}

pub(crate) proof fn lemma_external_prefix(iv: Seq<Option<u64>>, cv: Seq<Option<Vec<u8>>>, k: int, n: int)
    requires
        0 <= k <= n <= iv.len(),
        n <= cv.len(),
    ensures
        external_images(iv, cv, n).take(external_images(iv, cv, k).len() as int) == external_images(iv, cv, k),
        external_images(iv, cv, k).len() <= external_images(iv, cv, n).len(),
    decreases n - k,
{
    if k == n {
        assert(external_images(iv, cv, n).take(external_images(iv, cv, n).len() as int) =~= external_images(iv, cv, n));
    } else {
        lemma_external_prefix(iv, cv, k, n - 1);
        let a = external_images(iv, cv, k);
        let b = external_images(iv, cv, n - 1);
        if cv[n - 1] is Some && iv[n - 1] is None {
            assert(b.push(n - 1).take(a.len() as int) =~= b.take(a.len() as int));
        }
    }
}

/// The length of the new binary buffer (`laid(new_pieces(..))`), when it
/// is at most `isize::MAX` bytes, the most a `Vec<u8>` can hold.
pub(crate) fn relayout_len(
    views: &Vec<ViewSpan>,
    bin_len: usize,
    bin: Ghost<Seq<u8>>,
    image_views: &Vec<Option<u64>>,
    converted: &Vec<Option<Vec<u8>>>,
) -> (r: Option<usize>)
    requires
        image_views@.len() == converted@.len(),
        bin@.len() == bin_len,
    ensures
        match r {
            Some(n) => n == laid(new_pieces(views@, bin@, image_views@, converted@)).len() && n <= isize::MAX,
            None => laid(new_pieces(views@, bin@, image_views@, converted@)).len() > isize::MAX,
        },
{
    let ghost ps = new_pieces(views@, bin@, image_views@, converted@);
    let ghost iv = image_views@;
    let ghost cv = converted@;
    let ghost ext = external_images(iv, cv, iv.len() as int);
    let nv = views.len();
    proof {
        lemma_external_images(iv, cv, iv.len() as int);
        assert(ps.take(0) =~= Seq::<Seq<u8>>::empty());
    }
    let mut total: usize = 0;
    let mut k: usize = 0;
    while k < nv
        invariant
            nv == views@.len(),
            ps == new_pieces(views@, bin@, image_views@, converted@),
            iv == image_views@,
            cv == converted@,
            iv.len() == cv.len(),
            bin@.len() == bin_len,
            ext == external_images(iv, cv, iv.len() as int),
            ps.len() == nv + ext.len(),
            k <= nv,
            total == laid(ps.take(k as int)).len(),
            total <= isize::MAX,
        decreases nv - k,
    {
        let plen: usize = match find_replacer(image_views, converted, k as u64) {
            Some(i) => {
                proof {
                    lemma_replacer(iv, cv, k as int, iv.len() as int);
                }
                match &converted[i] {
                    Some(bytes) => bytes.len(),
                    None => 0,
                }
            },
            None => {
                let v = views[k];
                let off: u64 = match v.offset {
                    Some(o) => o,
                    None => 0,
                };
                let len: u64 = match v.length {
                    Some(l) => l,
                    None => 0,
                };
                if off as u128 + len as u128 <= bin_len as u128 {
                    len as usize
                } else {
                    0
                }
            },
        };
        assert(plen == ps[k as int].len());
        proof {
            lemma_laid_prefix(ps, k + 1);
        }
        let pad = crate::texture_ktx2::pad4(total);
        if total as u128 + pad as u128 + plen as u128 > isize::MAX as u128 {
            proof {
                assert(laid(ps.take(k + 1)).len() > isize::MAX);
            }
            return None;
        }
        total = total + pad + plen;
        k += 1;
    }
    let mut e: usize = 0;
    let mut i: usize = 0;
    while i < converted.len()
        invariant
            nv == views@.len(),
            ps == new_pieces(views@, bin@, image_views@, converted@),
            iv == image_views@,
            cv == converted@,
            iv.len() == cv.len(),
            ext == external_images(iv, cv, iv.len() as int),
            ps.len() == nv + ext.len(),
            i <= cv.len(),
            e == external_images(iv, cv, i as int).len(),
            e <= i,
            total == laid(ps.take(nv + e)).len(),
            total <= isize::MAX,
        decreases cv.len() - i,
    {
        proof {
            lemma_external_images(iv, cv, i as int);
            lemma_external_prefix(iv, cv, i as int + 1, iv.len() as int);
        }
        match &converted[i] {
            None => {},
            Some(bytes) => match image_views[i] {
                Some(_) => {},
                None => {
                    proof {
                        assert(external_images(iv, cv, i + 1) == external_images(iv, cv, i as int).push(i as int));
                        assert(ext.take(e + 1) == external_images(iv, cv, i + 1));
                        assert(ext.take(e + 1)[e as int] == i as int);
                        assert(ps[nv + e] == bytes@);
                        lemma_laid_prefix(ps, nv + e + 1);
                    }
                    let plen = bytes.len();
                    let pad = crate::texture_ktx2::pad4(total);
                    if total as u128 + pad as u128 + plen as u128 > isize::MAX as u128 {
                        return None;
                    }
                    total = total + pad + plen;
                    e = e + 1;
                },
            },
        }
        i += 1;
    }
    proof {
        assert(ps.take(nv + e) =~= ps);
    }
    Some(total)
}

/// `replacer` computed: the last image converted from view `b`.
fn find_replacer(image_views: &Vec<Option<u64>>, converted: &Vec<Option<Vec<u8>>>, b: u64) -> (r: Option<usize>)
    requires
        image_views@.len() == converted@.len(),
    ensures
        match r {
            Some(i) => replacer(image_views@, converted@, b as int, image_views@.len() as int) == Some(i as int),
            None => replacer(image_views@, converted@, b as int, image_views@.len() as int) is None,
        },
{
    let mut n = image_views.len();
    while n > 0
        invariant
            n <= image_views@.len(),
            image_views@.len() == converted@.len(),
            replacer(image_views@, converted@, b as int, image_views@.len() as int) == replacer(
                image_views@,
                converted@,
                b as int,
                n as int,
            ),
        decreases n,
    {
        let hit = match (&converted[n - 1], image_views[n - 1]) {
            (Some(_), Some(v)) => v == b,
            _ => false,
        };
        if hit {
            return Some(n - 1);
        }
        n -= 1;
    }
    None
}

/// `chunk_of` computed.
fn view_chunk(v: &ViewSpan, bin: &Vec<u8>) -> (r: Vec<u8>)
    ensures
        r@ == chunk_of(*v, bin@),
{
    let off: u64 = match v.offset {
        Some(o) => o,
        None => 0,
    };
    let len: u64 = match v.length {
        Some(l) => l,
        None => 0,
    };
    if off as u128 + len as u128 <= bin.len() as u128 {
        crate::bytes::copy_range(bin.as_slice(), off as usize, (off + len) as usize)
    } else {
        Vec::new()
    }
}

/// The file extension the encoder input gets for a MIME type.
pub fn basisu_input_extension(mime: &str) -> (r: &'static str)
    ensures
        r@ == if crate::text::contains(mime@, "jpeg"@) || crate::text::contains(mime@, "jpg"@) {
            ".jpg"@
        } else if crate::text::contains(mime@, "webp"@) {
            ".webp"@
        } else {
            ".png"@
        },
{
    if crate::text::str_contains(mime, "jpeg") || crate::text::str_contains(mime, "jpg") {
        ".jpg"
    } else if crate::text::str_contains(mime, "webp") {
        ".webp"
    } else {
        ".png"
    }
}

/// The encoder's arguments: KTX2 output from `src` to `dst`, UASTC level 2
/// for `ktx2-uastc`, ETC1S at `quality` otherwise.
pub fn basisu_args(src: &str, dst: &str, mode: &str, quality: u32) -> (r: Vec<String>)
    ensures
        crate::scan::strs(r@) == seq!["-ktx2"@, "-file"@, src@, "-output_file"@, dst@] + if mode@
            == "ktx2-uastc"@ {
            seq!["-uastc"@, "-uastc_level"@, "2"@]
        } else {
            seq!["-etc1s"@, "-q"@, dec_chars(quality as nat)]
        },
{
    let mut v: Vec<String> = Vec::new();
    v.push("-ktx2".to_owned());
    v.push("-file".to_owned());
    v.push(src.to_owned());
    v.push("-output_file".to_owned());
    v.push(dst.to_owned());
    if str_eq(mode, "ktx2-uastc") {
        v.push("-uastc".to_owned());
        v.push("-uastc_level".to_owned());
        v.push("2".to_owned());
    } else {
        v.push("-etc1s".to_owned());
        v.push("-q".to_owned());
        v.push(dec_string(quality as u64));
    }
    assert(crate::scan::strs(v@) =~= seq!["-ktx2"@, "-file"@, src@, "-output_file"@, dst@] + if mode@
        == "ktx2-uastc"@ {
        seq!["-uastc"@, "-uastc_level"@, "2"@]
    } else {
        seq!["-etc1s"@, "-q"@, dec_chars(quality as nat)]
    });
    v
}

/// How an optional exit code is printed in diagnostics (`Some(n)` or
/// `None`).
pub open spec fn debug_code(code: Option<i32>) -> Seq<char> {
    match code {
        Some(c) => "Some("@ + crate::text::int_chars(c as int) + ")"@,
        None => "None"@,
    }
}

/// The last `n` characters of `s` (all of it when shorter).
pub open spec fn last_chars(s: Seq<char>, n: int) -> Seq<char> {
    if s.len() <= n {
        s
    } else {
        s.skip(s.len() - n)
    }
}

/// The error of a failed encoder run: its exit code and the last 500
/// characters of its stderr followed by its stdout.
pub fn basisu_failure_message(code: Option<i32>, stderr_text: &str, stdout_text: &str) -> (r: String)
    ensures
        r@ == "basisu failed rc="@ + debug_code(code) + ": "@ + last_chars(stderr_text@ + stdout_text@, 500),
{
    let rc = match code {
        Some(c) => concat3("Some(", crate::text::int_string(c as i64).as_str(), ")"),
        None => "None".to_owned(),
    };
    let both = concat2(stderr_text, stdout_text);
    let c = chars_of(both.as_str());
    let from = if c.len() <= 500 {
        0
    } else {
        c.len() - 500
    };
    let tail = crate::text::string_of_range(both.as_str(), &c, from, c.len());
    assert(c.len() <= 500 ==> both@.subrange(0, both@.len() as int) =~= both@);
    assert(c.len() > 500 ==> both@.subrange(from as int, both@.len() as int) =~= both@.skip(both@.len() - 500));
    concat3(concat2("basisu failed rc=", rc.as_str()).as_str(), ": ", tail.as_str())
}

/// A texture is pointed at the Basis Universal extension when its source
/// image was converted now or already is KTX2.
pub fn texture_uses_basisu(source: Option<u64>, source_converted: bool, source_is_ktx2: bool) -> (r: bool)
    ensures
        r == (source is Some && (source_converted || source_is_ktx2)),
{
    match source {
        None => false,
        Some(_) => source_converted || source_is_ktx2,
    }
}

/// The encoding mode used for a tileset: ASCII lower-cased, with `ktx2`
/// and `etc1s` meaning `ktx2-etc1s`.
pub fn ktx2_mode(mode: &str) -> (r: String)
    ensures
        r@ == if lower_seq(mode@) == "ktx2"@ || lower_seq(mode@) == "etc1s"@ {
            "ktx2-etc1s"@
        } else {
            lower_seq(mode@)
        },
{
    let m = lower_chars(&chars_of(mode));
    if crate::text::chars_equal(&m, &chars_of("ktx2")) || crate::text::chars_equal(&m, &chars_of("etc1s")) {
        "ktx2-etc1s".to_owned()
    } else {
        crate::text::string_of_chars(&m)
    }
}

/// The kind of 3D Tiles content a file extension names, if any (`b3dm`,
/// `glb` or `gltf`, any case).
pub fn content_kind(extension: &str) -> (r: Option<String>)
    ensures
        match r {
            Some(k) => k@ == lower_seq(extension@) && (k@ == "b3dm"@ || k@ == "glb"@ || k@ == "gltf"@),
            None => !(lower_seq(extension@) == "b3dm"@ || lower_seq(extension@) == "glb"@ || lower_seq(
                extension@,
            ) == "gltf"@),
        },
{
    let m = lower_chars(&chars_of(extension));
    if crate::text::chars_equal(&m, &chars_of("b3dm")) || crate::text::chars_equal(&m, &chars_of("glb"))
        || crate::text::chars_equal(&m, &chars_of("gltf")) {
        Some(crate::text::string_of_chars(&m))
    } else {
        None
    }
}

/// Before the post-process: the encoder must be present.
pub fn basisu_preflight(basisu_is_file: bool, basisu_display: &str) -> (r: Result<(), String>)
    ensures
        basisu_is_file ==> r is Ok,
        !basisu_is_file ==> (r matches Err(e) && e@ == "basisu not found: "@ + basisu_display@
            + " (set GEOFORGE_BASISU or bundle sidecar)"@),
{
    if basisu_is_file {
        Ok(())
    } else {
        Err(concat3("basisu not found: ", basisu_display, " (set GEOFORGE_BASISU or bundle sidecar)"))
    }
}

/// What the KTX2 post-process of a tileset did.
#[derive(Debug, Clone)]
pub struct Ktx2Stats {
    pub root: String,
    pub mode: String,
    pub basisu: String,
    pub files_seen: usize,
    pub files_converted: usize,
    pub textures_converted: usize,
    pub errors: Vec<String>,
}

impl Ktx2Stats {
    /// Nothing processed yet.
    pub fn new(root: String, mode: String, basisu: String, files_seen: usize) -> (r: Self)
        ensures
            r.root == root && r.mode == mode && r.basisu == basisu,
            r.files_seen == files_seen,
            r.files_converted == 0 && r.textures_converted == 0,
            r.errors@.len() == 0,
    {
        Ktx2Stats { root, mode, basisu, files_seen, files_converted: 0, textures_converted: 0, errors: Vec::new() }
    }

    /// Count the outcome of one file: converted textures count the file,
    /// an error is recorded with the file's path.
    pub fn record(&mut self, path_display: &str, result: &Result<usize, String>)
        requires
            old(self).files_converted < usize::MAX,
            result matches Ok(n) ==> old(self).textures_converted + *n <= usize::MAX,
        ensures
            final(self).root == old(self).root && final(self).mode == old(self).mode,
            final(self).basisu == old(self).basisu && final(self).files_seen == old(self).files_seen,
            match result {
                Ok(n) => if *n > 0 {
                    final(self).files_converted == old(self).files_converted + 1
                        && final(self).textures_converted == old(self).textures_converted + *n
                        && final(self).errors@ == old(self).errors@
                } else {
                    final(self).files_converted == old(self).files_converted
                        && final(self).textures_converted == old(self).textures_converted
                        && final(self).errors@ == old(self).errors@
                },
                Err(e) => final(self).files_converted == old(self).files_converted
                    && final(self).textures_converted == old(self).textures_converted
                    && final(self).errors@.len() == old(self).errors@.len() + 1
                    && final(self).errors@.drop_last() == old(self).errors@
                    && final(self).errors@.last()@ == path_display@ + ": "@ + e@,
            },
    {
        match result {
            Ok(n) => {
                if *n > 0 {
                    self.files_converted = self.files_converted + 1;
                    self.textures_converted = self.textures_converted + *n;
                }
            },
            Err(e) => {
                let ghost before = self.errors@;
                self.errors.push(concat3(path_display, ": ", e.as_str()));
                assert(self.errors@.drop_last() =~= before);
            },
        }
    }
}

} // verus!
