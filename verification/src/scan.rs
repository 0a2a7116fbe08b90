//! Precheck of an OSGB dataset and of tileset inputs: a streaming check of
//! the metadata XML's structure, extraction of its SRS fields, and the
//! report built from what the caller found on disk.

use crate::text::{
    chars_blank, chars_of, concat2, concat3, find_first, first_non_ws, first_occ, is_blank, is_ws,
    occurs_at, occurs_at_exec, skip_ws, slice_chars, string_of_chars, trim, trim_chars,
};
use crate::path_policy::PathParts;
use vstd::prelude::*;

verus! {

/// Position of the first `>` at or after `i` that is outside quotes; the
/// quote state is `quote` at `i` (a quote opens with `'` or `"` and closes
/// with the same character).
pub open spec fn tag_end_from(s: Seq<char>, i: int, quote: Option<char>) -> Option<int>
    decreases s.len() - i,
{
    if i < 0 || i >= s.len() {
        None
    } else {
        let c = s[i];
        match quote {
            Some(q) => if c == q {
                tag_end_from(s, i + 1, None)
            } else {
                tag_end_from(s, i + 1, quote)
            },
            None => if c == '\'' || c == '"' {
                tag_end_from(s, i + 1, Some(c))
            } else if c == '>' {
                Some(i)
            } else {
                tag_end_from(s, i + 1, None)
            },
        }
    }
}

pub proof fn lemma_tag_end_from(s: Seq<char>, i: int, quote: Option<char>)
    requires
        0 <= i,
    ensures
        tag_end_from(s, i, quote) matches Some(p) ==> i <= p < s.len() && s[p] == '>',
    decreases s.len() - i,
{
    if i < s.len() {
        let c = s[i];
        match quote {
            Some(q) => if c == q {
                lemma_tag_end_from(s, i + 1, None);
            } else {
                lemma_tag_end_from(s, i + 1, quote);
            },
            None => if c == '\'' || c == '"' {
                lemma_tag_end_from(s, i + 1, Some(c));
            } else if c != '>' {
                lemma_tag_end_from(s, i + 1, None);
            },
        }
    }
}

/// The end of a tag whose name starts at `from`: the first `>` that is not
/// inside a quoted attribute value (a character position).
pub fn find_tag_end(text: &Vec<char>, from: usize) -> (r: Option<usize>)
    ensures
        r matches Some(p) ==> tag_end_from(text@, from as int, None) == Some(p as int),
        r is None ==> tag_end_from(text@, from as int, None) is None,
{
    let mut quote: Option<char> = None;
    let mut i = from;
    while i < text.len()
        invariant
            from <= i,
            tag_end_from(text@, from as int, None) == tag_end_from(text@, i as int, quote),
        decreases text.len() - i,
    {
        let c = text[i];
        match quote {
            Some(q) => {
                if c == q {
                    quote = None;
                }
            },
            None => {
                if c == '\'' || c == '"' {
                    quote = Some(c);
                } else if c == '>' {
                    return Some(i);
                }
            },
        }
        i += 1;
    }
    None
}

/// Index of the first whitespace character of `s` at or after `i` (or its
/// length).
pub open spec fn first_ws_from(s: Seq<char>, i: int) -> int
    decreases s.len() - i,
{
    if i < 0 || i >= s.len() {
        s.len() as int
    } else if is_ws(s[i]) {
        i
    } else {
        first_ws_from(s, i + 1)
    }
}

/// The first whitespace-separated word of `s` (empty when there is none).
pub open spec fn first_word(s: Seq<char>) -> Seq<char> {
    let lo = first_non_ws(s, 0);
    s.subrange(lo, first_ws_from(s, lo))
}

/// `s` without its trailing `/` characters.
pub open spec fn strip_end_slashes(s: Seq<char>) -> Seq<char>
    decreases s.len(),
{
    if s.len() > 0 && s.last() == '/' {
        strip_end_slashes(s.drop_last())
    } else {
        s
    }
}

/// One markup item of the metadata XML, as the structure check reads it.
pub enum XmlToken {
    /// Malformed; the message says how.
    Fail(Seq<char>),
    /// A comment, CDATA section, processing instruction, declaration or
    /// empty tag, ending before `end`.
    Skip(int),
    /// A closing tag of the element `name`.
    Close(int, Seq<char>),
    /// An opening tag of the element `name`, self-closing or not.
    Open(int, Seq<char>, bool),
}

/// The markup item starting with the `<` at `start`.
pub open spec fn xml_token(x: Seq<char>, start: int) -> XmlToken {
    if occurs_at(x, "<!--"@, start) {
        match first_occ(x, "-->"@, start + 4) {
            None => XmlToken::Fail("unclosed XML comment"@),
            Some(o) => XmlToken::Skip(o + 3),
        }
    } else if occurs_at(x, "<![CDATA["@, start) {
        match first_occ(x, "]]>"@, start + 9) {
            None => XmlToken::Fail("unclosed CDATA section"@),
            Some(o) => XmlToken::Skip(o + 3),
        }
    } else if occurs_at(x, "<?"@, start) {
        match first_occ(x, "?>"@, start + 2) {
            None => XmlToken::Fail("unclosed processing instruction"@),
            Some(o) => XmlToken::Skip(o + 2),
        }
    } else {
        match tag_end_from(x, start + 1, None) {
            None => XmlToken::Fail("unclosed XML tag"@),
            Some(p) => {
                let raw = trim(x.subrange(start + 1, p));
                if raw.len() == 0 || raw[0] == '!' {
                    XmlToken::Skip(p + 1)
                } else if raw[0] == '/' {
                    XmlToken::Close(p + 1, first_word(raw.skip(1)))
                } else {
                    XmlToken::Open(
                        p + 1,
                        first_word(trim(strip_end_slashes(raw))),
                        raw.last() == '/',
                    )
                }
            },
        }
    }
}

pub open spec fn token_end(t: XmlToken) -> int {
    match t {
        XmlToken::Fail(_) => 0,
        XmlToken::Skip(e) => e,
        XmlToken::Close(e, _) => e,
        XmlToken::Open(e, _, _) => e,
    }
}

pub proof fn lemma_token_end(x: Seq<char>, start: int)
    requires
        0 <= start < x.len(),
    ensures
        !(xml_token(x, start) is Fail) ==> start < token_end(xml_token(x, start)) <= x.len(),
{
    reveal_strlit("-->");
    reveal_strlit("]]>");
    reveal_strlit("?>");
    crate::text::lemma_first_occ(x, "-->"@, start + 4);
    crate::text::lemma_first_occ(x, "]]>"@, start + 9);
    crate::text::lemma_first_occ(x, "?>"@, start + 2);
    lemma_tag_end_from(x, start + 1, None);
}

/// The first structural error of the metadata XML from `cursor` on, given
/// the open elements `stack`, whether the root element was seen and whether
/// it was closed; `None` when the rest is well formed.
pub open spec fn xml_scan(
    x: Seq<char>,
    cursor: int,
    stack: Seq<Seq<char>>,
    seen: bool,
    closed: bool,
) -> Option<Seq<char>>
    decreases x.len() - cursor,
{
    if cursor < 0 || cursor > x.len() {
        None
    } else {
        match first_occ(x, "<"@, cursor) {
            None => if !is_blank(x.subrange(cursor, x.len() as int)) {
                Some("text after the final XML tag"@)
            } else if stack.len() > 0 {
                Some("unclosed tag <"@ + stack.last() + ">"@)
            } else if !seen {
                Some("XML document has no root element"@)
            } else {
                None
            },
            Some(start) => {
                let outside = x.subrange(cursor, start);
                if !seen && !is_blank(outside) {
                    Some("non-whitespace text before the root element"@)
                } else if closed && !is_blank(outside) {
                    Some("non-whitespace text after the root element"@)
                } else {
                    proof {
                        crate::text::lemma_first_occ(x, "<"@, cursor);
                        reveal_strlit("<");
                        lemma_token_end(x, start);
                    }
                    match xml_token(x, start) {
                        XmlToken::Fail(m) => Some(m),
                        XmlToken::Skip(end) => xml_scan(x, end, stack, seen, closed),
                        XmlToken::Close(end, name) => if stack.len() == 0 {
                            Some("unexpected closing tag </"@ + name + ">"@)
                        } else if stack.last() != name {
                            Some(
                                "closing tag </"@ + name + "> does not match <"@ + stack.last()
                                    + ">"@,
                            )
                        } else {
                            xml_scan(x, end, stack.drop_last(), seen, stack.len() == 1)
                        },
                        XmlToken::Open(end, name, self_closing) => if name.len() == 0 {
                            Some("tag has no name"@)
                        } else if stack.len() == 0 && seen {
                            Some("multiple root elements; found <"@ + name + ">"@)
                        } else if !self_closing {
                            xml_scan(x, end, stack.push(name), true, closed)
                        } else if stack.len() == 0 {
                            xml_scan(x, end, stack, true, true)
                        } else {
                            xml_scan(x, end, stack, true, closed)
                        },
                    }
                }
            },
        }
    }
}

/// The structure check's verdict on a whole document.
pub open spec fn xml_error(x: Seq<char>) -> Option<Seq<char>> {
    xml_scan(x, 0, Seq::empty(), false, false)
}

/// The executable form of a markup item.
enum Token {
    Fail(&'static str),
    Skip(usize),
    Close(usize, Vec<char>),
    Open(usize, Vec<char>, bool),
}

spec fn token_view(t: Token) -> XmlToken {
    match t {
        Token::Fail(m) => XmlToken::Fail(m@),
        Token::Skip(e) => XmlToken::Skip(e as int),
        Token::Close(e, n) => XmlToken::Close(e as int, n@),
        Token::Open(e, n, c) => XmlToken::Open(e as int, n@, c),
    }
}

/// `first_ws_from` computed.
pub fn word_end(s: &Vec<char>, from: usize) -> (r: usize)
    requires
        from <= s.len(),
    ensures
        r == first_ws_from(s@, from as int),
        from <= r <= s.len(),
{
    let mut i = from;
    while i < s.len() && !crate::text::char_is_ws(s[i])
        invariant
            from <= i <= s.len(),
            first_ws_from(s@, from as int) == first_ws_from(s@, i as int),
        decreases s.len() - i,
    {
        i += 1;
    }
    i
}

/// The first whitespace-separated word of `s`.
fn first_word_of(s: &Vec<char>) -> (r: Vec<char>)
    ensures
        r@ == first_word(s@),
{
    let lo = skip_ws(s, 0);
    let hi = word_end(s, lo);
    slice_chars(s, lo, hi)
}

/// `s` without its trailing slashes.
fn strip_slashes(s: &Vec<char>) -> (r: Vec<char>)
    ensures
        r@ == strip_end_slashes(s@),
{
    let mut n = s.len();
    assert(s@.take(n as int) =~= s@);
    while n > 0 && s[n - 1] == '/'
        invariant
            n <= s.len(),
            strip_end_slashes(s@) == strip_end_slashes(s@.take(n as int)),
        decreases n,
    {
        assert(s@.take(n as int).drop_last() =~= s@.take(n - 1));
        n -= 1;
    }
    assert(n > 0 ==> s@.take(n as int).last() == s@[n - 1]);
    slice_chars(s, 0, n)
}

/// The markup item starting with the `<` at `start`.
fn next_token(x: &Vec<char>, start: usize) -> (t: Token)
    requires
        start < x.len(),
    ensures
        token_view(t) == xml_token(x@, start as int),
{
    let comment = chars_of("<!--");
    let cdata = chars_of("<![CDATA[");
    let pi = chars_of("<?");
    proof {
        reveal_strlit("<!--");
        reveal_strlit("<![CDATA[");
        reveal_strlit("<?");
    }
    if occurs_at_exec(x, &comment, start) {
        match find_first(x, &chars_of("-->"), start + 4) {
            None => Token::Fail("unclosed XML comment"),
            Some(o) => {
                proof {
                    reveal_strlit("-->");
                    crate::text::lemma_first_occ(x@, "-->"@, start + 4);
                }
                Token::Skip(o + 3)
            },
        }
    } else if occurs_at_exec(x, &cdata, start) {
        match find_first(x, &chars_of("]]>"), start + 9) {
            None => Token::Fail("unclosed CDATA section"),
            Some(o) => {
                proof {
                    reveal_strlit("]]>");
                    crate::text::lemma_first_occ(x@, "]]>"@, start + 9);
                }
                Token::Skip(o + 3)
            },
        }
    } else if occurs_at_exec(x, &pi, start) {
        match find_first(x, &chars_of("?>"), start + 2) {
            None => Token::Fail("unclosed processing instruction"),
            Some(o) => {
                proof {
                    reveal_strlit("?>");
                    crate::text::lemma_first_occ(x@, "?>"@, start + 2);
                }
                Token::Skip(o + 2)
            },
        }
    } else {
        match find_tag_end(x, start + 1) {
            None => Token::Fail("unclosed XML tag"),
            Some(p) => {
                proof {
                    lemma_tag_end_from(x@, start + 1, None);
                }
                let raw = trim_chars(&slice_chars(x, start + 1, p));
                if raw.len() == 0 || raw[0] == '!' {
                    Token::Skip(p + 1)
                } else if raw[0] == '/' {
                    let rest = slice_chars(&raw, 1, raw.len());
                    assert(rest@ =~= raw@.skip(1));
                    Token::Close(p + 1, first_word_of(&rest))
                } else {
                    let self_closing = raw[raw.len() - 1] == '/';
                    let body = trim_chars(&strip_slashes(&raw));
                    Token::Open(p + 1, first_word_of(&body), self_closing)
                }
            },
        }
    }
}

spec fn stack_view(st: Seq<Vec<char>>) -> Seq<Seq<char>> {
    Seq::new(st.len(), |i: int| st[i]@)
}

/// The first structural problem of the metadata XML, or `None` when it is
/// well formed enough for the precheck: one root element, properly nested
/// and closed tags, nothing but whitespace outside the root, and closed
/// comments, CDATA sections and processing instructions.
pub fn xml_parse_error(xml: &str) -> (r: Option<String>)
    ensures
        match (r, xml_error(xml@)) {
            (None, None) => true,
            (Some(e), Some(m)) => e@ == m,
            _ => false,
        },
{
    let x = chars_of(xml);
    let lt = chars_of("<");
    let mut cursor: usize = 0;
    let mut stack: Vec<Vec<char>> = Vec::new();
    let mut seen = false;
    let mut closed = false;
    assert(stack_view(stack@) =~= Seq::<Seq<char>>::empty());
    loop
        invariant
            x@ == xml@,
            lt@ == "<"@,
            cursor <= x.len(),
            xml_error(xml@) == xml_scan(xml@, cursor as int, stack_view(stack@), seen, closed),
        decreases x.len() - cursor,
    {
        let ghost sv = stack_view(stack@);
        match find_first(&x, &lt, cursor) {
            None => {
                if !chars_blank(&x, cursor, x.len()) {
                    return Some("text after the final XML tag".to_owned());
                }
                if stack.len() > 0 {
                    let top = string_of_chars(&stack[stack.len() - 1]);
                    return Some(concat3("unclosed tag <", top.as_str(), ">"));
                }
                if !seen {
                    return Some("XML document has no root element".to_owned());
                }
                return None;
            },
            Some(start) => {
                proof {
                    crate::text::lemma_first_occ(x@, "<"@, cursor as int);
                    reveal_strlit("<");
                    lemma_token_end(x@, start as int);
                }
                let blank = chars_blank(&x, cursor, start);
                if !seen && !blank {
                    return Some("non-whitespace text before the root element".to_owned());
                }
                if closed && !blank {
                    return Some("non-whitespace text after the root element".to_owned());
                }
                match next_token(&x, start) {
                    Token::Fail(m) => {
                        return Some(m.to_owned());
                    },
                    Token::Skip(end) => {
                        cursor = end;
                    },
                    Token::Close(end, name) => {
                        let name_s = string_of_chars(&name);
                        match stack.pop() {
                            None => {
                                return Some(concat3("unexpected closing tag </", name_s.as_str(), ">"));
                            },
                            Some(actual) => {
                                assert(actual@ == sv.last());
                                assert(stack_view(stack@) =~= sv.drop_last());
                                if !crate::text::chars_equal(&actual, &name) {
                                    let actual_s = string_of_chars(&actual);
                                    let a = concat3("closing tag </", name_s.as_str(), "> does not match <");
                                    return Some(concat3(a.as_str(), actual_s.as_str(), ">"));
                                }
                                closed = stack.len() == 0;
                                cursor = end;
                            },
                        }
                    },
                    Token::Open(end, name, self_closing) => {
                        if name.len() == 0 {
                            return Some("tag has no name".to_owned());
                        }
                        if stack.len() == 0 && seen {
                            let name_s = string_of_chars(&name);
                            return Some(concat3("multiple root elements; found <", name_s.as_str(), ">"));
                        }
                        let empty = stack.len() == 0;
                        seen = true;
                        if !self_closing {
                            stack.push(name);
                            assert(stack_view(stack@) =~= sv.push(stack@.last()@));
                        } else if empty {
                            closed = true;
                        }
                        cursor = end;
                    },
                }
            },
        }
    }
}

/// The trimmed text between the first `<tag>` and the next `</tag>`
/// after it, when that text is not blank.
pub open spec fn tag_text(x: Seq<char>, tag: Seq<char>) -> Option<Seq<char>> {
    let open = "<"@ + tag + ">"@;
    let close = "</"@ + tag + ">"@;
    match first_occ(x, open, 0) {
        None => None,
        Some(i) => {
            let start = i + open.len();
            match first_occ(x, close, start) {
                None => None,
                Some(j) => {
                    let v = trim(x.subrange(start, j));
                    if v.len() == 0 {
                        None
                    } else {
                        Some(v)
                    }
                },
            }
        },
    }
}

/// The text of the element `tag` (first occurrence, trimmed), when present
/// and not blank.
pub fn extract_tag(xml: &str, tag: &str) -> (r: Option<String>)
    ensures
        match (r, tag_text(xml@, tag@)) {
            (Some(a), Some(b)) => a@ == b,
            (None, None) => true,
            _ => false,
        },
{
    let x = chars_of(xml);
    let open = chars_of(concat3("<", tag, ">").as_str());
    let close = chars_of(concat3("</", tag, ">").as_str());
    let i = match find_first(&x, &open, 0) {
        None => return None,
        Some(i) => i,
    };
    proof {
        crate::text::lemma_first_occ(x@, open@, 0);
        assert(first_occ(x@, open@, 0) == Some(i as int));
        assert(i + open@.len() <= x@.len());
    }
    let xl = x.len();
    let start = i + open.len();
    let j = match find_first(&x, &close, start) {
        None => return None,
        Some(j) => j,
    };
    proof {
        crate::text::lemma_first_occ(x@, close@, start as int);
    }
    let v = trim_chars(&slice_chars(&x, start, j));
    if v.len() == 0 {
        None
    } else {
        Some(string_of_chars(&v))
    }
}

/// What the metadata file of a dataset says.
#[derive(Debug, Clone)]
pub struct MetadataInfo {
    /// The first 1500 characters of the file.
    pub raw_head: String,
    /// Why the file could not be read or parsed, if it could not.
    pub parse_error: Option<String>,
    pub srs: Option<String>,
    pub srs_origin: Option<String>,
}

pub open spec fn opt_str_is(a: Option<String>, b: Option<Seq<char>>) -> bool {
    match (a, b) {
        (Some(x), Some(y)) => x@ == y,
        (None, None) => true,
        _ => false,
    }
}

/// Read the metadata text: its head, then either the structural error or
/// the `SRS` and `SRSOrigin` fields.
pub fn parse_metadata_text(text: &str) -> (r: MetadataInfo)
    ensures
        r.raw_head@ == if text@.len() <= 1500 {
            text@
        } else {
            text@.take(1500)
        },
        match xml_error(text@) {
            Some(e) => r.parse_error matches Some(pe) && pe@ == "XML parse error: "@ + e
                && r.srs is None && r.srs_origin is None,
            None => r.parse_error is None && opt_str_is(r.srs, tag_text(text@, "SRS"@))
                && opt_str_is(r.srs_origin, tag_text(text@, "SRSOrigin"@)),
        },
{
    let c = chars_of(text);
    let n = if c.len() <= 1500 {
        c.len()
    } else {
        1500
    };
    let raw_head = crate::text::string_of_range(text, &c, 0, n);
    assert(c.len() <= 1500 ==> text@.subrange(0, n as int) =~= text@);
    match xml_parse_error(text) {
        Some(e) => MetadataInfo {
            raw_head,
            parse_error: Some(concat2("XML parse error: ", e.as_str())),
            srs: None,
            srs_origin: None,
        },
        None => MetadataInfo {
            raw_head,
            parse_error: None,
            srs: extract_tag(text, "SRS"),
            srs_origin: extract_tag(text, "SRSOrigin"),
        },
    }
}

/// The metadata of a file that could not be read.
pub fn metadata_read_failed(message: String) -> (r: MetadataInfo)
    ensures
        r.raw_head@.len() == 0,
        r.parse_error == Some(message),
        r.srs is None && r.srs_origin is None,
{
    MetadataInfo { raw_head: String::new(), parse_error: Some(message), srs: None, srs_origin: None }
}

/// What was found in one directory under `Data/`.
#[derive(Debug, Clone)]
pub struct TileDirFacts {
    /// Its name.
    pub name: String,
    /// How it and its expected entry file `<name>/<name>.osgb` display.
    pub path_display: String,
    pub entry_display: String,
    pub entry_exists: bool,
    /// Why its listing failed, if it did.
    pub listing_error: Option<String>,
    /// Errors met on single entries of its listing.
    pub entry_errors: Vec<String>,
    /// How many `.osgb` files it holds, and the sizes that could be read.
    pub osgb_count: u64,
    pub osgb_sizes: Vec<u64>,
}

/// What was found on disk for a dataset root.
#[derive(Debug, Clone)]
pub struct ScanFacts {
    /// How the (normalized) root displays, and whether it was normalized
    /// from a selected `Data/` directory.
    pub root_display: String,
    pub normalized_from_data: bool,
    /// Whether `metadata.xml` is a file, and what reading it gave.
    pub has_metadata: bool,
    pub metadata: MetadataInfo,
    /// Whether `Data/` is a directory, how it displays, and how listing it went.
    pub has_data_dir: bool,
    pub data_dir_display: String,
    pub data_dir_error: Option<String>,
    pub data_entry_errors: Vec<String>,
    /// The directories under `Data/`, in name order.
    pub children: Vec<TileDirFacts>,
}

/// One tile directory taken into the report.
#[derive(Debug, Clone)]
pub struct TileReport {
    pub name: String,
    pub path: String,
    pub entry_osgb: String,
    pub entry_exists: bool,
    pub standard_layout: bool,
    pub osgb_count: u64,
    pub bytes: u64,
}

/// The verdict on a dataset root.
#[derive(Debug, Clone)]
pub struct ScanReport {
    pub valid: bool,
    pub errors: Vec<String>,
    pub warnings: Vec<String>,
    pub tiles: Vec<TileReport>,
    pub osgb_file_count: u64,
    pub total_bytes: u64,
    pub unit_hint: String,
}

pub open spec fn strs(v: Seq<String>) -> Seq<Seq<char>> {
    Seq::new(v.len(), |i: int| v[i]@)
}

pub open spec fn u64_sum(v: Seq<u64>) -> int
    decreases v.len(),
{
    if v.len() == 0 {
        0
    } else {
        u64_sum(v.drop_last()) + v.last()
    }
}

pub open spec fn is_standard_tile(c: TileDirFacts) -> bool {
    crate::patterns::pattern_matches(crate::patterns::TILE_DIR_PATTERN@, c.name@)
}

/// A directory is taken as a tile when its name is standard or its entry
/// file exists.
pub open spec fn tile_kept(c: TileDirFacts) -> bool {
    is_standard_tile(c) || c.entry_exists
}

pub open spec fn child_warnings(c: TileDirFacts) -> Seq<Seq<char>> {
    if !is_standard_tile(c) && !c.entry_exists {
        seq!["Non-standard directory under Data/: "@ + c.name@]
    } else if !is_standard_tile(c) {
        seq![
            "Non-standard directory under Data/: "@ + c.name@
                + "; accepted for convert-only, rebuild may reject it"@,
        ]
    } else {
        seq![]
    }
}

pub open spec fn prefixed(prefix: Seq<char>, v: Seq<Seq<char>>) -> Seq<Seq<char>> {
    Seq::new(v.len(), |i: int| prefix + v[i])
}

pub open spec fn child_errors(c: TileDirFacts) -> Seq<Seq<char>> {
    if !tile_kept(c) {
        seq![]
    } else {
        match c.listing_error {
            Some(e) => seq!["Cannot read tile directory "@ + c.path_display@ + ": "@ + e@],
            None => prefixed(
                "Cannot read an entry under tile "@ + c.path_display@ + ": "@,
                strs(c.entry_errors@),
            ),
        }
    }
}

pub open spec fn tile_matches(t: TileReport, c: TileDirFacts) -> bool {
    &&& t.name@ == c.name@
    &&& t.path@ == c.path_display@
    &&& t.entry_osgb@ == c.entry_display@
    &&& t.entry_exists == c.entry_exists
    &&& t.standard_layout == is_standard_tile(c)
    &&& t.osgb_count == c.osgb_count
    &&& t.bytes == u64_sum(c.osgb_sizes@)
}

/// Concatenation over the directories, in order.
pub open spec fn all_child_warnings(cs: Seq<TileDirFacts>) -> Seq<Seq<char>>
    decreases cs.len(),
{
    if cs.len() == 0 {
        seq![]
    } else {
        all_child_warnings(cs.drop_last()) + child_warnings(cs.last())
    }
}

pub open spec fn all_child_errors(cs: Seq<TileDirFacts>) -> Seq<Seq<char>>
    decreases cs.len(),
{
    if cs.len() == 0 {
        seq![]
    } else {
        all_child_errors(cs.drop_last()) + child_errors(cs.last())
    }
}

/// The directories taken as tiles, in order.
pub open spec fn kept_tiles(cs: Seq<TileDirFacts>) -> Seq<TileDirFacts>
    decreases cs.len(),
{
    if cs.len() == 0 {
        seq![]
    } else if tile_kept(cs.last()) {
        kept_tiles(cs.drop_last()).push(cs.last())
    } else {
        kept_tiles(cs.drop_last())
    }
}

/// Entry files of kept tiles that are missing, in order.
pub open spec fn missing_entries(ks: Seq<TileDirFacts>) -> Seq<Seq<char>>
    decreases ks.len(),
{
    if ks.len() == 0 {
        seq![]
    } else if !ks.last().entry_exists {
        missing_entries(ks.drop_last()).push(ks.last().entry_display@)
    } else {
        missing_entries(ks.drop_last())
    }
}

pub open spec fn total_count(ks: Seq<TileDirFacts>) -> int
    decreases ks.len(),
{
    if ks.len() == 0 {
        0
    } else {
        total_count(ks.drop_last()) + ks.last().osgb_count
    }
}

pub open spec fn total_size(ks: Seq<TileDirFacts>) -> int
    decreases ks.len(),
{
    if ks.len() == 0 {
        0
    } else {
        total_size(ks.drop_last()) + u64_sum(ks.last().osgb_sizes@)
    }
}

/// The directories under `Data/` that count (none without `Data/`).
pub open spec fn scanned_children(f: ScanFacts) -> Seq<TileDirFacts> {
    if f.has_data_dir {
        f.children@
    } else {
        seq![]
    }
}

/// Errors found before looking at the tiles.
pub open spec fn base_errors(f: ScanFacts) -> Seq<Seq<char>> {
    let root = f.root_display@;
    (if !f.has_metadata {
        seq!["Missing metadata.xml under "@ + root]
    } else {
        seq![]
    }) + (if !f.has_data_dir {
        seq!["Missing Data/ directory under "@ + root]
    } else {
        seq![]
    }) + (if f.has_metadata && f.metadata.parse_error is Some {
        seq!["Cannot read metadata.xml under "@ + root + ": "@ + f.metadata.parse_error.unwrap()@]
    } else {
        seq![]
    }) + (if !f.has_data_dir {
        seq![]
    } else {
        match f.data_dir_error {
            Some(e) => seq!["Cannot read Data/ directory under "@ + root + ": "@ + e@],
            None => prefixed(
                "Cannot read an entry under "@ + f.data_dir_display@ + ": "@,
                strs(f.data_entry_errors@),
            ),
        }
    })
}

/// Errors about missing entry files: the first 20 named, then how many
/// more there are.
pub open spec fn missing_errors(m: Seq<Seq<char>>) -> Seq<Seq<char>> {
    let shown = if m.len() <= 20 {
        m
    } else {
        m.take(20)
    };
    prefixed("Missing entry OSGB (must match folder name): "@, shown) + if m.len() > 20 {
        seq!["... and "@ + crate::text::dec_chars((m.len() - 20) as nat) + " more missing entry files"@]
    } else {
        seq![]
    }
}

pub open spec fn scan_errors(f: ScanFacts) -> Seq<Seq<char>> {
    let ks = kept_tiles(scanned_children(f));
    base_errors(f) + all_child_errors(scanned_children(f)) + missing_errors(missing_entries(ks)) + if f.has_data_dir && ks.len() == 0 {
        seq!["No Tile_* directories found under Data/"@]
    } else {
        seq![]
    }
}

pub open spec fn scan_warnings(f: ScanFacts) -> Seq<Seq<char>> {
    (if f.normalized_from_data {
        seq!["Selected Data/ directory; normalized to dataset root."@]
    } else {
        seq![]
    }) + (if f.has_metadata && f.metadata.srs is None {
        seq!["metadata.xml has no SRS; local preview ok, geographic export needs CRS."@]
    } else {
        seq![]
    }) + all_child_warnings(scanned_children(f))
}

/// The sums the report counts fit in 64 bits.
pub open spec fn scan_totals_fit(f: ScanFacts) -> bool {
    let ks = kept_tiles(scanned_children(f));
    &&& forall|k: int| 0 <= k <= ks.len() ==> #[trigger] total_count(ks.take(k)) <= u64::MAX
    &&& forall|k: int| 0 <= k <= ks.len() ==> #[trigger] total_size(ks.take(k)) <= u64::MAX
    &&& forall|k: int, j: int|
        0 <= k < ks.len() && 0 <= j <= ks[k].osgb_sizes@.len() ==> #[trigger] u64_sum(
            ks[k].osgb_sizes@.take(j),
        ) <= u64::MAX
}

pub open spec fn opt_view(s: Option<String>) -> Option<Seq<char>> {
    match s {
        Some(t) => Some(t@),
        None => None,
    }
}

proof fn lemma_kept_prefix(cs: Seq<TileDirFacts>, i: int)
    requires
        0 <= i <= cs.len(),
    ensures
        kept_tiles(cs.take(i)).len() <= kept_tiles(cs).len(),
        kept_tiles(cs).take(kept_tiles(cs.take(i)).len() as int) == kept_tiles(cs.take(i)),
    decreases cs.len() - i,
{
    if i == cs.len() {
        assert(cs.take(i) =~= cs);
        assert(kept_tiles(cs).take(kept_tiles(cs).len() as int) =~= kept_tiles(cs));
    } else {
        lemma_kept_prefix(cs, i + 1);
        let a = kept_tiles(cs.take(i));
        let b = kept_tiles(cs.take(i + 1));
        assert(cs.take(i + 1).drop_last() =~= cs.take(i));
        let k = kept_tiles(cs);
        if tile_kept(cs[i]) {
            assert(b == a.push(cs[i]));
            assert(k.take(a.len() as int) =~= k.take(b.len() as int).take(a.len() as int));
            assert(b.take(a.len() as int) =~= a);
        } else {
            assert(b == a);
        }
    }
}

/// `items`, each with `prefix` in front, appended to `out`.
fn push_prefixed(out: &mut Vec<String>, prefix: &str, items: &Vec<String>)
    ensures
        strs(final(out)@) == strs(old(out)@) + prefixed(prefix@, strs(items@)),
{
    let ghost start = strs(out@);
    let mut i: usize = 0;
    while i < items.len()
        invariant
            i <= items.len(),
            strs(out@) == start + prefixed(prefix@, strs(items@.take(i as int))),
        decreases items.len() - i,
    {
        let ghost before = out@;
        out.push(concat2(prefix, items[i].as_str()));
        assert(strs(out@) =~= strs(before).push(prefix@ + items@[i as int]@));
        assert(prefixed(prefix@, strs(items@.take(i + 1))) =~= prefixed(
            prefix@,
            strs(items@.take(i as int)),
        ).push(prefix@ + items@[i as int]@));
        i += 1;
    }
    assert(items@.take(items.len() as int) =~= items@);
}

fn push_str(out: &mut Vec<String>, item: String)
    ensures
        strs(final(out)@) == strs(old(out)@) + seq![item@],
{
    let ghost before = out@;
    out.push(item);
    assert(strs(out@) =~= strs(before) + seq![item@]);
}

/// The sum of the sizes, when every partial sum fits.
fn sum_sizes(v: &Vec<u64>) -> (r: u64)
    requires
        forall|j: int| 0 <= j <= v@.len() ==> #[trigger] u64_sum(v@.take(j)) <= u64::MAX,
    ensures
        r == u64_sum(v@),
{
    let mut total: u64 = 0;
    let mut i: usize = 0;
    while i < v.len()
        invariant
            i <= v.len(),
            forall|j: int| 0 <= j <= v@.len() ==> #[trigger] u64_sum(v@.take(j)) <= u64::MAX,
            total == u64_sum(v@.take(i as int)),
        decreases v.len() - i,
    {
        assert(v@.take(i + 1).drop_last() =~= v@.take(i as int));
        assert(u64_sum(v@.take(i + 1)) <= u64::MAX);
        total = total + v[i];
        i += 1;
    }
    assert(v@.take(v.len() as int) =~= v@);
    total
}

/// The precheck verdict on a dataset root from what was found on disk:
/// every problem as an error (the dataset is valid exactly when there is
/// none), the tolerated oddities as warnings, the tiles taken (standard
/// `Tile_<x>_<y>` directories and any directory holding its own entry file)
/// with their `.osgb` counts and sizes, and the unit hint of the SRS.
pub fn scan_report(f: &ScanFacts) -> (r: ScanReport)
    requires
        scan_totals_fit(*f),
    ensures
        strs(r.errors@) == scan_errors(*f),
        strs(r.warnings@) == scan_warnings(*f),
        r.valid == (scan_errors(*f).len() == 0),
        r.tiles@.len() == kept_tiles(scanned_children(*f)).len(),
        forall|i: int|
            0 <= i < r.tiles@.len() ==> tile_matches(
                #[trigger] r.tiles@[i],
                kept_tiles(scanned_children(*f))[i],
            ),
        r.osgb_file_count == total_count(kept_tiles(scanned_children(*f))),
        r.total_bytes == total_size(kept_tiles(scanned_children(*f))),
        r.unit_hint@ == crate::geo::unit_hint_text(
            if f.has_metadata {
                opt_view(f.metadata.srs)
            } else {
                None
            },
        ),
{
    let root = f.root_display.as_str();
    let mut errors: Vec<String> = Vec::new();
    let mut warnings: Vec<String> = Vec::new();
    if f.normalized_from_data {
        push_str(&mut warnings, "Selected Data/ directory; normalized to dataset root.".to_owned());
    }
    if !f.has_metadata {
        push_str(&mut errors, concat2("Missing metadata.xml under ", root));
    }
    if !f.has_data_dir {
        push_str(&mut errors, concat2("Missing Data/ directory under ", root));
    }
    if f.has_metadata {
        if let Some(pe) = &f.metadata.parse_error {
            push_str(&mut errors, concat3(concat2("Cannot read metadata.xml under ", root).as_str(), ": ", pe.as_str()));
        }
        if f.metadata.srs.is_none() {
            push_str(
                &mut warnings,
                "metadata.xml has no SRS; local preview ok, geographic export needs CRS.".to_owned(),
            );
        }
    }
    let empty_children: Vec<TileDirFacts> = Vec::new();
    let children: &Vec<TileDirFacts> = if f.has_data_dir {
        match &f.data_dir_error {
            Some(e) => {
                push_str(&mut errors, concat3(concat2("Cannot read Data/ directory under ", root).as_str(), ": ", e.as_str()));
            },
            None => {
                let prefix = concat3("Cannot read an entry under ", f.data_dir_display.as_str(), ": ");
                push_prefixed(&mut errors, prefix.as_str(), &f.data_entry_errors);
            },
        }
        &f.children
    } else {
        &empty_children
    };
    assert(children@ == scanned_children(*f));
    assert(strs(errors@) == base_errors(*f));
    let ghost cs = children@;
    let ghost ks = kept_tiles(cs);
    let ghost base_warn = strs(warnings@);
    let ghost base_err = strs(errors@);
    let mut tiles: Vec<TileReport> = Vec::new();
    let mut missing: Vec<String> = Vec::new();
    let mut count: u64 = 0;
    let mut bytes: u64 = 0;
    let mut i: usize = 0;
    while i < children.len()
        invariant
            cs == children@,
            ks == kept_tiles(cs),
            scan_totals_fit(*f),
            ks == kept_tiles(scanned_children(*f)),
            i <= cs.len(),
            strs(errors@) == base_err + all_child_errors(cs.take(i as int)),
            strs(warnings@) == base_warn + all_child_warnings(cs.take(i as int)),
            tiles@.len() == kept_tiles(cs.take(i as int)).len(),
            forall|j: int|
                0 <= j < tiles@.len() ==> tile_matches(
                    #[trigger] tiles@[j],
                    kept_tiles(cs.take(i as int))[j],
                ),
            strs(missing@) == missing_entries(kept_tiles(cs.take(i as int))),
            count == total_count(kept_tiles(cs.take(i as int))),
            bytes == total_size(kept_tiles(cs.take(i as int))),
        decreases cs.len() - i,
    {
        let c = &children[i];
        let ghost pre = cs.take(i as int);
        let ghost post = cs.take(i + 1);
        assert(post.drop_last() =~= pre);
        assert(post.last() == *c);
        let standard = crate::patterns::is_tile_dir_name(c.name.as_str());
        if !standard && !c.entry_exists {
            push_str(&mut warnings, concat2("Non-standard directory under Data/: ", c.name.as_str()));
            assert(kept_tiles(post) == kept_tiles(pre));
        } else {
            if !standard {
                push_str(
                    &mut warnings,
                    concat3(
                        "Non-standard directory under Data/: ",
                        c.name.as_str(),
                        "; accepted for convert-only, rebuild may reject it",
                    ),
                );
            }
            match &c.listing_error {
                Some(e) => {
                    push_str(
                        &mut errors,
                        concat3(concat2("Cannot read tile directory ", c.path_display.as_str()).as_str(), ": ", e.as_str()),
                    );
                },
                None => {
                    let prefix = concat3("Cannot read an entry under tile ", c.path_display.as_str(), ": ");
                    push_prefixed(&mut errors, prefix.as_str(), &c.entry_errors);
                },
            }
            proof {
                lemma_kept_prefix(cs, i + 1);
                let kp = kept_tiles(pre);
                assert(kept_tiles(post) == kp.push(*c));
                assert(ks.take(kp.len() as int + 1) == kp.push(*c));
                assert(ks.take(kp.len() as int + 1)[kp.len() as int] == *c);
                assert(ks[kp.len() as int] == *c);
                assert(ks.take(kp.len() as int + 1).drop_last() =~= kp);
                assert(total_count(ks.take(kp.len() as int + 1)) <= u64::MAX);
                assert(total_size(ks.take(kp.len() as int + 1)) <= u64::MAX);
                assert forall|j: int| 0 <= j <= c.osgb_sizes@.len() implies #[trigger] u64_sum(
                    c.osgb_sizes@.take(j),
                ) <= u64::MAX by {
                    assert(ks[kp.len() as int].osgb_sizes@.take(j) == c.osgb_sizes@.take(j));
                }
            }
            let size = sum_sizes(&c.osgb_sizes);
            count = count + c.osgb_count;
            bytes = bytes + size;
            if !c.entry_exists {
                push_str(&mut missing, c.entry_display.clone());
            }
            let ghost old_tiles = tiles@;
            tiles.push(
                TileReport {
                    name: c.name.clone(),
                    path: c.path_display.clone(),
                    entry_osgb: c.entry_display.clone(),
                    entry_exists: c.entry_exists,
                    standard_layout: standard,
                    osgb_count: c.osgb_count,
                    bytes: size,
                },
            );
            assert forall|j: int| 0 <= j < tiles@.len() implies tile_matches(
                #[trigger] tiles@[j],
                kept_tiles(post)[j],
            ) by {
                if j < old_tiles.len() {
                    assert(tiles@[j] == old_tiles[j]);
                }
            }
        }
        assert(all_child_errors(post) == all_child_errors(pre) + child_errors(*c));
        assert(all_child_warnings(post) == all_child_warnings(pre) + child_warnings(*c));
        i += 1;
    }
    assert(cs.take(cs.len() as int) =~= cs);
    let ghost m = strs(missing@);
    let n_missing = missing.len();
    let shown = if n_missing <= 20 {
        n_missing
    } else {
        20
    };
    let mut j: usize = 0;
    let ghost before_missing = strs(errors@);
    while j < shown
        invariant
            shown <= missing@.len(),
            m == strs(missing@),
            j <= shown,
            strs(errors@) == before_missing + prefixed(
                "Missing entry OSGB (must match folder name): "@,
                m.take(j as int),
            ),
        decreases shown - j,
    {
        let ghost b = errors@;
        errors.push(concat2("Missing entry OSGB (must match folder name): ", missing[j].as_str()));
        assert(strs(errors@) =~= strs(b).push(
            "Missing entry OSGB (must match folder name): "@ + m[j as int],
        ));
        assert(prefixed("Missing entry OSGB (must match folder name): "@, m.take(j + 1)) =~= prefixed(
            "Missing entry OSGB (must match folder name): "@,
            m.take(j as int),
        ).push("Missing entry OSGB (must match folder name): "@ + m[j as int]));
        j += 1;
    }
    if n_missing <= 20 {
        assert(m.take(shown as int) =~= m);
    }
    if n_missing > 20 {
        let more = crate::text::dec_string((n_missing - 20) as u64);
        push_str(&mut errors, concat3("... and ", more.as_str(), " more missing entry files"));
    }
    if f.has_data_dir && tiles.len() == 0 {
        push_str(&mut errors, "No Tile_* directories found under Data/".to_owned());
    }
    let srs: Option<&str> = if f.has_metadata {
        match &f.metadata.srs {
            Some(s) => Some(s.as_str()),
            None => None,
        }
    } else {
        None
    };
    let hint = crate::geo::unit_hint(srs);
    let valid = errors.len() == 0;
    assert(strs(errors@).len() == errors@.len());
    ScanReport {
        valid,
        errors,
        warnings,
        tiles,
        osgb_file_count: count,
        total_bytes: bytes,
        unit_hint: hint,
    }
}

/// The errors of a scan whose path does not exist.
pub fn missing_path_errors(path_display: &str) -> (r: Vec<String>)
    ensures
        strs(r@) == seq!["Path does not exist: "@ + path_display@],
{
    let mut v: Vec<String> = Vec::new();
    push_str(&mut v, concat2("Path does not exist: ", path_display));
    assert(strs(v@) =~= seq!["Path does not exist: "@ + path_display@]);
    v
}

/// Where a tileset input's `tileset.json` is: inside the directory, or
/// the file itself; it must be a file.
pub fn resolve_tileset(input_is_dir: bool, input: &PathParts, tileset_is_file: bool, tileset_display: &str) -> (r: Result<PathParts, String>)
    ensures
        tileset_is_file ==> (r matches Ok(p) && p.root@ == input.root@ && p.comps() == if input_is_dir {
            input.comps().push("tileset.json"@)
        } else {
            input.comps()
        }),
        !tileset_is_file ==> (r matches Err(e) && e@ == "tileset.json not found at "@ + tileset_display@),
{
    if !tileset_is_file {
        return Err(concat2("tileset.json not found at ", tileset_display));
    }
    let mut parts = input.parts.clone();
    if input_is_dir {
        parts.push("tileset.json".to_owned());
    }
    let r = PathParts { root: input.root.clone(), parts };
    assert(r.comps() =~= if input_is_dir {
        input.comps().push("tileset.json"@)
    } else {
        input.comps()
    });
    Ok(r)
}

/// A selected `Data` directory whose parent holds `metadata.xml` stands
/// for the dataset root above it.
pub fn selects_data_dir(file_name: Option<&str>, parent_has_metadata: bool) -> (r: bool)
    ensures
        r == (file_name matches Some(n) && n@ == "Data"@ && parent_has_metadata),
{
    match file_name {
        Some(n) => crate::text::str_eq(n, "Data") && parent_has_metadata,
        None => false,
    }
}

} // verus!
