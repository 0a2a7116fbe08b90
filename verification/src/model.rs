//! Lightweight FBX/OBJ preflight: the material libraries an OBJ names, the
//! texture maps its MTL files reference, where referenced resources are
//! looked for, and the report built from what was found on disk.

use crate::numbers::{float_literal, is_float_literal};
use crate::path_policy::PathParts;
use crate::scan::{first_word, first_ws_from, strs};
use crate::text::{
    chars_equal, chars_of, concat2, first_non_ws, is_ws, lower_chars, lower_seq, slice_chars,
    starts_with, string_of_chars, trim, trim_chars,
};
use crate::validation::{char_index_from, split_on, strip_leading};
use vstd::prelude::*;

verus! {

/// The whitespace-separated words of `s`, in order.
pub open spec fn words(s: Seq<char>) -> Seq<Seq<char>>
    decreases s.len(),
{
    let lo = first_non_ws(s, 0);
    if lo < 0 || lo >= s.len() {
        seq![]
    } else {
        let hi = first_ws_from(s, lo);
        proof {
            lemma_word_bounds(s);
        }
        seq![s.subrange(lo, hi)] + words(s.skip(hi))
    }
}

pub proof fn lemma_first_non_ws(s: Seq<char>, from: int)
    requires
        0 <= from <= s.len(),
    ensures
        from <= first_non_ws(s, from) <= s.len(),
        first_non_ws(s, from) < s.len() ==> !is_ws(s[first_non_ws(s, from)]),
        forall|k: int| from <= k < first_non_ws(s, from) && k < s.len() ==> is_ws(s[k]),
    decreases s.len() - from,
{
    if from < s.len() && is_ws(s[from]) {
        lemma_first_non_ws(s, from + 1);
    }
}

pub proof fn lemma_first_ws_from(s: Seq<char>, i: int)
    requires
        0 <= i <= s.len(),
    ensures
        i <= first_ws_from(s, i) <= s.len(),
        first_ws_from(s, i) < s.len() ==> is_ws(s[first_ws_from(s, i)]),
        forall|k: int| i <= k < first_ws_from(s, i) ==> !is_ws(s[k]),
    decreases s.len() - i,
{
    if i < s.len() && !is_ws(s[i]) {
        lemma_first_ws_from(s, i + 1);
    }
}

pub proof fn lemma_word_bounds(s: Seq<char>)
    ensures
        first_non_ws(s, 0) < s.len() ==> first_non_ws(s, 0) < first_ws_from(s, first_non_ws(s, 0))
            <= s.len(),
{
    lemma_first_non_ws(s, 0);
    let lo = first_non_ws(s, 0);
    if 0 <= lo < s.len() {
        lemma_first_ws_from(s, lo);
    }
}

/// The words of `s`.
pub fn split_words(s: &Vec<char>) -> (r: Vec<Vec<char>>)
    ensures
        Seq::new(r@.len(), |i: int| r@[i]@) == words(s@),
{
    let mut out: Vec<Vec<char>> = Vec::new();
    let mut rest = slice_chars(s, 0, s.len());
    assert(rest@ =~= s@);
    loop
        invariant
            words(s@) == Seq::new(out@.len(), |i: int| out@[i]@) + words(rest@),
        decreases rest.len(),
    {
        let ghost before = Seq::new(out@.len(), |i: int| out@[i]@);
        let lo = crate::text::skip_ws(&rest, 0);
        proof {
            lemma_first_non_ws(rest@, 0);
        }
        if lo >= rest.len() {
            assert(words(rest@) =~= Seq::<Seq<char>>::empty());
            assert(before + Seq::<Seq<char>>::empty() =~= before);
            return out;
        }
        let hi = crate::scan::word_end(&rest, lo);
        proof {
            lemma_word_bounds(rest@);
        }
        let w = slice_chars(&rest, lo, hi);
        let next = slice_chars(&rest, hi, rest.len());
        assert(next@ =~= rest@.skip(hi as int));
        out.push(w);
        assert(Seq::new(out@.len(), |i: int| out@[i]@) =~= before.push(w@));
        assert(before.push(w@) + words(next@) =~= before + (seq![w@] + words(next@)));
        rest = next;
    }
}

/// `s` without its leading and trailing `c` characters.
pub open spec fn strip_both(s: Seq<char>, c: char) -> Seq<char> {
    strip_trailing(strip_leading(s, c), c)
}

/// `s` without its trailing `c` characters.
pub open spec fn strip_trailing(s: Seq<char>, c: char) -> Seq<char>
    decreases s.len(),
{
    if s.len() > 0 && s.last() == c {
        strip_trailing(s.drop_last(), c)
    } else {
        s
    }
}

/// The words joined with single spaces.
pub open spec fn join_words(ws: Seq<Seq<char>>) -> Seq<char>
    decreases ws.len(),
{
    if ws.len() == 0 {
        seq![]
    } else if ws.len() == 1 {
        ws[0]
    } else {
        join_words(ws.drop_last()) + " "@ + ws.last()
    }
}

/// MTL statements that name a texture map.
pub open spec fn is_map_statement(c: Seq<char>) -> bool {
    c == "map_ka"@ || c == "map_kd"@ || c == "map_ks"@ || c == "map_ke"@ || c == "map_ns"@ || c
        == "map_d"@ || c == "map_bump"@ || c == "bump"@ || c == "norm"@ || c == "disp"@ || c
        == "decal"@ || c == "refl"@
}

/// Map options that take exactly one value.
pub open spec fn is_one_value_option(o: Seq<char>) -> bool {
    o == "-blendu"@ || o == "-blendv"@ || o == "-cc"@ || o == "-clamp"@ || o == "-imfchan"@ || o
        == "-type"@ || o == "-texres"@ || o == "-bm"@ || o == "-boost"@ || o == "-colorspace"@
}

/// How many of the (at most `max`) words from `j` on are numbers.
pub open spec fn number_run(ws: Seq<Seq<char>>, j: int, max: int) -> int
    decreases max,
{
    if max <= 0 || j < 0 || j >= ws.len() || !float_literal(ws[j]) {
        0
    } else {
        1 + number_run(ws, j + 1, max - 1)
    }
}

/// Where the file name starts after the map options from `i` on, or `None`
/// when an option is unknown or lacks its values.
pub open spec fn skip_map_options(ws: Seq<Seq<char>>, i: int) -> Option<int>
    decreases ws.len() - i,
{
    if i < 0 || i >= ws.len() || !(ws[i].len() > 0 && ws[i][0] == '-') {
        Some(i)
    } else {
        let o = ws[i];
        if o == "-o"@ || o == "-s"@ || o == "-t"@ {
            let k = number_run(ws, i + 1, 3);
            proof {
                lemma_number_run(ws, i + 1, 3);
            }
            if k == 0 {
                None
            } else {
                skip_map_options(ws, i + 1 + k)
            }
        } else if o == "-mm"@ {
            if i + 2 < ws.len() {
                skip_map_options(ws, i + 3)
            } else {
                None
            }
        } else if is_one_value_option(o) {
            if i + 1 < ws.len() {
                skip_map_options(ws, i + 2)
            } else {
                None
            }
        } else {
            None
        }
    }
}

pub proof fn lemma_number_run(ws: Seq<Seq<char>>, j: int, max: int)
    ensures
        0 <= number_run(ws, j, max),
        max >= 0 ==> number_run(ws, j, max) <= max,
        0 <= j <= ws.len() ==> j + number_run(ws, j, max) <= ws.len(),
    decreases max,
{
    if !(max <= 0 || j < 0 || j >= ws.len() || !float_literal(ws[j])) {
        lemma_number_run(ws, j + 1, max - 1);
    }
}

/// `line` up to its first `#` (a comment).
pub open spec fn before_comment(line: Seq<char>) -> Seq<char> {
    match char_index_from(line, '#', 0) {
        Some(i) => line.take(i),
        None => line,
    }
}

/// The texture file an MTL line references: a texture-map statement, its
/// options skipped, and the rest (words rejoined with single spaces, quotes
/// around it removed) when not empty.
pub open spec fn mtl_reference(line: Seq<char>) -> Option<Seq<char>> {
    let l = trim(before_comment(line));
    let ws0 = words(l);
    if ws0.len() == 0 || !is_map_statement(lower_seq(ws0[0])) {
        None
    } else {
        let p = first_ws_from(l, 0);
        if p >= l.len() {
            None
        } else {
            let ws = words(trim(l.skip(p + 1)));
            match skip_map_options(ws, 0) {
                None => None,
                Some(i) => {
                    let f = strip_both(join_words(ws.skip(i)), '"');
                    if f.len() == 0 {
                        None
                    } else {
                        Some(f)
                    }
                },
            }
        }
    }
}

fn is_statement(c: &Vec<char>) -> (r: bool)
    ensures
        r == is_map_statement(c@),
{
    chars_equal(c, &chars_of("map_ka")) || chars_equal(c, &chars_of("map_kd")) || chars_equal(
        c,
        &chars_of("map_ks"),
    ) || chars_equal(c, &chars_of("map_ke")) || chars_equal(c, &chars_of("map_ns")) || chars_equal(
        c,
        &chars_of("map_d"),
    ) || chars_equal(c, &chars_of("map_bump")) || chars_equal(c, &chars_of("bump")) || chars_equal(
        c,
        &chars_of("norm"),
    ) || chars_equal(c, &chars_of("disp")) || chars_equal(c, &chars_of("decal")) || chars_equal(
        c,
        &chars_of("refl"),
    )
}

fn is_one_value(o: &Vec<char>) -> (r: bool)
    ensures
        r == is_one_value_option(o@),
{
    chars_equal(o, &chars_of("-blendu")) || chars_equal(o, &chars_of("-blendv")) || chars_equal(
        o,
        &chars_of("-cc"),
    ) || chars_equal(o, &chars_of("-clamp")) || chars_equal(o, &chars_of("-imfchan"))
        || chars_equal(o, &chars_of("-type")) || chars_equal(o, &chars_of("-texres"))
        || chars_equal(o, &chars_of("-bm")) || chars_equal(o, &chars_of("-boost")) || chars_equal(
        o,
        &chars_of("-colorspace"),
    )
}

pub open spec fn vviews(v: Seq<Vec<char>>) -> Seq<Seq<char>> {
    Seq::new(v.len(), |i: int| v[i]@)
}

/// `skip_map_options` computed.
fn skip_options(ws: &Vec<Vec<char>>) -> (r: Option<usize>)
    ensures
        match (r, skip_map_options(vviews(ws@), 0)) {
            (Some(a), Some(b)) => a as int == b && a <= ws.len(),
            (None, None) => true,
            _ => false,
        },
{
    let ghost v = vviews(ws@);
    let mut i: usize = 0;
    loop
        invariant
            v == vviews(ws@),
            i <= ws.len(),
            skip_map_options(v, 0) == skip_map_options(v, i as int),
        decreases ws.len() - i,
    {
        if i >= ws.len() || !(ws[i].len() > 0 && ws[i][0] == '-') {
            assert(i < ws.len() ==> v[i as int] == ws@[i as int]@);
            return Some(i);
        }
        let o = &ws[i];
        assert(v[i as int] == o@);
        if chars_equal(o, &chars_of("-o")) || chars_equal(o, &chars_of("-s")) || chars_equal(
            o,
            &chars_of("-t"),
        ) {
            let mut k: usize = 0;
            while k < 3 && i + 1 + k < ws.len() && is_float_literal(&ws[i + 1 + k])
                invariant
                    v == vviews(ws@),
                    i < ws.len(),
                    k <= 3,
                    i + 1 + k <= ws.len(),
                    number_run(v, i + 1, 3) == k + number_run(v, i + 1 + k, 3 - k),
                decreases 3 - k,
            {
                assert(v[i + 1 + k] == ws@[i + 1 + k]@);
                k += 1;
            }
            proof {
                if k < 3 && i + 1 + k < ws.len() {
                    assert(v[i + 1 + k] == ws@[i + 1 + k]@);
                }
                lemma_number_run(v, i + 1, 3);
            }
            assert(number_run(v, i + 1, 3) == k);
            if k == 0 {
                return None;
            }
            i = i + 1 + k;
        } else if chars_equal(o, &chars_of("-mm")) {
            if ws.len() - i > 2 {
                i = i + 3;
            } else {
                return None;
            }
        } else if is_one_value(o) {
            if ws.len() - i > 1 {
                i = i + 2;
            } else {
                return None;
            }
        } else {
            return None;
        }
    }
}

/// `join_words` computed.
fn join(ws: &Vec<Vec<char>>, from: usize) -> (r: Vec<char>)
    requires
        from <= ws.len(),
    ensures
        r@ == join_words(vviews(ws@).skip(from as int)),
{
    let ghost v = vviews(ws@).skip(from as int);
    let mut out: Vec<char> = Vec::new();
    let mut i = from;
    while i < ws.len()
        invariant
            from <= i <= ws.len(),
            v == vviews(ws@).skip(from as int),
            out@ == join_words(v.take(i - from)),
        decreases ws.len() - i,
    {
        let ghost before = out@;
        assert(v.take(i - from + 1).drop_last() =~= v.take(i - from));
        assert(v.take(i - from + 1).last() == ws@[i as int]@);
        if i > from {
            out.push(' ');
        }
        let w = &ws[i];
        let mut j: usize = 0;
        let ghost mid = out@;
        while j < w.len()
            invariant
                j <= w.len(),
                out@ == mid + w@.take(j as int),
            decreases w.len() - j,
        {
            out.push(w[j]);
            j += 1;
            assert(out@ =~= mid + w@.take(j as int));
        }
        assert(w@.take(w.len() as int) =~= w@);
        proof {
            reveal_strlit(" ");
            if i > from {
                assert(mid =~= before + " "@);
            } else {
                assert(v.take(1) =~= seq![w@]);
            }
        }
        i += 1;
    }
    assert(v.take(ws.len() - from) =~= v);
    out
}

/// `strip_both` computed.
fn strip_quotes(s: &Vec<char>) -> (r: Vec<char>)
    ensures
        r@ == strip_both(s@, '"'),
{
    let mut lo: usize = 0;
    assert(s@.skip(0) =~= s@);
    while lo < s.len() && s[lo] == '"'
        invariant
            lo <= s.len(),
            strip_leading(s@, '"') == strip_leading(s@.skip(lo as int), '"'),
        decreases s.len() - lo,
    {
        assert(s@.skip(lo as int).skip(1) =~= s@.skip(lo + 1));
        lo += 1;
    }
    let t = slice_chars(s, lo, s.len());
    assert(t@ =~= s@.skip(lo as int));
    let mut hi = t.len();
    assert(t@.take(hi as int) =~= t@);
    while hi > 0 && t[hi - 1] == '"'
        invariant
            hi <= t.len(),
            strip_trailing(t@, '"') == strip_trailing(t@.take(hi as int), '"'),
        decreases hi,
    {
        assert(t@.take(hi as int).drop_last() =~= t@.take(hi - 1));
        hi -= 1;
    }
    assert(hi > 0 ==> t@.take(hi as int).last() == t@[hi - 1]);
    slice_chars(&t, 0, hi)
}

/// The texture file an MTL line references, e.g.
/// `map_Kd -s 1 1 1 "texture set/roof.png"` references
/// `texture set/roof.png`.
pub fn mtl_texture_reference(line: &str) -> (r: Option<String>)
    ensures
        match (r, mtl_reference(line@)) {
            (Some(a), Some(b)) => a@ == b,
            (None, None) => true,
            _ => false,
        },
{
    let c = chars_of(line);
    let head = match crate::validation::find_char(&c, '#') {
        Some(i) => slice_chars(&c, 0, i),
        None => slice_chars(&c, 0, c.len()),
    };
    assert(head@ =~= before_comment(line@));
    let l = trim_chars(&head);
    let ws0 = split_words(&l);
    if ws0.len() == 0 {
        return None;
    }
    let command = lower_chars(&ws0[0]);
    if !is_statement(&command) {
        return None;
    }
    let p = crate::scan::word_end(&l, 0);
    if p >= l.len() {
        return None;
    }
    let after = slice_chars(&l, p + 1, l.len());
    assert(after@ =~= l@.skip(p + 1));
    let rem = trim_chars(&after);
    let ws = split_words(&rem);
    match skip_options(&ws) {
        None => None,
        Some(i) => {
            let joined = join(&ws, i);
            let f = strip_quotes(&joined);
            if f.len() == 0 {
                None
            } else {
                Some(string_of_chars(&f))
            }
        },
    }
}

/// The lines of `s` (split on `\n`).
pub fn split_lines(s: &Vec<char>) -> (r: Vec<Vec<char>>)
    ensures
        vviews(r@) == split_on(s@, '\n'),
{
    split_on_char(s, '\n')
}

/// The pieces of `s` between occurrences of `sep`.
pub fn split_on_char(s: &Vec<char>, sep: char) -> (r: Vec<Vec<char>>)
    ensures
        vviews(r@) == split_on(s@, sep),
{
    let mut out: Vec<Vec<char>> = Vec::new();
    let mut rest = slice_chars(s, 0, s.len());
    assert(rest@ =~= s@);
    loop
        invariant
            split_on(s@, sep) == vviews(out@) + split_on(rest@, sep),
        decreases rest.len(),
    {
        let ghost before = vviews(out@);
        match crate::validation::find_char(&rest, sep) {
            None => {
                assert(split_on(rest@, sep) == seq![rest@]);
                out.push(rest);
                assert(vviews(out@) =~= before + seq![rest@]);
                return out;
            },
            Some(i) => {
                let line = slice_chars(&rest, 0, i);
                let next = slice_chars(&rest, i + 1, rest.len());
                proof {
                    crate::validation::lemma_char_index_from(rest@, sep, 0);
                }
                assert(line@ =~= rest@.take(i as int));
                assert(next@ =~= rest@.skip(i + 1));
                assert(split_on(rest@, sep) == seq![line@] + split_on(next@, sep));
                out.push(line);
                assert(vviews(out@) =~= before.push(line@));
                assert(before.push(line@) + split_on(next@, sep) =~= before + (seq![line@]
                    + split_on(next@, sep)));
                rest = next;
            },
        }
    }
}

/// The material library an OBJ line names (`mtllib <name>`), if any.
pub open spec fn obj_library(line: Seq<char>) -> Option<Seq<char>> {
    let t = trim(line);
    if starts_with(t, "mtllib "@) && trim(t.skip(7)).len() > 0 {
        Some(trim(t.skip(7)))
    } else {
        None
    }
}

/// The values the lines give through `f`, in order.
pub open spec fn obj_libraries(lines: Seq<Seq<char>>) -> Seq<Seq<char>>
    decreases lines.len(),
{
    if lines.len() == 0 {
        seq![]
    } else {
        match obj_library(lines.last()) {
            Some(v) => obj_libraries(lines.drop_last()).push(v),
            None => obj_libraries(lines.drop_last()),
        }
    }
}

/// The texture references of MTL lines, in order.
pub open spec fn mtl_references(lines: Seq<Seq<char>>) -> Seq<Seq<char>>
    decreases lines.len(),
{
    if lines.len() == 0 {
        seq![]
    } else {
        match mtl_reference(lines.last()) {
            Some(v) => mtl_references(lines.drop_last()).push(v),
            None => mtl_references(lines.drop_last()),
        }
    }
}

fn push_string(v: &mut Vec<String>, s: String)
    ensures
        strs(final(v)@) == strs(old(v)@).push(s@),
{
    let ghost before = v@;
    v.push(s);
    assert(strs(v@) =~= strs(before).push(s@));
}

/// The material libraries an OBJ text names, in order.
pub fn obj_material_libraries(text: &str) -> (r: Vec<String>)
    ensures
        strs(r@) == obj_libraries(split_on(text@, '\n')),
{
    let lines = split_lines(&chars_of(text));
    let ghost ls = vviews(lines@);
    let prefix = chars_of("mtllib ");
    proof {
        reveal_strlit("mtllib ");
    }
    let mut out: Vec<String> = Vec::new();
    let mut i: usize = 0;
    while i < lines.len()
        invariant
            ls == vviews(lines@),
            prefix@ == "mtllib "@,
            i <= lines.len(),
            strs(out@) == obj_libraries(ls.take(i as int)),
        decreases lines.len() - i,
    {
        assert(ls.take(i + 1).drop_last() =~= ls.take(i as int));
        assert(ls.take(i + 1).last() == lines@[i as int]@);
        let t = trim_chars(&lines[i]);
        proof {
            reveal_strlit("mtllib ");
        }
        if crate::text::chars_start_with(&t, &prefix) {
            let tail = slice_chars(&t, 7, t.len());
            assert(tail@ =~= t@.skip(7));
            let v = trim_chars(&tail);
            if v.len() > 0 {
                push_string(&mut out, string_of_chars(&v));
            }
        }
        i += 1;
    }
    assert(ls.take(lines.len() as int) =~= ls);
    out
}

/// The texture files an MTL text references, in order.
pub fn mtl_texture_references(text: &str) -> (r: Vec<String>)
    ensures
        strs(r@) == mtl_references(split_on(text@, '\n')),
{
    let lines = split_lines(&chars_of(text));
    let ghost ls = vviews(lines@);
    let mut out: Vec<String> = Vec::new();
    let mut i: usize = 0;
    while i < lines.len()
        invariant
            ls == vviews(lines@),
            i <= lines.len(),
            strs(out@) == mtl_references(ls.take(i as int)),
        decreases lines.len() - i,
    {
        assert(ls.take(i + 1).drop_last() =~= ls.take(i as int));
        assert(ls.take(i + 1).last() == lines@[i as int]@);
        let line = string_of_chars(&lines[i]);
        match mtl_texture_reference(line.as_str()) {
            Some(v) => push_string(&mut out, v),
            None => {},
        }
        i += 1;
    }
    assert(ls.take(lines.len() as int) =~= ls);
    out
}

/// Where a relative resource reference is looked for, in order: under
/// `base` as written and by file name, then under each texture root the
/// same two ways.
pub open spec fn resource_candidates_of(base: PathParts, requested: Seq<Seq<char>>, roots: Seq<PathParts>) -> Seq<(Seq<char>, Seq<Seq<char>>)>
    decreases roots.len(),
{
    if roots.len() == 0 {
        seq![(base.root@, base.comps() + requested), (base.root@, base.comps() + name_part(requested))]
    } else {
        let r = roots.last();
        resource_candidates_of(base, requested, roots.drop_last()) + seq![(r.root@, r.comps() + requested), (r.root@, r.comps() + name_part(requested))]
    }
}

/// The file name of a relative reference, as components (none when it has
/// no name).
pub open spec fn name_part(requested: Seq<Seq<char>>) -> Seq<Seq<char>> {
    if requested.len() == 0 || requested.last() == ".."@ {
        seq![]
    } else {
        seq![requested.last()]
    }
}

pub open spec fn path_views(v: Seq<PathParts>) -> Seq<(Seq<char>, Seq<Seq<char>>)> {
    Seq::new(v.len(), |i: int| (v[i].root@, v[i].comps()))
}

fn append_parts(dir: &PathParts, tail: &Vec<String>) -> (r: PathParts)
    ensures
        r.root@ == dir.root@,
        r.comps() == dir.comps() + Seq::new(tail@.len(), |i: int| tail@[i]@),
{
    let mut parts = dir.parts.clone();
    let ghost base = dir.comps();
    let mut i: usize = 0;
    assert(Seq::new(parts@.len(), |j: int| parts@[j]@) =~= base);
    while i < tail.len()
        invariant
            i <= tail.len(),
            Seq::new(parts@.len(), |j: int| parts@[j]@) == base + Seq::new(i as nat, |j: int| tail@[j]@),
        decreases tail.len() - i,
    {
        let ghost before = Seq::new(parts@.len(), |j: int| parts@[j]@);
        parts.push(tail[i].clone());
        assert(Seq::new(parts@.len(), |j: int| parts@[j]@) =~= before.push(tail@[i as int]@));
        assert(base + Seq::new((i + 1) as nat, |j: int| tail@[j]@) =~= (base + Seq::new(i as nat, |j: int| tail@[j]@)).push(tail@[i as int]@));
        i += 1;
    }
    PathParts { root: dir.root.clone(), parts }
}

/// The places a relative resource reference is looked for, in order.
pub fn resource_candidates(base: &PathParts, requested: &PathParts, roots: &Vec<PathParts>) -> (r: Vec<PathParts>)
    ensures
        path_views(r@) == resource_candidates_of(*base, requested.comps(), roots@),
{
    let n = requested.parts.len();
    let mut name: Vec<String> = Vec::new();
    if n > 0 && !crate::text::str_eq(requested.parts[n - 1].as_str(), "..") {
        name.push(requested.parts[n - 1].clone());
    }
    assert(Seq::new(name@.len(), |i: int| name@[i]@) =~= name_part(requested.comps()));
    assert(Seq::new(requested.parts@.len(), |i: int| requested.parts@[i]@) =~= requested.comps());
    let mut out: Vec<PathParts> = Vec::new();
    out.push(append_parts(base, &requested.parts));
    out.push(append_parts(base, &name));
    assert(path_views(out@) =~= resource_candidates_of(*base, requested.comps(), roots@.take(0)));
    let mut i: usize = 0;
    while i < roots.len()
        invariant
            i <= roots.len(),
            Seq::new(name@.len(), |j: int| name@[j]@) == name_part(requested.comps()),
            Seq::new(requested.parts@.len(), |j: int| requested.parts@[j]@) == requested.comps(),
            path_views(out@) == resource_candidates_of(*base, requested.comps(), roots@.take(i as int)),
        decreases roots.len() - i,
    {
        let ghost before = path_views(out@);
        assert(roots@.take(i + 1).drop_last() =~= roots@.take(i as int));
        let a = append_parts(&roots[i], &requested.parts);
        let b = append_parts(&roots[i], &name);
        out.push(a);
        out.push(b);
        assert(path_views(out@) =~= before + seq![(roots@[i as int].root@, roots@[i as int].comps() + requested.comps()), (roots@[i as int].root@, roots@[i as int].comps() + name_part(requested.comps()))]);
        i += 1;
    }
    assert(roots@.take(roots.len() as int) =~= roots@);
    out
}

/// What was found for one texture an MTL file references.
#[derive(Debug, Clone)]
pub struct MtlTextureFacts {
    pub reference: String,
    pub path_display: String,
    pub exists: bool,
}

/// What was found for one material library an OBJ names: where it was
/// resolved, whether it exists, and (when it does) its texture references
/// or why they could not be read.
#[derive(Debug)]
pub struct MaterialFacts {
    pub reference: String,
    pub path_display: String,
    pub exists: bool,
    pub textures: Result<Vec<MtlTextureFacts>, String>,
}

/// What was found for a model file.
#[derive(Debug)]
pub struct ModelFacts {
    pub input_display: String,
    pub is_file: bool,
    /// Its extension, when it has one that is valid text.
    pub extension: Option<String>,
    /// For an existing OBJ: its material libraries, or why they could not
    /// be read.
    pub libraries: Result<Vec<MaterialFacts>, String>,
}

/// The verdict of the model preflight.
#[derive(Debug, Clone)]
pub struct ModelReport {
    pub valid: bool,
    pub format: Option<String>,
    pub errors: Vec<String>,
    pub warnings: Vec<String>,
}

pub open spec fn texture_errors(ts: Seq<MtlTextureFacts>) -> Seq<Seq<char>>
    decreases ts.len(),
{
    if ts.len() == 0 {
        seq![]
    } else if ts.last().exists {
        texture_errors(ts.drop_last())
    } else {
        texture_errors(ts.drop_last()).push("Referenced MTL texture is missing: "@ + ts.last().path_display@)
    }
}

pub open spec fn material_errors(m: MaterialFacts) -> Seq<Seq<char>> {
    if !m.exists {
        seq!["Referenced OBJ material file is missing: "@ + m.path_display@]
    } else {
        match m.textures {
            Err(e) => seq![e@],
            Ok(ts) => texture_errors(ts@),
        }
    }
}

pub open spec fn materials_errors(ms: Seq<MaterialFacts>) -> Seq<Seq<char>>
    decreases ms.len(),
{
    if ms.len() == 0 {
        seq![]
    } else {
        materials_errors(ms.drop_last()) + material_errors(ms.last())
    }
}

pub open spec fn model_format(f: ModelFacts) -> Option<Seq<char>> {
    match f.extension {
        Some(e) => Some(lower_seq(e@)),
        None => None,
    }
}

pub open spec fn model_errors(f: ModelFacts) -> Seq<Seq<char>> {
    let fmt = model_format(f);
    (if !f.is_file {
        seq!["Model file does not exist: "@ + f.input_display@]
    } else {
        seq![]
    }) + (if !(fmt == Some("fbx"@) || fmt == Some("obj"@)) {
        seq!["Only .fbx and .obj model files are supported"@]
    } else {
        seq![]
    }) + (if fmt == Some("obj"@) && f.is_file {
        match f.libraries {
            Err(e) => seq![e@],
            Ok(ms) => materials_errors(ms@),
        }
    } else {
        seq![]
    })
}

pub open spec fn model_warnings(f: ModelFacts) -> Seq<Seq<char>> {
    if model_format(f) == Some("obj"@) && f.is_file && (f.libraries matches Ok(ms) && ms@.len() == 0) {
        seq!["OBJ has no mtllib reference; it will convert without MTL materials"@]
    } else {
        seq![]
    }
}

/// The model preflight verdict from what was found on disk: a missing
/// file, an unsupported extension, and for an OBJ its missing material
/// libraries and textures are errors (valid when there are none).
pub fn model_scan_report(f: &ModelFacts) -> (r: ModelReport)
    ensures
        strs(r.errors@) == model_errors(*f),
        strs(r.warnings@) == model_warnings(*f),
        r.valid == (model_errors(*f).len() == 0),
        match (r.format, model_format(*f)) {
            (Some(a), Some(b)) => a@ == b,
            (None, None) => true,
            _ => false,
        },
{
    let mut errors: Vec<String> = Vec::new();
    let mut warnings: Vec<String> = Vec::new();
    let format: Option<String> = match &f.extension {
        Some(e) => Some(string_of_chars(&lower_chars(&chars_of(e.as_str())))),
        None => None,
    };
    let (is_fbx, is_obj) = match &format {
        Some(x) => (crate::text::str_eq(x.as_str(), "fbx"), crate::text::str_eq(x.as_str(), "obj")),
        None => (false, false),
    };
    if !f.is_file {
        push_string(&mut errors, concat2("Model file does not exist: ", f.input_display.as_str()));
    }
    if !(is_fbx || is_obj) {
        push_string(&mut errors, "Only .fbx and .obj model files are supported".to_owned());
    }
    let ghost head = strs(errors@);
    if is_obj && f.is_file {
        match &f.libraries {
            Err(e) => {
                push_string(&mut errors, e.clone());
            },
            Ok(ms) => {
                if ms.len() == 0 {
                    push_string(
                        &mut warnings,
                        "OBJ has no mtllib reference; it will convert without MTL materials".to_owned(),
                    );
                }
                let mut i: usize = 0;
                while i < ms.len()
                    invariant
                        i <= ms.len(),
                        strs(errors@) == head + materials_errors(ms@.take(i as int)),
                    decreases ms.len() - i,
                {
                    assert(ms@.take(i + 1).drop_last() =~= ms@.take(i as int));
                    let m = &ms[i];
                    let ghost mid = strs(errors@);
                    if !m.exists {
                        push_string(&mut errors, concat2("Referenced OBJ material file is missing: ", m.path_display.as_str()));
                    } else {
                        match &m.textures {
                            Err(e) => push_string(&mut errors, e.clone()),
                            Ok(ts) => {
                                let mut j: usize = 0;
                                while j < ts.len()
                                    invariant
                                        j <= ts.len(),
                                        strs(errors@) == mid + texture_errors(ts@.take(j as int)),
                                    decreases ts.len() - j,
                                {
                                    assert(ts@.take(j + 1).drop_last() =~= ts@.take(j as int));
                                    if !ts[j].exists {
                                        push_string(&mut errors, concat2("Referenced MTL texture is missing: ", ts[j].path_display.as_str()));
                                    }
                                    j += 1;
                                }
                                assert(ts@.take(ts.len() as int) =~= ts@);
                            },
                        }
                    }
                    assert(strs(errors@) == mid + material_errors(ms@[i as int]));
                    i += 1;
                }
                assert(ms@.take(ms.len() as int) =~= ms@);
            },
        }
    }
    let valid = errors.len() == 0;
    assert(strs(errors@).len() == errors@.len());
    ModelReport { valid, format, errors, warnings }
}

} // verus!
