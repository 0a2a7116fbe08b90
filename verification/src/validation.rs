//! Post-rebuild checks on the block structure of a tileset: which
//! `Tile_*` blocks the content URIs name, whether a 2x2 frontier is fully
//! covered, and whether every input block survived into the output.
//!
//! The caller walks the tileset JSON and hands in the content URIs of all
//! tiles, in tree order.

use crate::numbers::{all_digits, digits_value, int_literal, is_digit, parse_i32, parse_in_range};
use crate::text::{chars_of, chars_start_with, slice_chars, starts_with, string_of_chars};
use vstd::prelude::*;

verus! {

/// First position at or after `i` where `c` occurs in `s`.
pub open spec fn char_index_from(s: Seq<char>, c: char, i: int) -> Option<int>
    decreases s.len() - i,
{
    if i < 0 || i >= s.len() {
        None
    } else if s[i] == c {
        Some(i)
    } else {
        char_index_from(s, c, i + 1)
    }
}

pub proof fn lemma_char_index_from(s: Seq<char>, c: char, i: int)
    requires
        0 <= i,
    ensures
        char_index_from(s, c, i) matches Some(k) ==> i <= k < s.len() && s[k] == c,
        char_index_from(s, c, i) is None ==> forall|k: int| i <= k < s.len() ==> s[k] != c,
    decreases s.len() - i,
{
    if i < s.len() && s[i] != c {
        lemma_char_index_from(s, c, i + 1);
    }
}

/// The first occurrence of `c` at or after `i` is the one that
/// `char_index_from` finds.
pub proof fn lemma_char_index_first(s: Seq<char>, c: char, i: int, k: int)
    requires
        0 <= i <= k < s.len(),
        s[k] == c,
        forall|j: int| i <= j < k ==> s[j] != c,
    ensures
        char_index_from(s, c, i) == Some(k),
    decreases k - i,
{
    if i < k {
        lemma_char_index_first(s, c, i + 1, k);
    }
}

/// The pieces of `s` between occurrences of `c` (as `str::split` gives
/// them: one piece when `c` does not occur, empty pieces included).
pub open spec fn split_on(s: Seq<char>, c: char) -> Seq<Seq<char>>
    decreases s.len(),
{
    match char_index_from(s, c, 0) {
        None => seq![s],
        Some(i) => {
            proof {
                lemma_char_index_from(s, c, 0);
            }
            seq![s.take(i)] + split_on(s.skip(i + 1), c)
        },
    }
}

/// Position of the first `c` in `v`.
pub fn find_char(v: &Vec<char>, c: char) -> (r: Option<usize>)
    ensures
        r matches Some(i) ==> char_index_from(v@, c, 0) == Some(i as int) && i < v.len(),
        r is None ==> char_index_from(v@, c, 0) is None,
{
    let mut i: usize = 0;
    while i < v.len()
        invariant
            i <= v.len(),
            char_index_from(v@, c, 0) == char_index_from(v@, c, i as int),
        decreases v.len() - i,
    {
        if v[i] == c {
            return Some(i);
        }
        i += 1;
    }
    None
}

/// The first piece that starts with `Tile_`.
pub open spec fn block_in(segs: Seq<Seq<char>>) -> Option<Seq<char>>
    decreases segs.len(),
{
    if segs.len() == 0 {
        None
    } else if starts_with(segs[0], "Tile_"@) {
        Some(segs[0])
    } else {
        block_in(segs.skip(1))
    }
}

/// The `Tile_*` block a content URI names: its first `/`-separated
/// component that starts with `Tile_`.
pub open spec fn block_of(uri: Seq<char>) -> Option<Seq<char>> {
    block_in(split_on(uri, '/'))
}

proof fn lemma_split_step(s: Seq<char>, c: char, i: int)
    requires
        char_index_from(s, c, 0) == Some(i),
    ensures
        split_on(s, c) == seq![s.take(i)] + split_on(s.skip(i + 1), c),
        (seq![s.take(i)] + split_on(s.skip(i + 1), c))[0] == s.take(i),
        (seq![s.take(i)] + split_on(s.skip(i + 1), c)).skip(1) == split_on(s.skip(i + 1), c),
{
    lemma_char_index_from(s, c, 0);
    assert((seq![s.take(i)] + split_on(s.skip(i + 1), c)).skip(1) =~= split_on(s.skip(i + 1), c));
}

/// The block a content URI names, if any.
pub fn tile_block_of(uri: &str) -> (r: Option<String>)
    ensures
        match (r, block_of(uri@)) {
            (Some(a), Some(b)) => a@ == b,
            (None, None) => true,
            _ => false,
        },
{
    let prefix = chars_of("Tile_");
    let mut rest = chars_of(uri);
    loop
        invariant
            prefix@ == "Tile_"@,
            block_of(uri@) == block_in(split_on(rest@, '/')),
        decreases rest.len(),
    {
        match find_char(&rest, '/') {
            None => {
                assert(split_on(rest@, '/') == seq![rest@]);
                assert(seq![rest@].skip(1) =~= Seq::<Seq<char>>::empty());
                assert(block_in(Seq::<Seq<char>>::empty()) is None);
                if chars_start_with(&rest, &prefix) {
                    return Some(string_of_chars(&rest));
                }
                return None;
            },
            Some(i) => {
                let seg = slice_chars(&rest, 0, i);
                proof {
                    lemma_split_step(rest@, '/', i as int);
                    assert(seg@ =~= rest@.take(i as int));
                }
                if chars_start_with(&seg, &prefix) {
                    return Some(string_of_chars(&seg));
                }
                let next = slice_chars(&rest, i + 1, rest.len());
                assert(next@ =~= rest@.skip(i + 1));
                rest = next;
            },
        }
    }
}

/// `s` without its leading `c` characters.
pub open spec fn strip_leading(s: Seq<char>, c: char) -> Seq<char>
    decreases s.len(),
{
    if s.len() > 0 && s[0] == c {
        strip_leading(s.skip(1), c)
    } else {
        s
    }
}

/// One coordinate of a `Tile_<x>_<y>` name: leading `+` then leading `-`
/// characters are dropped, the rest parsed as an `i32`, and the value
/// negated when the piece started with `-`.
pub open spec fn coord_of(p: Seq<char>) -> Option<int> {
    match parse_in_range(strip_leading(strip_leading(p, '+'), '-'), i32::MIN as int, i32::MAX as int) {
        Some(v) => Some(
            if p.len() > 0 && p[0] == '-' {
                -v
            } else {
                v
            },
        ),
        None => None,
    }
}

/// The grid coordinate the pieces name: the first `Tile_` piece whose rest
/// splits on `_` into exactly two parts decides; a part that does not
/// parse makes the whole URI name no coordinate.
pub open spec fn coord_in(segs: Seq<Seq<char>>) -> Option<(int, int)>
    decreases segs.len(),
{
    if segs.len() == 0 {
        None
    } else if starts_with(segs[0], "Tile_"@) && split_on(segs[0].skip(5), '_').len() == 2 {
        let parts = split_on(segs[0].skip(5), '_');
        match (coord_of(parts[0]), coord_of(parts[1])) {
            (Some(a), Some(b)) => Some((a, b)),
            _ => None,
        }
    } else {
        coord_in(segs.skip(1))
    }
}

/// The grid coordinate a content URI names, if any.
pub open spec fn coord_of_uri(uri: Seq<char>) -> Option<(int, int)> {
    coord_in(split_on(uri, '/'))
}

proof fn lemma_strip_leading(s: Seq<char>, c: char)
    ensures
        strip_leading(s, c).len() > 0 ==> strip_leading(s, c)[0] != c,
        strip_leading(s, c).len() <= s.len(),
    decreases s.len(),
{
    if s.len() > 0 && s[0] == c {
        lemma_strip_leading(s.skip(1), c);
    }
}

/// `strip_leading` computed.
fn strip_leading_exec(s: &Vec<char>, c: char) -> (r: Vec<char>)
    ensures
        r@ == strip_leading(s@, c),
{
    let mut i: usize = 0;
    assert(s@.skip(0) =~= s@);
    while i < s.len() && s[i] == c
        invariant
            i <= s.len(),
            strip_leading(s@, c) == strip_leading(s@.skip(i as int), c),
        decreases s.len() - i,
    {
        assert(s@.skip(i as int).skip(1) =~= s@.skip(i + 1));
        i += 1;
    }
    let r = slice_chars(s, i, s.len());
    assert(r@ =~= s@.skip(i as int));
    r
}

/// A coordinate written as decimal digits names their value; with a
/// leading `+` the same value, and with a leading `-` its negation (so
/// `Tile_-001_+000` lies left of `Tile_+000_+000`, not right of it).
pub proof fn lemma_coord_sign(d: Seq<char>)
    requires
        d.len() > 0,
        crate::numbers::all_digits(d),
        crate::numbers::digits_value(d) <= i32::MAX,
    ensures
        coord_of(d) == Some(crate::numbers::digits_value(d)),
        coord_of("+"@ + d) == Some(crate::numbers::digits_value(d)),
        coord_of("-"@ + d) == Some(-crate::numbers::digits_value(d)),
{
    reveal_strlit("+");
    reveal_strlit("-");
    crate::numbers::lemma_digits_value_nonneg(d);
    assert(crate::numbers::is_digit(d[0]));
    assert(strip_leading(d, '+') == d);
    assert(strip_leading(d, '-') == d);
    let p = "+"@ + d;
    assert(p[0] == '+');
    assert(p.skip(1) =~= d);
    assert(strip_leading(p, '+') == strip_leading(d, '+'));
    let m = "-"@ + d;
    assert(m[0] == '-');
    assert(m.skip(1) =~= d);
    assert(strip_leading(m, '+') == m);
    assert(strip_leading(m, '-') == strip_leading(d, '-'));
}

/// A piece without `c` is split into itself alone.
proof fn lemma_split_without(s: Seq<char>, c: char)
    requires
        forall|i: int| 0 <= i < s.len() ==> s[i] != c,
    ensures
        split_on(s, c) == seq![s],
{
    lemma_char_index_from(s, c, 0);
}

/// A content URI whose first path piece is `Tile_<x>_<y>` names the grid
/// coordinate whose parts `x` and `y` name (a leading `-` negating, a
/// leading `+` not), whatever path follows the piece; it names none when
/// either part names none.
pub proof fn lemma_coord_of_tile_uri(x: Seq<char>, y: Seq<char>, tail: Seq<char>)
    requires
        forall|i: int| 0 <= i < x.len() ==> x[i] != '/' && x[i] != '_',
        forall|i: int| 0 <= i < y.len() ==> y[i] != '/' && y[i] != '_',
        tail.len() == 0 || tail[0] == '/',
    ensures
        coord_of_uri("Tile_"@ + x + "_"@ + y + tail) == match (coord_of(x), coord_of(y)) {
            (Some(a), Some(b)) => Some((a, b)),
            _ => None,
        },
{
    reveal_strlit("Tile_");
    reveal_strlit("_");
    let b = x + "_"@ + y;
    let seg = "Tile_"@ + b;
    let uri = "Tile_"@ + x + "_"@ + y + tail;
    assert(uri =~= seg + tail);
    assert forall|i: int| 0 <= i < seg.len() implies seg[i] != '/' by {
        if i >= 5 + x.len() + 1 {
            assert(seg[i] == y[i - 6 - x.len()]);
        } else if i >= 5 && i < 5 + x.len() {
            assert(seg[i] == x[i - 5]);
        }
    }
    if tail.len() == 0 {
        assert(uri =~= seg);
        lemma_split_without(uri, '/');
    } else {
        lemma_char_index_first(uri, '/', 0, seg.len() as int);
        lemma_split_step(uri, '/', seg.len() as int);
        assert(uri.take(seg.len() as int) =~= seg);
    }
    let segs = split_on(uri, '/');
    assert(segs.len() > 0 && segs[0] == seg);
    assert(seg.subrange(0, 5) =~= "Tile_"@);
    assert(seg.skip(5) =~= b);
    assert(b[x.len() as int] == '_');
    assert forall|j: int| 0 <= j < x.len() implies b[j] != '_' by {
        assert(b[j] == x[j]);
    }
    lemma_char_index_first(b, '_', 0, x.len() as int);
    lemma_split_step(b, '_', x.len() as int);
    assert(b.take(x.len() as int) =~= x);
    assert(b.skip(x.len() as int + 1) =~= y);
    lemma_split_without(y, '_');
    assert(split_on(b, '_') =~= seq![x, y]);
}

/// One coordinate piece parsed.
fn coord_piece(p: &Vec<char>) -> (r: Option<i32>)
    ensures
        match (r, coord_of(p@)) {
            (Some(v), Some(w)) => v as int == w,
            (None, None) => true,
            _ => false,
        },
{
    let t = strip_leading_exec(&strip_leading_exec(p, '+'), '-');
    proof {
        lemma_strip_leading(strip_leading(p@, '+'), '-');
    }
    let ts = string_of_chars(&t);
    match parse_i32(ts.as_str()) {
        None => None,
        Some(v) => {
            proof {
                let s = t@;
                if s.len() > 0 && s[0] == '+' {
                    crate::numbers::lemma_digits_value_nonneg(s.skip(1));
                } else {
                    crate::numbers::lemma_digits_value_nonneg(s);
                }
            }
            if p.len() > 0 && p[0] == '-' {
                Some(-v)
            } else {
                Some(v)
            }
        },
    }
}

/// The grid coordinate named by a `Tile_<x>_<y>` content URI, e.g.
/// `./Data/Tile_+001_+000/tileset.json` names `(1, 0)`.
pub fn parse_tile_coord(uri: &str) -> (r: Option<(i32, i32)>)
    ensures
        match (r, coord_of_uri(uri@)) {
            (Some((a, b)), Some((x, y))) => a as int == x && b as int == y,
            (None, None) => true,
            _ => false,
        },
{
    let prefix = chars_of("Tile_");
    let mut rest = chars_of(uri);
    loop
        invariant
            prefix@ == "Tile_"@,
            coord_of_uri(uri@) == coord_in(split_on(rest@, '/')),
        decreases rest.len(),
    {
        let found = find_char(&rest, '/');
        let seg = match found {
            None => slice_chars(&rest, 0, rest.len()),
            Some(i) => slice_chars(&rest, 0, i),
        };
        let ghost segs = split_on(rest@, '/');
        proof {
            match found {
                None => {
                    assert(seg@ =~= rest@);
                    assert(segs == seq![rest@]);
                    assert(segs.skip(1) =~= Seq::<Seq<char>>::empty());
                },
                Some(i) => {
                    lemma_split_step(rest@, '/', i as int);
                    assert(seg@ =~= rest@.take(i as int));
                },
            }
        }
        assert(segs[0] == seg@);
        proof {
            reveal_strlit("Tile_");
        }
        if seg.len() >= 5 && chars_start_with(&seg, &prefix) {
            let body = slice_chars(&seg, 5, seg.len());
            assert(body@ =~= seg@.skip(5));
            match find_char(&body, '_') {
                None => {
                    assert(split_on(body@, '_').len() == 1);
                },
                Some(j) => {
                    let second = slice_chars(&body, j + 1, body.len());
                    assert(second@ =~= body@.skip(j + 1));
                    proof {
                        lemma_split_step(body@, '_', j as int);
                    }
                    match find_char(&second, '_') {
                        Some(k) => {
                            proof {
                                lemma_split_step(second@, '_', k as int);
                            }
                            assert(split_on(body@, '_').len() > 2);
                        },
                        None => {
                            let first = slice_chars(&body, 0, j);
                            assert(first@ =~= body@.take(j as int));
                            assert(split_on(second@, '_') == seq![second@]);
                            let ghost parts = split_on(body@, '_');
                            assert(parts.len() == 2 && parts[0] == first@ && parts[1] == second@);
                            let a = match coord_piece(&first) {
                                Some(a) => a,
                                None => return None,
                            };
                            let b = match coord_piece(&second) {
                                Some(b) => b,
                                None => return None,
                            };
                            return Some((a, b));
                        },
                    }
                },
            }
        } else {
            assert(!starts_with(seg@, "Tile_"@));
        }
        assert(coord_in(segs) == coord_in(segs.skip(1)));
        match found {
            None => {
                assert(coord_in(Seq::<Seq<char>>::empty()) is None);
                return None;
            },
            Some(i) => {
                let next = slice_chars(&rest, i + 1, rest.len());
                assert(next@ =~= rest@.skip(i + 1));
                rest = next;
            },
        }
    }
}

/// The distinct grid coordinates named by the URIs.
pub open spec fn coords_named(uris: Seq<Seq<char>>) -> Set<(int, int)>
    decreases uris.len(),
{
    if uris.len() == 0 {
        Set::empty()
    } else {
        match coord_of_uri(uris.last()) {
            Some(c) => coords_named(uris.drop_last()).insert(c),
            None => coords_named(uris.drop_last()),
        }
    }
}

/// The distinct blocks named by the URIs.
pub open spec fn blocks_named(uris: Seq<Seq<char>>) -> Set<Seq<char>>
    decreases uris.len(),
{
    if uris.len() == 0 {
        Set::empty()
    } else {
        match block_of(uris.last()) {
            Some(b) => blocks_named(uris.drop_last()).insert(b),
            None => blocks_named(uris.drop_last()),
        }
    }
}

pub open spec fn uri_views(v: Seq<String>) -> Seq<Seq<char>> {
    Seq::new(v.len(), |i: int| v[i]@)
}

/// The coverage of the 2x2 frontier grid.
#[derive(Debug, Clone)]
pub struct FrontierCoverageResult {
    pub checked: bool,
    pub passed: bool,
    pub grid_size: String,
    pub blocks_expected: usize,
    pub blocks_found: usize,
    pub gaps: Vec<(i32, i32)>,
}

/// The four cells of the 2x2 frontier, in the order gaps are reported.
pub open spec fn frontier_cells() -> Seq<(int, int)> {
    seq![(0, 0), (1, 0), (0, 1), (1, 1)]
}

/// The cells of `cells` not in `found`, in order.
pub open spec fn cells_missing(cells: Seq<(int, int)>, found: Set<(int, int)>) -> Seq<(int, int)>
    decreases cells.len(),
{
    if cells.len() == 0 {
        seq![]
    } else if found.contains(cells.last()) {
        cells_missing(cells.drop_last(), found)
    } else {
        cells_missing(cells.drop_last(), found).push(cells.last())
    }
}

/// The frontier cells not named by any URI, in frontier order.
pub open spec fn frontier_gaps(found: Set<(int, int)>) -> Seq<(int, int)> {
    cells_missing(frontier_cells(), found)
}

/// The cells reported missing are exactly the cells of `cells` that are
/// not found, without repeats when `cells` has none.
pub proof fn lemma_cells_missing(cells: Seq<(int, int)>, found: Set<(int, int)>)
    ensures
        forall|c: (int, int)| #[trigger]
            cells_missing(cells, found).contains(c) <==> (cells.contains(c) && !found.contains(c)),
        cells.no_duplicates() ==> cells_missing(cells, found).no_duplicates(),
    decreases cells.len(),
{
    if cells.len() > 0 {
        let init = cells.drop_last();
        lemma_cells_missing(init, found);
        assert forall|c: (int, int)| cells.contains(c) <==> (init.contains(c) || c == cells.last()) by {
            if cells.contains(c) {
                let i = choose|i: int| 0 <= i < cells.len() && cells[i] == c;
                if i < cells.len() - 1 {
                    assert(init[i] == c);
                }
            }
            if init.contains(c) {
                let i = choose|i: int| 0 <= i < init.len() && init[i] == c;
                assert(cells[i] == c);
            }
            if c == cells.last() {
                assert(cells[cells.len() - 1] == c);
            }
        }
        let m = cells_missing(init, found);
        let x = cells.last();
        if !found.contains(x) {
            let r = m.push(x);
            assert forall|c: (int, int)| r.contains(c) <==> (m.contains(c) || c == x) by {
                if r.contains(c) {
                    let i = choose|i: int| 0 <= i < r.len() && r[i] == c;
                    if i < m.len() {
                        assert(m[i] == c);
                    }
                }
                if m.contains(c) {
                    let i = choose|i: int| 0 <= i < m.len() && m[i] == c;
                    assert(r[i] == c);
                }
                if c == x {
                    assert(r[m.len() as int] == c);
                }
            }
            if cells.no_duplicates() {
                assert(init.no_duplicates()) by {
                    assert forall|i: int, j: int| 0 <= i < j < init.len() implies init[i] != init[j] by {
                        assert(init[i] == cells[i] && init[j] == cells[j]);
                    }
                }
                assert(!init.contains(x)) by {
                    if init.contains(x) {
                        let i = choose|i: int| 0 <= i < init.len() && init[i] == x;
                        assert(cells[i] == cells[cells.len() - 1]);
                    }
                }
                assert(!m.contains(x));
                assert forall|i: int, j: int| 0 <= i < j < r.len() implies r[i] != r[j] by {
                    if j == m.len() {
                        assert(r[i] == m[i]);
                        assert(m.contains(m[i]));
                    } else {
                        assert(r[i] == m[i] && r[j] == m[j]);
                    }
                }
            }
        } else if cells.no_duplicates() {
            assert(init.no_duplicates()) by {
                assert forall|i: int, j: int| 0 <= i < j < init.len() implies init[i] != init[j] by {
                    assert(init[i] == cells[i] && init[j] == cells[j]);
                }
            }
        }
    }
}

/// A frontier cell is reported as a gap exactly when no URI names it, and
/// the frontier is covered (no gap) exactly when all four cells (0, 0),
/// (1, 0), (0, 1) and (1, 1) are named.
pub proof fn lemma_frontier_gaps(found: Set<(int, int)>)
    ensures
        forall|c: (int, int)| #[trigger]
            frontier_gaps(found).contains(c) <==> (0 <= c.0 <= 1 && 0 <= c.1 <= 1 && !found.contains(c)),
        frontier_gaps(found).no_duplicates(),
        frontier_gaps(found).len() == 0 <==> (found.contains((0, 0)) && found.contains((1, 0))
            && found.contains((0, 1)) && found.contains((1, 1))),
{
    let cells = frontier_cells();
    lemma_cells_missing(cells, found);
    assert forall|c: (int, int)| cells.contains(c) <==> (0 <= c.0 <= 1 && 0 <= c.1 <= 1) by {
        if 0 <= c.0 <= 1 && 0 <= c.1 <= 1 {
            if c == (0int, 0int) {
                assert(cells[0] == c);
            } else if c == (1int, 0int) {
                assert(cells[1] == c);
            } else if c == (0int, 1int) {
                assert(cells[2] == c);
            } else {
                assert(cells[3] == c);
            }
        }
    }
    let g = frontier_gaps(found);
    if g.len() != 0 {
        assert(g.contains(g[0]));
    }
    if !found.contains((0, 0)) {
        assert(g.contains((0, 0)));
    }
    if !found.contains((1, 0)) {
        assert(g.contains((1, 0)));
    }
    if !found.contains((0, 1)) {
        assert(g.contains((0, 1)));
    }
    if !found.contains((1, 1)) {
        assert(g.contains((1, 1)));
    }
}

pub open spec fn pair_views(v: Seq<(i32, i32)>) -> Seq<(int, int)> {
    Seq::new(v.len(), |i: int| (v[i].0 as int, v[i].1 as int))
}

/// One tile of a tileset tree: its content URI, when it has one, and its
/// child tiles in order.
pub struct TileNode {
    pub content_uri: Option<String>,
    pub children: Vec<TileNode>,
}

/// The content URI of the tile itself, as a sequence of zero or one.
pub open spec fn own_uri(t: TileNode) -> Seq<Seq<char>> {
    match t.content_uri {
        Some(u) => seq![u@],
        None => Seq::empty(),
    }
}

/// The content URIs of a tile tree: each tile's own before those of its
/// children, the children in order.
pub open spec fn tile_uris(t: TileNode) -> Seq<Seq<char>>
    decreases t, 0int,
{
    own_uri(t) + children_uris(t.children@, t.children@.len() as int)
}

/// The content URIs of the first `n` trees of `cs`, in order.
pub open spec fn children_uris(cs: Seq<TileNode>, n: int) -> Seq<Seq<char>>
    decreases cs, n,
{
    if n <= 0 || n > cs.len() {
        Seq::empty()
    } else {
        children_uris(cs, n - 1) + tile_uris(cs[n - 1])
    }
}

fn push_tile_uris(t: &TileNode, out: &mut Vec<String>)
    ensures
        uri_views(final(out)@) == uri_views(old(out)@) + tile_uris(*t),
    decreases t,
{
    let ghost start = uri_views(out@);
    if let Some(u) = &t.content_uri {
        out.push(u.clone());
    }
    assert(uri_views(out@) =~= start + own_uri(*t));
    let mut i: usize = 0;
    while i < t.children.len()
        invariant
            i <= t.children@.len(),
            uri_views(out@) == start + own_uri(*t) + children_uris(t.children@, i as int),
        decreases t.children@.len() - i,
    {
        let ghost before = uri_views(out@);
        proof {
            assert(decreases_to!(t.children => t.children[i as int]));
        }
        push_tile_uris(&t.children[i], out);
        assert(uri_views(out@) =~= start + own_uri(*t) + children_uris(t.children@, i + 1));
        i += 1;
    }
}

/// The content URIs of a tile tree, each tile's own before its children's.
pub fn content_uris(root: &TileNode) -> (r: Vec<String>)
    ensures
        uri_views(r@) == tile_uris(*root),
{
    let mut out: Vec<String> = Vec::new();
    push_tile_uris(root, &mut out);
    assert(uri_views(out@) =~= tile_uris(*root));
    out
}

/// Check that the content URIs cover the 2x2 frontier grid: the cells
/// none of them names are the gaps, and the number of distinct cells named
/// is counted.
pub fn frontier_coverage_of_uris(uris: &Vec<String>) -> (r: FrontierCoverageResult)
    ensures
        r.checked,
        r.grid_size@ == "2x2"@,
        r.blocks_expected == 4,
        r.blocks_found == coords_named(uri_views(uris@)).len(),
        pair_views(r.gaps@) == frontier_gaps(coords_named(uri_views(uris@))),
        r.passed == (r.gaps@.len() == 0),
{
    let mut coords: Vec<(i32, i32)> = Vec::new();
    let mut i: usize = 0;
    while i < uris.len()
        invariant
            i <= uris.len(),
            pair_views(coords@).no_duplicates(),
            pair_views(coords@).to_set() == coords_named(uri_views(uris@).take(i as int)),
            coords@.len() <= i,
        decreases uris.len() - i,
    {
        let ghost before = pair_views(coords@);
        let ghost pre = uri_views(uris@).take(i as int);
        let ghost post = uri_views(uris@).take(i + 1);
        assert(post.drop_last() =~= pre);
        assert(post.last() == uris@[i as int]@);
        match parse_tile_coord(uris[i].as_str()) {
            None => {},
            Some(c) => {
                let mut present = false;
                let mut k: usize = 0;
                while k < coords.len()
                    invariant
                        k <= coords.len(),
                        present == exists|m: int| 0 <= m < k && coords@[m] == c,
                    decreases coords.len() - k,
                {
                    if coords[k].0 == c.0 && coords[k].1 == c.1 {
                        present = true;
                    }
                    k += 1;
                }
                let ghost cv = (c.0 as int, c.1 as int);
                if !present {
                    coords.push(c);
                    assert(pair_views(coords@) =~= before.push(cv));
                    assert forall|m: int| 0 <= m < before.len() implies before[m] != cv by {
                        assert(coords@[m] != c);
                    }
                    proof {
                    assert(before.push(cv).to_set() =~= before.to_set().insert(cv)) by {
                        assert forall|x| before.push(cv).to_set().contains(x) <==> before.to_set().insert(cv).contains(x) by {
                            if x == cv {
                                assert(before.push(cv)[before.len() as int] == cv);
                            } else if before.push(cv).to_set().contains(x) {
                                let m = choose|m: int| 0 <= m < before.push(cv).len() && before.push(cv)[m] == x;
                                assert(before[m] == x);
                            } else if before.to_set().contains(x) {
                                let m = choose|m: int| 0 <= m < before.len() && before[m] == x;
                                assert(before.push(cv)[m] == x);
                            }
                        }
                    }
                    }
                } else {
                    proof {
                        let m = choose|m: int| 0 <= m < coords@.len() && coords@[m] == c;
                        assert(before[m] == cv);
                        assert(before.to_set().insert(cv) =~= before.to_set());
                    }
                }
            },
        }
        i += 1;
    }
    assert(uri_views(uris@).take(uris@.len() as int) =~= uri_views(uris@));
    let ghost found = coords_named(uri_views(uris@));
    proof {
        pair_views(coords@).unique_seq_to_set();
    }
    let cells: [(i32, i32); 4] = [(0, 0), (1, 0), (0, 1), (1, 1)];
    let mut gaps: Vec<(i32, i32)> = Vec::new();
    let mut g: usize = 0;
    while g < 4
        invariant
            g <= 4,
            cells@ == seq![(0i32, 0i32), (1i32, 0i32), (0i32, 1i32), (1i32, 1i32)],
            pair_views(coords@).to_set() == found,
            pair_views(gaps@) == cells_missing(frontier_cells().take(g as int), found),
        decreases 4 - g,
    {
        let cell = cells[g];
        let ghost cv = (cell.0 as int, cell.1 as int);
        assert(frontier_cells()[g as int] == cv);
        let mut present = false;
        let mut k: usize = 0;
        while k < coords.len()
            invariant
                k <= coords.len(),
                present == exists|m: int| 0 <= m < k && coords@[m] == cell,
            decreases coords.len() - k,
        {
            if coords[k].0 == cell.0 && coords[k].1 == cell.1 {
                present = true;
            }
            k += 1;
        }
        proof {
            if present {
                let m = choose|m: int| 0 <= m < coords@.len() && coords@[m] == cell;
                assert(pair_views(coords@)[m] == cv);
            } else {
                assert forall|m: int| 0 <= m < pair_views(coords@).len() implies pair_views(coords@)[m] != cv by {
                    assert(coords@[m] != cell);
                }
            }
            assert(frontier_cells().take(g + 1).drop_last() =~= frontier_cells().take(g as int));
            assert(frontier_cells().take(g + 1).last() == cv);
        }
        let ghost before = pair_views(gaps@);
        if !present {
            gaps.push(cell);
            assert(pair_views(gaps@) =~= before.push(cv));
        } else {
            assert(pair_views(gaps@) =~= before);
        }
        g += 1;
    }
    assert(frontier_cells().take(4) =~= frontier_cells());
    let passed = gaps.len() == 0;
    FrontierCoverageResult {
        checked: true,
        passed,
        grid_size: "2x2".to_owned(),
        blocks_expected: 4,
        blocks_found: coords.len(),
        gaps,
    }
}

/// Is `s` one of the strings of `v`?
fn contains_str(v: &Vec<String>, s: &str) -> (r: bool)
    ensures
        r == uri_views(v@).contains(s@),
{
    let mut k: usize = 0;
    while k < v.len()
        invariant
            k <= v.len(),
            forall|m: int| 0 <= m < k ==> v@[m]@ != s@,
        decreases v.len() - k,
    {
        if crate::text::str_eq(v[k].as_str(), s) {
            assert(uri_views(v@)[k as int] == s@);
            return true;
        }
        k += 1;
    }
    proof {
        if uri_views(v@).contains(s@) {
            let m = choose|m: int| 0 <= m < uri_views(v@).len() && uri_views(v@)[m] == s@;
            assert(v@[m]@ == s@);
        }
    }
    false
}

proof fn lemma_push_to_set<A>(s: Seq<A>, x: A)
    ensures
        s.push(x).to_set() == s.to_set().insert(x),
{
    assert forall|y| s.push(x).to_set().contains(y) <==> s.to_set().insert(x).contains(y) by {
        if y == x {
            assert(s.push(x)[s.len() as int] == x);
        } else if s.push(x).to_set().contains(y) {
            let m = choose|m: int| 0 <= m < s.push(x).len() && s.push(x)[m] == y;
            assert(s[m] == y);
        } else if s.to_set().contains(y) {
            let m = choose|m: int| 0 <= m < s.len() && s[m] == y;
            assert(s.push(x)[m] == y);
        }
    }
    assert(s.push(x).to_set() =~= s.to_set().insert(x));
}

/// The distinct blocks named by the URIs, in order of first mention.
fn distinct_blocks(uris: &Vec<String>) -> (r: Vec<String>)
    ensures
        uri_views(r@).no_duplicates(),
        uri_views(r@).to_set() == blocks_named(uri_views(uris@)),
{
    let mut out: Vec<String> = Vec::new();
    let mut i: usize = 0;
    while i < uris.len()
        invariant
            i <= uris.len(),
            uri_views(out@).no_duplicates(),
            uri_views(out@).to_set() == blocks_named(uri_views(uris@).take(i as int)),
        decreases uris.len() - i,
    {
        let ghost before = uri_views(out@);
        let ghost pre = uri_views(uris@).take(i as int);
        let ghost post = uri_views(uris@).take(i + 1);
        assert(post.drop_last() =~= pre);
        assert(post.last() == uris@[i as int]@);
        match tile_block_of(uris[i].as_str()) {
            None => {},
            Some(b) => {
                if !contains_str(&out, b.as_str()) {
                    let ghost bv = b@;
                    out.push(b);
                    assert(uri_views(out@) =~= before.push(bv));
                    proof {
                        lemma_push_to_set(before, bv);
                    }
                } else {
                    assert(before.to_set().insert(b@) =~= before.to_set());
                }
            },
        }
        i += 1;
    }
    assert(uri_views(uris@).take(uris@.len() as int) =~= uri_views(uris@));
    out
}

/// Whether the rebuilt output kept every block of the input.
#[derive(Debug, Clone)]
pub struct SubtreeRetentionResult {
    pub checked: bool,
    pub passed: bool,
    pub blocks_expected: usize,
    pub blocks_retained: usize,
    pub blocks_lost: Vec<String>,
}

/// Compare the blocks named by the input and the output content URIs:
/// the blocks lost are those of the input the output does not name (each
/// once, in order of first mention), and the check passes when none is
/// lost.
pub fn subtree_retention_of_uris(input_uris: &Vec<String>, output_uris: &Vec<String>) -> (r: SubtreeRetentionResult)
    ensures
        r.checked,
        r.blocks_expected == blocks_named(uri_views(input_uris@)).len(),
        r.blocks_retained == blocks_named(uri_views(output_uris@)).len(),
        uri_views(r.blocks_lost@).no_duplicates(),
        uri_views(r.blocks_lost@).to_set() == blocks_named(uri_views(input_uris@)).difference(
            blocks_named(uri_views(output_uris@)),
        ),
        r.passed == (r.blocks_lost@.len() == 0),
{
    let inb = distinct_blocks(input_uris);
    let outb = distinct_blocks(output_uris);
    let ghost ins = uri_views(inb@);
    let ghost outs = uri_views(outb@).to_set();
    let mut lost: Vec<String> = Vec::new();
    let mut i: usize = 0;
    while i < inb.len()
        invariant
            i <= inb.len(),
            ins == uri_views(inb@),
            ins.no_duplicates(),
            outs == uri_views(outb@).to_set(),
            uri_views(lost@).no_duplicates(),
            uri_views(lost@).to_set() == ins.take(i as int).to_set().difference(outs),
        decreases inb.len() - i,
    {
        let ghost before = uri_views(lost@);
        let ghost b = ins[i as int];
        assert(ins.take(i + 1) =~= ins.take(i as int).push(b));
        proof {
            lemma_push_to_set(ins.take(i as int), b);
        }
        if !contains_str(&outb, inb[i].as_str()) {
            lost.push(inb[i].clone());
            assert(uri_views(lost@) =~= before.push(b));
            proof {
                lemma_push_to_set(before, b);
                assert forall|m: int| 0 <= m < before.len() implies before[m] != b by {
                    if before[m] == b {
                        assert(before.to_set().contains(b));
                        assert(ins.take(i as int).to_set().contains(b));
                        let k = choose|k: int| 0 <= k < i && ins.take(i as int)[k] == b;
                        assert(ins[k] == ins[i as int]);
                    }
                }
                assert(before.push(b).to_set() =~= ins.take(i + 1).to_set().difference(outs));
            }
        } else {
            assert(before.to_set() =~= ins.take(i + 1).to_set().difference(outs));
        }
        i += 1;
    }
    assert(ins.take(inb@.len() as int) =~= ins);
    proof {
        ins.unique_seq_to_set();
        uri_views(outb@).unique_seq_to_set();
    }
    let passed = lost.len() == 0;
    SubtreeRetentionResult {
        checked: true,
        passed,
        blocks_expected: inb.len(),
        blocks_retained: outb.len(),
        blocks_lost: lost,
    }
}

/// Check that the content URIs of a tileset tree cover the 2x2 frontier
/// grid (see `frontier_coverage_of_uris`).
pub fn check_frontier_coverage(root: &TileNode) -> (r: FrontierCoverageResult)
    ensures
        r.checked,
        r.grid_size@ == "2x2"@,
        r.blocks_expected == 4,
        r.blocks_found == coords_named(tile_uris(*root)).len(),
        pair_views(r.gaps@) == frontier_gaps(coords_named(tile_uris(*root))),
        r.passed == (r.gaps@.len() == 0),
{
    let uris = content_uris(root);
    frontier_coverage_of_uris(&uris)
}

/// Compare the blocks named by the content URIs of an input and an output
/// tileset tree (see `subtree_retention_of_uris`).
pub fn check_subtree_retention(input: &TileNode, output: &TileNode) -> (r: SubtreeRetentionResult)
    ensures
        r.checked,
        r.blocks_expected == blocks_named(tile_uris(*input)).len(),
        r.blocks_retained == blocks_named(tile_uris(*output)).len(),
        uri_views(r.blocks_lost@).no_duplicates(),
        uri_views(r.blocks_lost@).to_set() == blocks_named(tile_uris(*input)).difference(
            blocks_named(tile_uris(*output)),
        ),
        r.passed == (r.blocks_lost@.len() == 0),
{
    let a = content_uris(input);
    let b = content_uris(output);
    subtree_retention_of_uris(&a, &b)
}

} // verus!
