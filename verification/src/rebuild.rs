//! Decisions of the top-level rebuild stage: the grid precheck that
//! refuses sparse or non-standard tile layouts, the quality presets, the
//! engine choice, the `top_rebuild` command line and the verdict on a run.

use crate::numbers::{parse_i32, parse_in_range};
use crate::patterns::{capture_group, matches_pattern, pattern_group, pattern_matches};
use crate::scan::strs;
use crate::text::{concat2, concat3, dec_chars, dec_string, int_chars, int_string, lower_chars, lower_seq};
use vstd::prelude::*;

verus! {

/// A tile directory name with its two grid coordinates captured.
pub const TILE_COORD_PATTERN: &'static str = r"(?i)^Tile_([+\-]?\d+)_([+\-]?\d+)$";

/// One entry of the listing of the input root.
pub enum RootEntry {
    /// The listing failed on this entry; the error text.
    Unreadable(String),
    /// Its type could not be inspected.
    Uninspectable { path_display: String, error: String },
    /// A readable entry: its name, whether it is a directory, and whether
    /// it holds a `tileset.json`.
    Entry { name: String, is_dir: bool, has_tileset: bool },
}

/// What the precheck found when it passes.
#[derive(Debug, Clone, Copy, PartialEq, Eq, Structural)]
pub enum PrecheckOutcome {
    /// No `Tile_*` directories: the engine decides.
    Deferred,
    /// A complete `width` x `height` grid of `tiles` distinct tiles.
    Grid { width: u64, height: u64, tiles: u64 },
}

/// The coordinate a name captures, or the range error (as `Err(())`).
pub open spec fn name_coord(name: Seq<char>) -> Option<Result<(int, int), ()>> {
    if !pattern_matches(TILE_COORD_PATTERN@, name) {
        None
    } else {
        let x = match pattern_group(TILE_COORD_PATTERN@, name, 1) {
            Some(g) => parse_in_range(g, i32::MIN as int, i32::MAX as int),
            None => None,
        };
        let y = match pattern_group(TILE_COORD_PATTERN@, name, 2) {
            Some(g) => parse_in_range(g, i32::MIN as int, i32::MAX as int),
            None => None,
        };
        match (x, y) {
            (Some(a), Some(b)) => Some(Ok((a, b))),
            _ => Some(Err(())),
        }
    }
}

/// What a listing gives: the coordinates of the `Tile_<x>_<y>` directories
/// and the names of other directories holding a tileset, in order, or the
/// first error.
pub open spec fn scan_root(root_display: Seq<char>, es: Seq<RootEntry>) -> Result<(Seq<(int, int)>, Seq<Seq<char>>), Seq<char>>
    decreases es.len(),
{
    if es.len() == 0 {
        Ok((seq![], seq![]))
    } else {
        match scan_root(root_display, es.drop_last()) {
            Err(e) => Err(e),
            Ok((cs, ns)) => match es.last() {
                RootEntry::Unreadable(e) => Err(
                    "rebuild precheck: cannot read an entry under "@ + root_display + ": "@ + e@,
                ),
                RootEntry::Uninspectable { path_display, error } => Err(
                    "rebuild precheck: cannot inspect "@ + path_display@ + ": "@ + error@,
                ),
                RootEntry::Entry { name, is_dir, has_tileset } => if !is_dir {
                    Ok((cs, ns))
                } else {
                    match name_coord(name@) {
                        Some(Ok(c)) => Ok((cs.push(c), ns)),
                        Some(Err(())) => Err(
                            "rebuild precheck: Tile coordinate out of i32 range: "@ + name@,
                        ),
                        None => if has_tileset {
                            Ok((cs, ns.push(name@)))
                        } else {
                            Ok((cs, ns))
                        },
                    }
                },
            },
        }
    }
}

/// The names joined with `, `.
pub open spec fn join_comma(ns: Seq<Seq<char>>) -> Seq<char>
    decreases ns.len(),
{
    if ns.len() == 0 {
        seq![]
    } else if ns.len() == 1 {
        ns[0]
    } else {
        join_comma(ns.drop_last()) + ", "@ + ns.last()
    }
}

pub open spec fn min_x(cs: Seq<(int, int)>) -> int
    decreases cs.len(),
{
    if cs.len() <= 1 {
        cs[0].0
    } else if cs.last().0 < min_x(cs.drop_last()) {
        cs.last().0
    } else {
        min_x(cs.drop_last())
    }
}

pub open spec fn max_x(cs: Seq<(int, int)>) -> int
    decreases cs.len(),
{
    if cs.len() <= 1 {
        cs[0].0
    } else if cs.last().0 > max_x(cs.drop_last()) {
        cs.last().0
    } else {
        max_x(cs.drop_last())
    }
}

pub open spec fn min_y(cs: Seq<(int, int)>) -> int
    decreases cs.len(),
{
    if cs.len() <= 1 {
        cs[0].1
    } else if cs.last().1 < min_y(cs.drop_last()) {
        cs.last().1
    } else {
        min_y(cs.drop_last())
    }
}

pub open spec fn max_y(cs: Seq<(int, int)>) -> int
    decreases cs.len(),
{
    if cs.len() <= 1 {
        cs[0].1
    } else if cs.last().1 > max_y(cs.drop_last()) {
        cs.last().1
    } else {
        max_y(cs.drop_last())
    }
}

/// The verdict of the precheck on the grid found.
pub open spec fn grid_verdict(cs: Seq<(int, int)>, ns: Seq<Seq<char>>) -> Result<PrecheckOutcome, Seq<char>> {
    if ns.len() > 0 {
        Err("rebuild precheck: unsupported non-standard Tile layout: "@ + join_comma(ns))
    } else if cs.len() == 0 {
        Ok(PrecheckOutcome::Deferred)
    } else {
        let w = max_x(cs) - min_x(cs) + 1;
        let h = max_y(cs) - min_y(cs) + 1;
        let n = cs.to_set().len();
        let expected = if w * h > u64::MAX {
            u64::MAX as int
        } else {
            w * h
        };
        if n != expected {
            Err(
                "不支持的数据布局：检测到稀疏或不连续的 Tile 网格（有 "@ + dec_chars(n) + " 块，矩形范围期望 "@
                    + dec_chars(expected as nat) + " = "@ + dec_chars(w as nat) + "×"@ + dec_chars(
                    h as nat,
                ) + "）。V1 顶层重建仅支持规则块数据。"@,
            )
        } else {
            Ok(PrecheckOutcome::Grid { width: w as u64, height: h as u64, tiles: n as u64 })
        }
    }
}

pub open spec fn listing_seq(l: Result<Vec<RootEntry>, String>) -> Result<Seq<RootEntry>, Seq<char>> {
    match l {
        Ok(es) => Ok(es@),
        Err(e) => Err(e@),
    }
}

/// The whole precheck verdict.
pub open spec fn precheck_verdict(
    tileset_is_file: bool,
    tileset_display: Seq<char>,
    root_display: Seq<char>,
    listing: Result<Seq<RootEntry>, Seq<char>>,
) -> Result<PrecheckOutcome, Seq<char>> {
    if !tileset_is_file {
        Err("rebuild precheck: tileset.json missing at "@ + tileset_display)
    } else {
        match listing {
            Err(e) => Err("rebuild precheck: cannot read "@ + root_display + ": "@ + e),
            Ok(es) => match scan_root(root_display, es) {
                Err(e) => Err(e),
                Ok((cs, ns)) => grid_verdict(cs, ns),
            },
        }
    }
}

fn push_str(v: &mut Vec<String>, s: String)
    ensures
        strs(final(v)@) == strs(old(v)@).push(s@),
{
    let ghost before = v@;
    v.push(s);
    assert(strs(v@) =~= strs(before).push(s@));
}

pub open spec fn coord_views(v: Seq<(i32, i32)>) -> Seq<(int, int)> {
    Seq::new(v.len(), |i: int| (v[i].0 as int, v[i].1 as int))
}

/// The coordinate a name captures.
fn name_coordinate(name: &str) -> (r: Option<Option<(i32, i32)>>)
    ensures
        match (r, name_coord(name@)) {
            (None, None) => true,
            (Some(Some((a, b))), Some(Ok((x, y)))) => a as int == x && b as int == y,
            (Some(None), Some(Err(()))) => true,
            _ => false,
        },
{
    if !matches_pattern(TILE_COORD_PATTERN, name) {
        return None;
    }
    let x = match capture_group(TILE_COORD_PATTERN, name, 1) {
        Some(g) => parse_i32(g.as_str()),
        None => None,
    };
    let y = match capture_group(TILE_COORD_PATTERN, name, 2) {
        Some(g) => parse_i32(g.as_str()),
        None => None,
    };
    match (x, y) {
        (Some(a), Some(b)) => Some(Some((a, b))),
        _ => Some(None),
    }
}

/// Check the input of a top-level rebuild from its listing: every
/// `Tile_<x>_<y>` directory must parse within `i32`, no other directory may
/// hold a tileset, and the distinct coordinates must fill their bounding
/// rectangle exactly (without tiles the engine decides).
pub fn precheck_rebuild_input(
    tileset_is_file: bool,
    tileset_display: &str,
    root_display: &str,
    listing: Result<Vec<RootEntry>, String>,
) -> (r: Result<PrecheckOutcome, String>)
    ensures
        match (
            r,
            precheck_verdict(tileset_is_file, tileset_display@, root_display@, listing_seq(listing)),
        ) {
            (Ok(a), Ok(b)) => a == b,
            (Err(a), Err(b)) => a@ == b,
            _ => false,
        },
{
    if !tileset_is_file {
        return Err(concat2("rebuild precheck: tileset.json missing at ", tileset_display));
    }
    let ghost listing_view = listing_seq(listing);
    let es = match listing {
        Err(e) => {
            return Err(concat3(concat2("rebuild precheck: cannot read ", root_display).as_str(), ": ", e.as_str()));
        },
        Ok(es) => es,
    };
    assert(listing_view == Ok::<Seq<RootEntry>, Seq<char>>(es@));
    let mut coords: Vec<(i32, i32)> = Vec::new();
    let mut names: Vec<String> = Vec::new();
    let mut i: usize = 0;
    assert(es@.take(0) =~= Seq::<RootEntry>::empty());
    assert(coord_views(coords@) =~= Seq::<(int, int)>::empty());
    assert(strs(names@) =~= Seq::<Seq<char>>::empty());
    while i < es.len()
        invariant
            tileset_is_file,
            listing_view == Ok::<Seq<RootEntry>, Seq<char>>(es@),
            listing_view == listing_seq(listing),
            i <= es.len(),
            scan_root(root_display@, es@.take(i as int)) == Ok::<
                (Seq<(int, int)>, Seq<Seq<char>>),
                Seq<char>,
            >((coord_views(coords@), strs(names@))),
        decreases es.len() - i,
    {
        assert(es@.take(i + 1).drop_last() =~= es@.take(i as int));
        assert(es@.take(i + 1).last() == es@[i as int]);
        match &es[i] {
            RootEntry::Unreadable(e) => {
                proof {
                    lemma_scan_root_err(root_display@, es@, i + 1);
                }
                return Err(concat3(concat2("rebuild precheck: cannot read an entry under ", root_display).as_str(), ": ", e.as_str()));
            },
            RootEntry::Uninspectable { path_display, error } => {
                proof {
                    lemma_scan_root_err(root_display@, es@, i + 1);
                }
                return Err(concat3(concat2("rebuild precheck: cannot inspect ", path_display.as_str()).as_str(), ": ", error.as_str()));
            },
            RootEntry::Entry { name, is_dir, has_tileset } => {
                if *is_dir {
                    match name_coordinate(name.as_str()) {
                        Some(Some(c)) => {
                            let ghost before = coord_views(coords@);
                            coords.push(c);
                            assert(coord_views(coords@) =~= before.push((c.0 as int, c.1 as int)));
                        },
                        Some(None) => {
                            proof {
                                lemma_scan_root_err(root_display@, es@, i + 1);
                            }
                            return Err(concat2("rebuild precheck: Tile coordinate out of i32 range: ", name.as_str()));
                        },
                        None => {
                            if *has_tileset {
                                push_str(&mut names, name.clone());
                            }
                        },
                    }
                }
            },
        }
        i += 1;
    }
    assert(es@.take(es.len() as int) =~= es@);
    grid_check(&coords, &names)
}

proof fn lemma_scan_root_err(root: Seq<char>, es: Seq<RootEntry>, k: int)
    requires
        0 <= k <= es.len(),
        scan_root(root, es.take(k)) is Err,
    ensures
        scan_root(root, es) == scan_root(root, es.take(k)),
    decreases es.len() - k,
{
    if k == es.len() {
        assert(es.take(k) =~= es);
    } else {
        assert(es.take(k + 1).drop_last() =~= es.take(k));
        lemma_scan_root_err(root, es, k + 1);
    }
}

fn join_names(ns: &Vec<String>) -> (r: String)
    ensures
        r@ == join_comma(strs(ns@)),
{
    let mut out = String::new();
    let mut i: usize = 0;
    let ghost w = strs(ns@);
    while i < ns.len()
        invariant
            w == strs(ns@),
            i <= ns.len(),
            out@ == join_comma(w.take(i as int)),
        decreases ns.len() - i,
    {
        assert(w.take(i + 1).drop_last() =~= w.take(i as int));
        assert(w.take(i + 1).last() == ns@[i as int]@);
        if i > 0 {
            out = concat2(out.as_str(), ", ");
        }
        out = concat2(out.as_str(), ns[i].as_str());
        i += 1;
    }
    assert(w.take(ns.len() as int) =~= w);
    out
}

proof fn lemma_push_to_set<A>(s: Seq<A>, x: A)
    ensures
        s.push(x).to_set() == s.to_set().insert(x),
{
    assert forall|y| s.push(x).to_set().contains(y) <==> s.to_set().insert(x).contains(y) by {
        if y == x {
            assert(s.push(x)[s.len() as int] == x);
        } else if s.push(x).to_set().contains(y) {
            let m = choose|m: int| 0 <= m < s.push(x).len() && s.push(x)[m] == y;
            assert(s[m] == y);
        } else if s.to_set().contains(y) {
            let m = choose|m: int| 0 <= m < s.len() && s[m] == y;
            assert(s.push(x)[m] == y);
        }
    }
    assert(s.push(x).to_set() =~= s.to_set().insert(x));
}

/// The grid verdict on the coordinates and non-standard names found.
fn grid_check(coords: &Vec<(i32, i32)>, names: &Vec<String>) -> (r: Result<PrecheckOutcome, String>)
    ensures
        match (r, grid_verdict(coord_views(coords@), strs(names@))) {
            (Ok(a), Ok(b)) => a == b,
            (Err(a), Err(b)) => a@ == b,
            _ => false,
        },
{
    if names.len() > 0 {
        let j = join_names(names);
        return Err(concat2("rebuild precheck: unsupported non-standard Tile layout: ", j.as_str()));
    }
    if coords.len() == 0 {
        return Ok(PrecheckOutcome::Deferred);
    }
    let ghost cs = coord_views(coords@);
    let mut lo_x: i32 = coords[0].0;
    let mut hi_x: i32 = coords[0].0;
    let mut lo_y: i32 = coords[0].1;
    let mut hi_y: i32 = coords[0].1;
    let mut distinct: Vec<(i32, i32)> = Vec::new();
    distinct.push(coords[0]);
    assert(cs.take(1).to_set() =~= set![cs[0]]) by {
        assert forall|p| cs.take(1).to_set().contains(p) <==> set![cs[0]].contains(p) by {
            if p == cs[0] {
                assert(cs.take(1)[0] == p);
            }
        }
    }
    assert(coord_views(distinct@) =~= seq![cs[0]]);
    assert(seq![cs[0]].to_set() =~= set![cs[0]]) by {
        assert forall|p| seq![cs[0]].to_set().contains(p) <==> set![cs[0]].contains(p) by {
            if p == cs[0] {
                assert(seq![cs[0]][0] == p);
            }
        }
    }
    assert(cs.take(1) =~= seq![cs[0]]);
    let mut i: usize = 1;
    while i < coords.len()
        invariant
            cs == coord_views(coords@),
            1 <= i <= coords.len(),
            lo_x as int == min_x(cs.take(i as int)),
            hi_x as int == max_x(cs.take(i as int)),
            lo_y as int == min_y(cs.take(i as int)),
            hi_y as int == max_y(cs.take(i as int)),
            coord_views(distinct@).no_duplicates(),
            coord_views(distinct@).to_set() == cs.take(i as int).to_set(),
        decreases coords.len() - i,
    {
        let c = coords[i];
        assert(cs.take(i + 1).drop_last() =~= cs.take(i as int));
        assert(cs.take(i + 1).last() == (c.0 as int, c.1 as int));
        if c.0 < lo_x {
            lo_x = c.0;
        }
        if c.0 > hi_x {
            hi_x = c.0;
        }
        if c.1 < lo_y {
            lo_y = c.1;
        }
        if c.1 > hi_y {
            hi_y = c.1;
        }
        let ghost cv = (c.0 as int, c.1 as int);
        proof {
            lemma_push_to_set(cs.take(i as int), cv);
            assert(cs.take(i as int).push(cv) =~= cs.take(i + 1));
        }
        let mut present = false;
        let mut k: usize = 0;
        while k < distinct.len()
            invariant
                k <= distinct.len(),
                present == exists|m: int| 0 <= m < k && distinct@[m] == c,
            decreases distinct.len() - k,
        {
            if distinct[k].0 == c.0 && distinct[k].1 == c.1 {
                present = true;
            }
            k += 1;
        }
        let ghost before = coord_views(distinct@);
        if !present {
            distinct.push(c);
            assert(coord_views(distinct@) =~= before.push(cv));
            proof {
                lemma_push_to_set(before, cv);
                assert forall|m: int| 0 <= m < before.len() implies before[m] != cv by {
                    assert(distinct@[m] != c);
                }
            }
        } else {
            proof {
                let m = choose|m: int| 0 <= m < distinct@.len() - 0 && distinct@[m] == c;
                assert(before[m] == cv);
                assert(before.to_set().insert(cv) =~= before.to_set());
            }
        }
        i += 1;
    }
    assert(cs.take(coords.len() as int) =~= cs);
    proof {
        coord_views(distinct@).unique_seq_to_set();
    }
    proof {
        lemma_min_le_max(cs);
    }
    assert(lo_x <= hi_x && lo_y <= hi_y);
    let w: u64 = (hi_x as i64 - lo_x as i64 + 1) as u64;
    let h: u64 = (hi_y as i64 - lo_y as i64 + 1) as u64;
    assert(w >= 1);
    proof {
        if h > u64::MAX / w {
            assert(w * h > u64::MAX) by (nonlinear_arith)
                requires
                    w > 0,
                    h > u64::MAX / w,
            ;
        } else {
            assert(w * h <= u64::MAX) by (nonlinear_arith)
                requires
                    w > 0,
                    h <= u64::MAX / w,
            ;
        }
    }
    let expected: u64 = if h > u64::MAX / w {
        u64::MAX
    } else {
        w * h
    };
    let n = distinct.len() as u64;
    if n != expected {
        let a = concat3(
            "不支持的数据布局：检测到稀疏或不连续的 Tile 网格（有 ",
            dec_string(n).as_str(),
            " 块，矩形范围期望 ",
        );
        let b = concat3(a.as_str(), dec_string(expected).as_str(), " = ");
        let c = concat3(b.as_str(), dec_string(w).as_str(), "×");
        return Err(concat3(c.as_str(), dec_string(h).as_str(), "）。V1 顶层重建仅支持规则块数据。"));
    }
    Ok(PrecheckOutcome::Grid { width: w, height: h, tiles: n })
}

proof fn lemma_min_le_max(cs: Seq<(int, int)>)
    requires
        cs.len() > 0,
    ensures
        min_x(cs) <= max_x(cs),
        min_y(cs) <= max_y(cs),
    decreases cs.len(),
{
    if cs.len() > 1 {
        lemma_min_le_max(cs.drop_last());
    }
}

/// The triangle budgets a quality preset sets (level 1, level 2), when the
/// options name a preset and set no explicit budget.
pub open spec fn preset_budgets(quality: Seq<char>, explicit: bool) -> Option<(u64, u64)> {
    let q = lower_seq(quality);
    if explicit || q.len() == 0 {
        None
    } else if q == "quality"@ {
        Some((8000u64, 4000u64))
    } else if q == "speed"@ {
        Some((2000u64, 1000u64))
    } else {
        Some((4000u64, 2000u64))
    }
}

/// The presets are pinned to their budgets, whatever the case of the name:
/// `quality` asks for (8000, 4000) triangles, `speed` for (2000, 1000), and
/// `balanced` or any other non-empty name for (4000, 2000); an explicit
/// budget or an empty name sets none. Every preset halves its level-1
/// budget for level 2.
pub proof fn lemma_preset_budgets(q: Seq<char>, explicit: bool)
    ensures
        explicit ==> preset_budgets(q, explicit) is None,
        q.len() == 0 ==> preset_budgets(q, explicit) is None,
        !explicit && lower_seq(q) == "quality"@ ==> preset_budgets(q, explicit) == Some(
            (8000u64, 4000u64),
        ),
        !explicit && lower_seq(q) == "speed"@ ==> preset_budgets(q, explicit) == Some(
            (2000u64, 1000u64),
        ),
        !explicit && lower_seq(q) == "balanced"@ ==> preset_budgets(q, explicit) == Some(
            (4000u64, 2000u64),
        ),
        !explicit && q.len() > 0 && lower_seq(q) != "quality"@ && lower_seq(q) != "speed"@
            ==> preset_budgets(q, explicit) == Some((4000u64, 2000u64)),
        preset_budgets(q, explicit) matches Some((a, b)) ==> a == 2 * b && 1000 <= b <= 4000,
{
    reveal_strlit("quality");
    reveal_strlit("speed");
    reveal_strlit("balanced");
    assert(lower_seq(q).len() == q.len());
}

/// The quality preset asks for more triangles than the balanced one on
/// both levels, and the balanced one for more than the speed preset.
pub proof fn lemma_preset_order(hq: Seq<char>, hb: Seq<char>, hs: Seq<char>)
    requires
        lower_seq(hq) == "quality"@,
        lower_seq(hb) == "balanced"@,
        lower_seq(hs) == "speed"@,
    ensures
        ({
            let (q1, q2) = preset_budgets(hq, false)->0;
            let (b1, b2) = preset_budgets(hb, false)->0;
            let (s1, s2) = preset_budgets(hs, false)->0;
            &&& preset_budgets(hq, false) is Some
            &&& preset_budgets(hb, false) is Some
            &&& preset_budgets(hs, false) is Some
            &&& q1 > b1 > s1
            &&& q2 > b2 > s2
        }),
{
    lemma_preset_budgets(hq, false);
    lemma_preset_budgets(hb, false);
    lemma_preset_budgets(hs, false);
    reveal_strlit("quality");
    reveal_strlit("speed");
    reveal_strlit("balanced");
    assert(lower_seq(hq).len() == hq.len());
    assert(lower_seq(hb).len() == hb.len());
    assert(lower_seq(hs).len() == hs.len());
}

/// The triangle budgets of a quality preset (`quality`, `speed`, or
/// `balanced` and anything else), unless budgets are set explicitly.
pub fn apply_quality_preset(quality: Option<&str>, explicit_budget: bool) -> (r: Option<(u64, u64)>)
    ensures
        r == preset_budgets(
            match quality {
                Some(q) => q@,
                None => ""@,
            },
            explicit_budget,
        ),
{
    proof {
        reveal_strlit("");
    }
    let q = match quality {
        Some(q) => lower_chars(&crate::text::chars_of(q)),
        None => Vec::new(),
    };
    assert(quality is None ==> q@ =~= lower_seq(""@));
    if explicit_budget || q.len() == 0 {
        return None;
    }
    if crate::text::chars_equal(&q, &crate::text::chars_of("quality")) {
        Some((8000, 4000))
    } else if crate::text::chars_equal(&q, &crate::text::chars_of("speed")) {
        Some((2000, 1000))
    } else {
        Some((4000, 2000))
    }
}

/// Whether the Python baseline engine is selected (`python`, `py` or
/// `baseline`, any case); otherwise the Rust engine runs.
pub fn python_engine_selected(engine_var: Option<&str>) -> (r: bool)
    ensures
        r == (engine_var matches Some(v) && (lower_seq(v@) == "python"@ || lower_seq(v@) == "py"@
            || lower_seq(v@) == "baseline"@)),
{
    match engine_var {
        None => false,
        Some(v) => {
            let l = lower_chars(&crate::text::chars_of(v));
            crate::text::chars_equal(&l, &crate::text::chars_of("python"))
                || crate::text::chars_equal(&l, &crate::text::chars_of("py"))
                || crate::text::chars_equal(&l, &crate::text::chars_of("baseline"))
        },
    }
}

/// The options of a `top_rebuild` run, as read from the task (numbers that
/// are floating point arrive already formatted).
pub struct RebuildSettings {
    pub levels: Option<i64>,
    pub source_error_ratio: Option<String>,
    pub l1_max_triangles: Option<u64>,
    pub l2_max_triangles: Option<u64>,
    pub target_error: Option<String>,
    pub max_texture_size: Option<u64>,
    pub max_texture_bytes: Option<u64>,
    pub max_glb_bytes: Option<u64>,
    pub ktx2: bool,
    /// The texture size derived from a legacy `textureScale`, when no
    /// explicit size is set.
    pub scaled_texture_size: Option<u64>,
    pub inject_test_textures: bool,
    pub synthesize_if_empty: bool,
}

pub open spec fn opt_u64_flag(flag: Seq<char>, v: Option<u64>) -> Seq<Seq<char>> {
    match v {
        Some(n) => seq![flag, dec_chars(n as nat)],
        None => seq![],
    }
}

pub open spec fn opt_text_flag(flag: Seq<char>, v: Option<String>) -> Seq<Seq<char>> {
    match v {
        Some(t) => seq![flag, t@],
        None => seq![],
    }
}

pub open spec fn bool_flag(flag: Seq<char>, b: bool) -> Seq<Seq<char>> {
    if b {
        seq![flag]
    } else {
        seq![]
    }
}

/// The `top_rebuild` arguments for the settings, after `-i` and `-o`, in
/// groups.
pub open spec fn rebuild_flag_groups(s: RebuildSettings) -> Seq<Seq<Seq<char>>> {
    seq![
        match s.levels {
            Some(l) => if l > 0 {
                seq!["--levels"@, dec_chars((l as u32) as nat)]
            } else {
                seq![]
            },
            None => seq![],
        },
        opt_text_flag("--source-error-ratio"@, s.source_error_ratio),
        opt_u64_flag("--l1-max-triangles"@, s.l1_max_triangles),
        opt_u64_flag("--l2-max-triangles"@, s.l2_max_triangles),
        opt_text_flag("--target-error"@, s.target_error),
        opt_u64_flag("--max-texture-size"@, s.max_texture_size),
        opt_u64_flag("--max-texture-bytes"@, s.max_texture_bytes),
        opt_u64_flag("--max-glb-bytes"@, s.max_glb_bytes),
        bool_flag("--ktx2"@, s.ktx2),
        opt_u64_flag("--max-texture-size"@, s.scaled_texture_size),
        bool_flag("--inject-test-textures"@, s.inject_test_textures),
        bool_flag("--synthesize-if-empty"@, s.synthesize_if_empty),
    ]
}

/// The groups concatenated.
pub open spec fn flatten(gs: Seq<Seq<Seq<char>>>) -> Seq<Seq<char>>
    decreases gs.len(),
{
    if gs.len() == 0 {
        seq![]
    } else {
        flatten(gs.drop_last()) + gs.last()
    }
}

/// The `top_rebuild` arguments for the settings, after `-i` and `-o`.
pub open spec fn rebuild_flags(s: RebuildSettings) -> Seq<Seq<char>> {
    flatten(rebuild_flag_groups(s))
}

proof fn lemma_flatten_step(gs: Seq<Seq<Seq<char>>>, head: Seq<Seq<char>>, cur: Seq<Seq<char>>, k: int)
    requires
        0 <= k < gs.len(),
        cur == head + flatten(gs.take(k)),
    ensures
        cur + gs[k] == head + flatten(gs.take(k + 1)),
{
    assert(gs.take(k + 1).drop_last() =~= gs.take(k));
    assert(cur + gs[k] =~= head + flatten(gs.take(k + 1)));
}

fn push_u64_flag(cmd: &mut Vec<String>, flag: &str, v: Option<u64>)
    ensures
        strs(final(cmd)@) == strs(old(cmd)@) + opt_u64_flag(flag@, v),
{
    match v {
        Some(n) => {
            push_str(cmd, flag.to_owned());
            push_str(cmd, dec_string(n));
        },
        None => {},
    }
    assert(strs(cmd@) =~= strs(old(cmd)@) + opt_u64_flag(flag@, v));
}

fn push_text_flag(cmd: &mut Vec<String>, flag: &str, v: &Option<String>)
    ensures
        strs(final(cmd)@) == strs(old(cmd)@) + opt_text_flag(flag@, *v),
{
    match v {
        Some(t) => {
            push_str(cmd, flag.to_owned());
            push_str(cmd, t.clone());
        },
        None => {},
    }
    assert(strs(cmd@) =~= strs(old(cmd)@) + opt_text_flag(flag@, *v));
}

fn push_bool_flag(cmd: &mut Vec<String>, flag: &str, b: bool)
    ensures
        strs(final(cmd)@) == strs(old(cmd)@) + bool_flag(flag@, b),
{
    if b {
        push_str(cmd, flag.to_owned());
    }
    assert(strs(cmd@) =~= strs(old(cmd)@) + bool_flag(flag@, b));
}

/// The `top_rebuild` command line: the binary, input and output, then the
/// flags of the settings.
pub fn rebuild_command(bin: &str, input_dir: &str, output_dir: &str, s: &RebuildSettings) -> (r: Vec<String>)
    ensures
        strs(r@) == seq![bin@, "-i"@, input_dir@, "-o"@, output_dir@] + rebuild_flags(*s),
{
    let mut cmd: Vec<String> = Vec::new();
    push_str(&mut cmd, bin.to_owned());
    push_str(&mut cmd, "-i".to_owned());
    push_str(&mut cmd, input_dir.to_owned());
    push_str(&mut cmd, "-o".to_owned());
    push_str(&mut cmd, output_dir.to_owned());
    let ghost head = strs(cmd@);
    let ghost gs = rebuild_flag_groups(*s);
    assert(strs(cmd@) =~= head + flatten(gs.take(0)));
    let ghost before = strs(cmd@);
    match s.levels {
        Some(l) => {
            if l > 0 {
                push_str(&mut cmd, "--levels".to_owned());
                #[verifier::truncate]
                let lv = l as u32;
                push_str(&mut cmd, dec_string(lv as u64));
            }
        },
        None => {},
    }
    proof {
        assert(strs(cmd@) =~= before + gs[0]);
        lemma_flatten_step(gs, head, before, 0);
    }
    let ghost before = strs(cmd@);
    push_text_flag(&mut cmd, "--source-error-ratio", &s.source_error_ratio);
    proof { lemma_flatten_step(gs, head, before, 1); }
    let ghost before = strs(cmd@);
    push_u64_flag(&mut cmd, "--l1-max-triangles", s.l1_max_triangles);
    proof { lemma_flatten_step(gs, head, before, 2); }
    let ghost before = strs(cmd@);
    push_u64_flag(&mut cmd, "--l2-max-triangles", s.l2_max_triangles);
    proof { lemma_flatten_step(gs, head, before, 3); }
    let ghost before = strs(cmd@);
    push_text_flag(&mut cmd, "--target-error", &s.target_error);
    proof { lemma_flatten_step(gs, head, before, 4); }
    let ghost before = strs(cmd@);
    push_u64_flag(&mut cmd, "--max-texture-size", s.max_texture_size);
    proof { lemma_flatten_step(gs, head, before, 5); }
    let ghost before = strs(cmd@);
    push_u64_flag(&mut cmd, "--max-texture-bytes", s.max_texture_bytes);
    proof { lemma_flatten_step(gs, head, before, 6); }
    let ghost before = strs(cmd@);
    push_u64_flag(&mut cmd, "--max-glb-bytes", s.max_glb_bytes);
    proof { lemma_flatten_step(gs, head, before, 7); }
    let ghost before = strs(cmd@);
    push_bool_flag(&mut cmd, "--ktx2", s.ktx2);
    proof { lemma_flatten_step(gs, head, before, 8); }
    let ghost before = strs(cmd@);
    push_u64_flag(&mut cmd, "--max-texture-size", s.scaled_texture_size);
    proof { lemma_flatten_step(gs, head, before, 9); }
    let ghost before = strs(cmd@);
    push_bool_flag(&mut cmd, "--inject-test-textures", s.inject_test_textures);
    proof { lemma_flatten_step(gs, head, before, 10); }
    let ghost before = strs(cmd@);
    push_bool_flag(&mut cmd, "--synthesize-if-empty", s.synthesize_if_empty);
    proof {
        lemma_flatten_step(gs, head, before, 11);
        assert(gs.take(12) =~= gs);
    }
    cmd
}

/// Before a Rust-engine rebuild: `top_rebuild` must be present.
pub fn rebuild_preflight(bin_is_file: bool, bin_display: &str) -> (r: Result<(), String>)
    ensures
        bin_is_file ==> r is Ok,
        !bin_is_file ==> (r matches Err(e) && e@ == "top_rebuild binary not found: "@ + bin_display@
            + " (set GEOFORGE_TOP_REBUILD or cargo build -p top_rebuild --bin top_rebuild). For Python baseline only: GEOFORGE_REBUILD_ENGINE=python"@),
{
    if bin_is_file {
        Ok(())
    } else {
        Err(concat3(
            "top_rebuild binary not found: ",
            bin_display,
            " (set GEOFORGE_TOP_REBUILD or cargo build -p top_rebuild --bin top_rebuild). For Python baseline only: GEOFORGE_REBUILD_ENGINE=python",
        ))
    }
}

/// The verdict on a finished rebuild run (`tool` names the engine in the
/// exit message): cancellation, then a non-zero exit, then a missing
/// `tileset.json`.
pub fn rebuild_outcome(tool: &str, cancelled: bool, exit_code: i32, tileset_is_file: bool) -> (r: Result<(), String>)
    ensures
        cancelled ==> (r matches Err(e) && e@ == "cancelled"@),
        !cancelled && exit_code != 0 ==> (r matches Err(e) && e@ == tool@ + " exited "@ + int_chars(
            exit_code as int,
        )),
        !cancelled && exit_code == 0 && !tileset_is_file ==> (r matches Err(e) && e@
            == "rebuild output missing tileset.json"@),
        !cancelled && exit_code == 0 && tileset_is_file ==> r is Ok,
{
    if cancelled {
        return Err("cancelled".to_owned());
    }
    if exit_code != 0 {
        return Err(concat3(tool, " exited ", int_string(exit_code as i64).as_str()));
    }
    if !tileset_is_file {
        return Err("rebuild output missing tileset.json".to_owned());
    }
    Ok(())
}

/// The levels the Python baseline builds: one for an absent or small
/// setting, two otherwise.
pub fn python_rebuild_levels(levels: Option<i64>) -> (r: u32)
    ensures
        r == match levels {
            Some(l) => if l <= 1 {
                1u32
            } else {
                2u32
            },
            None => 1u32,
        },
{
    match levels {
        Some(l) => if l <= 1 {
            1
        } else {
            2
        },
        None => 1,
    }
}

} // verus!
