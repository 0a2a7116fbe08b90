//! CRS helpers: the EPSG code of a CRS string, the unit hint shown to the
//! user, the effective CRS of a task and the message that blocks a
//! geographic export without one.

use crate::numbers::{parse_i64, parse_in_range};
use crate::patterns::{capture_group, matches_pattern, pattern_group, pattern_matches, ENU_PATTERN, EPSG_PATTERN};
use crate::text::{contains, int_chars, int_string, str_contains, trim, trim_str};
use vstd::prelude::*;

verus! {

/// Unicode upper-casing as `str::to_uppercase` performs it.
pub uninterp spec fn unicode_upper(s: Seq<char>) -> Seq<char>;

/// `str::to_uppercase`: full Unicode upper-casing; a function of the input
/// alone. Nothing further about the mapping is stated.
#[verifier::external_body]
fn to_uppercase(s: &str) -> (r: String)
    ensures
        r@ == unicode_upper(s@),
{
    s.to_uppercase()
}

/// The EPSG code a CRS string names: the digits of `EPSG:<code>` parsed as
/// an `i64`.
pub open spec fn epsg_code_of(s: Seq<char>) -> Option<int> {
    match pattern_group(EPSG_PATTERN@, s, 1) {
        Some(g) => parse_in_range(g, i64::MIN as int, i64::MAX as int),
        None => None,
    }
}

/// The EPSG code of `srs`, when it is an `EPSG:<code>` string whose code
/// fits an `i64`.
pub fn parse_epsg_code(srs: Option<&str>) -> (r: Option<i64>)
    ensures
        match srs {
            None => r is None,
            Some(s) => match (r, epsg_code_of(s@)) {
                (Some(v), Some(c)) => v as int == c,
                (None, None) => true,
                _ => false,
            },
        },
{
    let s = match srs {
        Some(s) => s,
        None => return None,
    };
    match capture_group(EPSG_PATTERN, s, 1) {
        Some(g) => parse_i64(g.as_str()),
        None => None,
    }
}

/// EPSG codes of geographic (degree-based) CRSs.
pub open spec fn is_geographic_epsg(code: int) -> bool {
    code == 4326 || code == 4490 || code == 4610 || code == 4214
}

/// The unit hint for a CRS string.
pub open spec fn unit_hint_text(srs: Option<Seq<char>>) -> Seq<char> {
    match srs {
        None => "未知单位（缺 SRS）"@,
        Some(s) => if pattern_matches(ENU_PATTERN@, s) {
            "ENU 局部坐标：米（东/北/天）；地理原点为经纬度（度）"@
        } else if pattern_matches(EPSG_PATTERN@, s) {
            let code = match epsg_code_of(s) {
                Some(c) => c,
                None => 0,
            };
            if is_geographic_epsg(code) {
                "EPSG:"@ + int_chars(code) + " 地理坐标：度（注意轴序）；高程另计"@
            } else {
                "EPSG:"@ + int_chars(code) + " 多为投影米制；请确认分带/假东移，高程另计"@
            }
        } else if contains(unicode_upper(s), "GEOGCS"@) || contains(unicode_upper(s), "PROJCS"@) {
            "WKT：按定义单位；请自行确认轴序与高程基准"@
        } else {
            "自定义 CRS：请确认单位与轴序；高程基准独立"@
        },
    }
}

/// An `EPSG:<code>` string (that is not an ENU one) is hinted as
/// geographic, in degrees, exactly when its code is one of 4326 (WGS 84),
/// 4490 (CGCS2000), 4610 (Xian 1980) or 4214 (Beijing 1954); any other
/// code is hinted as projected, in metres.
pub proof fn lemma_epsg_unit_hint(s: Seq<char>, c: int)
    requires
        !pattern_matches(ENU_PATTERN@, s),
        pattern_matches(EPSG_PATTERN@, s),
        epsg_code_of(s) == Some(c),
    ensures
        is_geographic_epsg(c) <==> set![4326int, 4490int, 4610int, 4214int].contains(c),
        unit_hint_text(Some(s)) == "EPSG:"@ + int_chars(c) + if c == 4326 || c == 4490 || c == 4610
            || c == 4214 {
            " 地理坐标：度（注意轴序）；高程另计"@
        } else {
            " 多为投影米制；请确认分带/假东移，高程另计"@
        },
{
}

/// A short hint on the units and axes of a CRS string.
pub fn unit_hint(srs: Option<&str>) -> (r: String)
    ensures
        r@ == unit_hint_text(
            match srs {
                Some(s) => Some(s@),
                None => None,
            },
        ),
{
    let s = match srs {
        None => return "未知单位（缺 SRS）".to_owned(),
        Some(s) => s,
    };
    if matches_pattern(ENU_PATTERN, s) {
        return "ENU 局部坐标：米（东/北/天）；地理原点为经纬度（度）".to_owned();
    }
    if matches_pattern(EPSG_PATTERN, s) {
        let code: i64 = match parse_epsg_code(Some(s)) {
            Some(c) => c,
            None => 0,
        };
        let code_s = int_string(code);
        if code == 4326 || code == 4490 || code == 4610 || code == 4214 {
            return crate::text::concat3("EPSG:", code_s.as_str(), " 地理坐标：度（注意轴序）；高程另计");
        } else {
            return crate::text::concat3(
                "EPSG:",
                code_s.as_str(),
                " 多为投影米制；请确认分带/假东移，高程另计",
            );
        }
    }
    let upper = to_uppercase(s);
    if str_contains(upper.as_str(), "GEOGCS") || str_contains(upper.as_str(), "PROJCS") {
        return "WKT：按定义单位；请自行确认轴序与高程基准".to_owned();
    }
    "自定义 CRS：请确认单位与轴序；高程基准独立".to_owned()
}

/// `s` trimmed, when something is left.
pub open spec fn trimmed_nonempty(s: Option<Seq<char>>) -> Option<Seq<char>> {
    match s {
        Some(t) => if trim(t).len() > 0 {
            Some(trim(t))
        } else {
            None
        },
        None => None,
    }
}

fn trim_nonempty(s: Option<&str>) -> (r: Option<String>)
    ensures
        match (r, trimmed_nonempty(
            match s {
                Some(t) => Some(t@),
                None => None,
            },
        )) {
            (Some(a), Some(b)) => a@ == b,
            (None, None) => true,
            _ => false,
        },
{
    match s {
        Some(t) => {
            let v = trim_str(t);
            if v.as_str().is_empty() {
                None
            } else {
                Some(v)
            }
        },
        None => None,
    }
}

/// The CRS a task uses: the user's override (trimmed, when not blank),
/// else the scanned SRS (trimmed, when not blank).
pub fn effective_crs(crs_override: Option<&str>, scan_srs: Option<&str>) -> (r: Option<String>)
    ensures
        ({
            let o = trimmed_nonempty(
                match crs_override {
                    Some(t) => Some(t@),
                    None => None,
                },
            );
            let s = trimmed_nonempty(
                match scan_srs {
                    Some(t) => Some(t@),
                    None => None,
                },
            );
            let want = if o is Some {
                o
            } else {
                s
            };
            match (r, want) {
                (Some(a), Some(b)) => a@ == b,
                (None, None) => true,
                _ => false,
            }
        }),
{
    match trim_nonempty(crs_override) {
        Some(o) => Some(o),
        None => trim_nonempty(scan_srs),
    }
}

/// The message that blocks a geographic export without a CRS.
pub open spec fn missing_crs_text() -> Seq<char> {
    "缺参数阻止地理导出：扫描未得到 SRS，且未填写 CRS 覆盖。本地预览/非地理转换可关闭「地理导出」；地理定位请在 metadata.xml 提供 SRS（ENU:/EPSG:/WKT）或在转换页填写 CRS 覆盖。"@
}

/// A geographic export needs a CRS: the blocking message when one is
/// requested and none is known, else nothing.
pub fn missing_crs_message(geographic_export: bool, has_crs: bool) -> (r: Option<String>)
    ensures
        (r is Some) == (geographic_export && !has_crs),
        r matches Some(m) ==> m@ == missing_crs_text(),
{
    if !geographic_export {
        return None;
    }
    if has_crs {
        return None;
    }
    Some(
        "缺参数阻止地理导出：扫描未得到 SRS，且未填写 CRS 覆盖。本地预览/非地理转换可关闭「地理导出」；地理定位请在 metadata.xml 提供 SRS（ENU:/EPSG:/WKT）或在转换页填写 CRS 覆盖。".to_owned(),
    )
}

} // verus!
