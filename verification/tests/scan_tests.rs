use geoforge::rebuild::{precheck_rebuild_input, PrecheckOutcome, RootEntry};
use geoforge::scan::{parse_metadata_text, scan_report, ScanFacts, TileDirFacts};

const GOOD_METADATA: &str = "<Metadata><SRS>ENU:120,30</SRS><SRSOrigin>0,0,0</SRSOrigin></Metadata>";

fn tile(name: &str, entry_exists: bool, sizes: &[u64]) -> TileDirFacts {
    TileDirFacts {
        name: name.to_string(),
        path_display: format!("/ds/Data/{name}"),
        entry_display: format!("/ds/Data/{name}/{name}.osgb"),
        entry_exists,
        listing_error: None,
        entry_errors: Vec::new(),
        osgb_count: sizes.len() as u64,
        osgb_sizes: sizes.to_vec(),
    }
}

fn facts(metadata: &str, children: Vec<TileDirFacts>) -> ScanFacts {
    ScanFacts {
        root_display: "/ds".to_string(),
        normalized_from_data: false,
        has_metadata: true,
        metadata: parse_metadata_text(metadata),
        has_data_dir: true,
        data_dir_display: "/ds/Data".to_string(),
        data_dir_error: None,
        data_entry_errors: Vec::new(),
        children,
    }
}

fn entry(name: &str, is_dir: bool, has_tileset: bool) -> RootEntry {
    RootEntry::Entry { name: name.to_string(), is_dir, has_tileset }
}

#[test]
fn reports_missing_tile_entry_and_keeps_nonstandard_warning() {
    let r = scan_report(&facts(GOOD_METADATA, vec![tile("Other", false, &[]), tile("Tile_0_0", false, &[])]));
    assert!(!r.valid);
    assert!(r.errors.iter().any(|e| e.contains("Missing entry OSGB")));
    assert!(r.warnings.iter().any(|w| w.contains("Non-standard")));
}

#[test]
fn accepts_utf8_dataset_paths_when_tile_layout_matches() {
    let mut f = facts(GOOD_METADATA, vec![tile("Tile_1_2", true, &[7])]);
    f.root_display = "/tmp/数据集".to_string();
    let r = scan_report(&f);
    assert!(r.valid, "{:?}", r.errors);
    assert_eq!(r.tiles.len(), 1);
    assert_eq!(r.total_bytes, 7);
}

#[test]
fn includes_converter_compatible_nonstandard_tile_for_convert_only() {
    let r = scan_report(&facts(GOOD_METADATA, vec![tile("Tile_甲_乙", true, &[7])]));
    assert!(r.valid, "{:?}", r.errors);
    assert_eq!(r.tiles.len(), 1);
    assert!(r.warnings.iter().any(|w| w.contains("accepted for convert-only")));
    assert!(!r.tiles[0].standard_layout);
}

#[test]
fn rejects_malformed_metadata_xml_before_conversion() {
    let bad = "<Metadata><SRS>ENU:120,30</SRS><SRSOrigin>0,0,0</Metadata>";
    let r = scan_report(&facts(bad, vec![tile("Tile_1_2", true, &[7])]));
    assert!(!r.valid);
    assert!(r.errors.iter().any(|e| e.contains("XML parse error")));
}

#[test]
fn metadata_fields_and_head() {
    let m = parse_metadata_text(GOOD_METADATA);
    assert_eq!(m.srs.as_deref(), Some("ENU:120,30"));
    assert_eq!(m.srs_origin.as_deref(), Some("0,0,0"));
    assert_eq!(m.parse_error, None);
    let long = format!("<M>{}</M>", "x".repeat(2000));
    assert_eq!(parse_metadata_text(&long).raw_head.chars().count(), 1500);
}

#[test]
fn scan_totals_and_unit_hint() {
    let r = scan_report(&facts(GOOD_METADATA, vec![tile("Tile_0_0", true, &[1, 2]), tile("Tile_0_1", true, &[4])]));
    assert!(r.valid);
    assert_eq!(r.osgb_file_count, 3);
    assert_eq!(r.total_bytes, 7);
    assert_eq!(r.unit_hint, "ENU 局部坐标：米（东/北/天）；地理原点为经纬度（度）");
}

#[test]
fn rejects_nonstandard_tile_layout_instead_of_deferring() {
    let error = precheck_rebuild_input(
        true,
        "/r/tileset.json",
        "/r",
        Ok(vec![entry("Tile_甲_乙", true, true)]),
    )
    .expect_err("layout must fail");
    assert!(error.contains("non-standard"), "{error}");
}

#[test]
fn rejects_tile_coordinate_outside_i32() {
    let error = precheck_rebuild_input(
        true,
        "/r/tileset.json",
        "/r",
        Ok(vec![entry("Tile_2147483648_0", true, true)]),
    )
    .expect_err("range must fail");
    assert!(error.contains("i32 range"), "{error}");
}

#[test]
fn precheck_outcomes() {
    let grid = precheck_rebuild_input(
        true,
        "/r/tileset.json",
        "/r",
        Ok(vec![
            entry("Tile_0_0", true, true),
            entry("Tile_1_0", true, true),
            entry("tileset.json", false, false),
            entry("Tile_0_1", true, true),
            entry("Tile_1_1", true, false),
        ]),
    );
    assert_eq!(grid, Ok(PrecheckOutcome::Grid { width: 2, height: 2, tiles: 4 }));
    let sparse = precheck_rebuild_input(
        true,
        "/r/tileset.json",
        "/r",
        Ok(vec![entry("Tile_0_0", true, true), entry("Tile_2_0", true, true)]),
    );
    assert!(sparse.unwrap_err().contains("稀疏或不连续"));
    let deferred = precheck_rebuild_input(true, "/r/tileset.json", "/r", Ok(vec![entry("misc", true, false)]));
    assert_eq!(deferred, Ok(PrecheckOutcome::Deferred));
    let missing = precheck_rebuild_input(false, "/r/tileset.json", "/r", Ok(vec![]));
    assert_eq!(missing.unwrap_err(), "rebuild precheck: tileset.json missing at /r/tileset.json");
}
