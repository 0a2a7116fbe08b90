use geoforge::capabilities::{model_capability, ModelCapabilityProbe};
use geoforge::convert::{resolve_thread_config, retry_single_thread, ThreadSetting};
use geoforge::protocol::{
    validate_model_options, validate_schema_version, GeoReferenceCheck, MissingTexturePolicy,
    ModelAxes, ModelFormat, ModelImportOptions, ModelUnit,
};
use geoforge::texture_ktx2::{build_glb, glb_chunks};
use geoforge::util::CommandResult;
use geoforge::validation::{check_frontier_coverage, check_subtree_retention, content_uris, TileNode};

fn result(exit_code: i32, stderr_tail: &str) -> CommandResult {
    CommandResult {
        exit_code,
        stderr_tail: stderr_tail.into(),
        peak_memory_bytes: None,
    }
}

/// The content URIs of a tileset's tile tree, in pre-order.
/// The tile tree a tileset document's `root` describes.
fn tile_of(tile: &serde_json::Value) -> TileNode {
    TileNode {
        content_uri: tile
            .get("content")
            .and_then(|c| c.get("uri"))
            .and_then(|u| u.as_str())
            .map(|u| u.to_string()),
        children: tile
            .get("children")
            .and_then(|c| c.as_array())
            .map(|a| a.iter().map(tile_of).collect())
            .unwrap_or_default(),
    }
}

fn tileset_tree(text: &str) -> TileNode {
    let v: serde_json::Value = serde_json::from_str(text).unwrap();
    tile_of(&v["root"])
}

/// The thread setting that `{"convert": {"threads": <value>}}` gives.
fn threads_setting(options: &str) -> ThreadSetting {
    let v: serde_json::Value = serde_json::from_str(options).unwrap();
    match v.get("convert").and_then(|c| c.get("threads")) {
        Some(t) => match t.as_u64() {
            Some(n) => ThreadSetting::Explicit(n),
            None => ThreadSetting::InvalidType(t.to_string()),
        },
        None => ThreadSetting::Omitted { env: None },
    }
}

/// The model probe that a `--capabilities-json` document gives.
fn probe_of(doc: &str) -> ModelCapabilityProbe {
    let v: serde_json::Value = serde_json::from_str(doc).unwrap();
    ModelCapabilityProbe {
        formats: v
            .get("formats")
            .and_then(|f| f.as_array())
            .map(|a| a.iter().map(|x| x.as_str().map(|s| s.to_string())).collect()),
        model_config_version: v.get("modelConfigVersion").and_then(|x| x.as_u64()),
    }
}

#[test]
fn accepts_v1_fbx_and_obj_model_capability() {
    let doc = r#"{
        "formats": ["fbx", "obj"],
        "modelConfigVersion": 1,
        "georeferenceModes": ["local", "anchor"],
        "projectedGeoreference": false
    }"#;
    let (ready, reason) = model_capability(&probe_of(doc));
    assert_eq!(ready, true);
    assert_eq!(reason, None);
}

#[test]
fn rejects_legacy_converter_capability() {
    let (ready, reason) = model_capability(&probe_of(r#"{ "formats": ["fbx"] }"#));
    assert_eq!(ready, false);
    assert!(reason.unwrap_or_default().contains("modelConfigVersion"));
}

#[test]
fn retries_missing_tile_json() {
    assert!(retry_single_thread(&result(
        1,
        "ERROR: converter returned no JSON for tile: D:\\data\\Tile.osgb",
    )));
}

#[test]
fn retries_known_windows_native_crashes() {
    assert!(retry_single_thread(&result(-1_073_740_940, "")));
    assert!(retry_single_thread(&result(-1_073_741_819, "")));
}

#[test]
fn does_not_retry_unrelated_converter_errors() {
    assert!(!retry_single_thread(&result(1, "failed to read metadata.xml")));
}

#[test]
fn thread_config_explicit_1() {
    let config = resolve_thread_config(&threads_setting(r#"{"convert": {"threads": 1}}"#));
    assert_eq!(config.to_override(), Some(1));
    assert_eq!(config.requested, "1 (explicit)");
}

#[test]
fn thread_config_explicit_2() {
    let config = resolve_thread_config(&threads_setting(r#"{"convert": {"threads": 2}}"#));
    assert_eq!(config.to_override(), Some(2));
    assert_eq!(config.requested, "2 (explicit)");
}

#[test]
fn thread_config_explicit_4() {
    let config = resolve_thread_config(&threads_setting(r#"{"convert": {"threads": 4}}"#));
    assert_eq!(config.to_override(), Some(4));
    assert_eq!(config.requested, "4 (explicit)");
}

#[test]
fn thread_config_explicit_auto() {
    let config = resolve_thread_config(&threads_setting(r#"{"convert": {"threads": 0}}"#));
    assert_eq!(config.to_override(), Some(0));
    assert_eq!(config.requested, "0 (explicit auto)");
}

#[test]
fn thread_config_invalid_high() {
    let config = resolve_thread_config(&threads_setting(r#"{"convert": {"threads": 32}}"#));
    assert_eq!(config.to_override(), None);
    assert!(config.requested.contains("invalid"));
}

#[test]
fn thread_config_invalid_type() {
    let config = resolve_thread_config(&threads_setting(r#"{"convert": {"threads": "auto"}}"#));
    assert_eq!(config.to_override(), None);
    assert!(config.requested.contains("invalid type"));
}

#[test]
fn build_parse_glb_roundtrip_empty_images() {
    let gltf = serde_json::to_vec(&serde_json::from_str::<serde_json::Value>(
        r#"{
            "asset": {"version": "2.0"},
            "buffers": [{"byteLength": 4}],
            "bufferViews": [{"buffer": 0, "byteOffset": 0, "byteLength": 4}],
            "images": []
        }"#,
    )
    .unwrap())
    .unwrap();
    let bin = vec![1u8, 2, 3, 4];
    let glb = build_glb(&gltf, &bin);
    let chunks = glb_chunks(&glb).unwrap();
    let g2: serde_json::Value = serde_json::from_slice(&chunks.json[0]).unwrap();
    assert_eq!(chunks.bin, bin);
    assert_eq!(g2["asset"]["version"], "2.0");
}

const FRONTIER_COMPLETE: &str = r#"{
    "asset": {"version": "1.0"},
    "geometricError": 100,
    "root": {
        "geometricError": 100,
        "boundingVolume": {"box": [0,0,0,1,0,0,0,1,0,0,0,1]},
        "children": [
            {
                "geometricError": 50,
                "boundingVolume": {"box": [0,0,0,1,0,0,0,1,0,0,0,1]},
                "content": {"uri": "Tile_+000_+000/tileset.json"}
            },
            {
                "geometricError": 50,
                "boundingVolume": {"box": [0,0,0,1,0,0,0,1,0,0,0,1]},
                "content": {"uri": "Tile_+001_+000/tileset.json"}
            },
            {
                "geometricError": 50,
                "boundingVolume": {"box": [0,0,0,1,0,0,0,1,0,0,0,1]},
                "content": {"uri": "Tile_+000_+001/tileset.json"}
            },
            {
                "geometricError": 50,
                "boundingVolume": {"box": [0,0,0,1,0,0,0,1,0,0,0,1]},
                "content": {"uri": "Tile_+001_+001/tileset.json"}
            }
        ]
    }
}"#;

const FRONTIER_MISSING: &str = r#"{
    "asset": {"version": "1.0"},
    "geometricError": 100,
    "root": {
        "geometricError": 100,
        "boundingVolume": {"box": [0,0,0,1,0,0,0,1,0,0,0,1]},
        "children": [
            {
                "geometricError": 50,
                "boundingVolume": {"box": [0,0,0,1,0,0,0,1,0,0,0,1]},
                "content": {"uri": "Tile_+000_+000/tileset.json"}
            },
            {
                "geometricError": 50,
                "boundingVolume": {"box": [0,0,0,1,0,0,0,1,0,0,0,1]},
                "content": {"uri": "Tile_+001_+000/tileset.json"}
            },
            {
                "geometricError": 50,
                "boundingVolume": {"box": [0,0,0,1,0,0,0,1,0,0,0,1]},
                "content": {"uri": "Tile_+000_+001/tileset.json"}
            }
        ]
    }
}"#;

const EMPTY_TREE: &str = r#"{
    "asset": {"version": "1.0"},
    "geometricError": 100,
    "root": {
        "geometricError": 100,
        "boundingVolume": {"box": [0,0,0,1,0,0,0,1,0,0,0,1]},
        "children": []
    }
}"#;

const FOUR_BLOCKS: &str = r#"{
    "asset": {"version": "1.0"},
    "geometricError": 100,
    "root": {
        "geometricError": 100,
        "boundingVolume": {"box": [0,0,0,1,0,0,0,1,0,0,0,1]},
        "children": [
            { "content": { "uri": "Tile_+000_+000/tileset.json" } },
            { "content": { "uri": "Tile_+001_+000/tileset.json" } },
            { "content": { "uri": "Tile_+000_+001/tileset.json" } },
            { "content": { "uri": "Tile_+001_+001/tileset.json" } }
        ]
    }
}"#;

const THREE_BLOCKS: &str = r#"{
    "asset": {"version": "1.0"},
    "geometricError": 100,
    "root": {
        "geometricError": 100,
        "boundingVolume": {"box": [0,0,0,1,0,0,0,1,0,0,0,1]},
        "children": [
            { "content": { "uri": "Tile_+000_+000/tileset.json" } },
            { "content": { "uri": "Tile_+001_+000/tileset.json" } },
            { "content": { "uri": "Tile_+000_+001/tileset.json" } }
        ]
    }
}"#;

#[test]
fn test_frontier_2x2_complete() {
    let result = check_frontier_coverage(&tileset_tree(FRONTIER_COMPLETE));

    assert!(result.checked);
    assert!(result.passed);
    assert_eq!(result.grid_size, "2x2");
    assert_eq!(result.blocks_expected, 4);
    assert_eq!(result.blocks_found, 4);
    assert_eq!(result.gaps.len(), 0);
}

#[test]
fn test_frontier_2x2_missing_block() {
    let result = check_frontier_coverage(&tileset_tree(FRONTIER_MISSING));

    assert!(result.checked);
    assert!(!result.passed);
    assert_eq!(result.blocks_expected, 4);
    assert_eq!(result.blocks_found, 3);
    assert_eq!(result.gaps.len(), 1);
    assert!(result.gaps.contains(&(1, 1)));
}

#[test]
fn test_frontier_empty() {
    let result = check_frontier_coverage(&tileset_tree(EMPTY_TREE));

    assert!(result.checked);
    assert!(!result.passed);
    assert_eq!(result.blocks_found, 0);
    assert_eq!(result.gaps.len(), 4);
}

#[test]
fn test_subtree_all_retained() {
    let result = check_subtree_retention(&tileset_tree(FOUR_BLOCKS), &tileset_tree(FOUR_BLOCKS));

    assert!(result.checked);
    assert!(result.passed);
    assert_eq!(result.blocks_expected, 4);
    assert_eq!(result.blocks_retained, 4);
    assert_eq!(result.blocks_lost.len(), 0);
}

#[test]
fn test_subtree_one_lost() {
    let result = check_subtree_retention(&tileset_tree(FOUR_BLOCKS), &tileset_tree(THREE_BLOCKS));

    assert!(result.checked);
    assert!(!result.passed);
    assert_eq!(result.blocks_expected, 4);
    assert_eq!(result.blocks_retained, 3);
    assert_eq!(result.blocks_lost.len(), 1);
    assert!(result.blocks_lost.contains(&"Tile_+001_+001".to_string()));
}

#[test]
fn test_subtree_empty_input() {
    let result = check_subtree_retention(&tileset_tree(EMPTY_TREE), &tileset_tree(EMPTY_TREE));

    assert!(result.checked);
    assert!(result.passed);
    assert_eq!(result.blocks_expected, 0);
    assert_eq!(result.blocks_retained, 0);
    assert_eq!(result.blocks_lost.len(), 0);
}

#[test]
fn rejects_unknown_schema() {
    assert!(validate_schema_version(Some(99)).is_err());
}

fn model(format: ModelFormat, unit: ModelUnit, axes: ModelAxes) -> ModelImportOptions {
    ModelImportOptions {
        format,
        unit,
        axes,
        missing_texture_policy: MissingTexturePolicy::Warn,
        texture_roots: Vec::new(),
    }
}

#[test]
fn parses_anchor_model_options_at_the_geographic_origin() {
    let (longitude, latitude, height) = (0.0f64, 0.0f64, 0.0f64);
    let geo = GeoReferenceCheck::Anchor {
        all_finite: longitude.is_finite() && latitude.is_finite() && height.is_finite(),
        longitude_in_range: (-180.0..=180.0).contains(&longitude),
        latitude_in_range: (-90.0..=90.0).contains(&latitude),
    };
    let result = validate_model_options(
        &model(ModelFormat::Fbx, ModelUnit::FromMetadata, ModelAxes::FromMetadata),
        &geo,
    );
    assert!(result.is_ok(), "{result:?}");
}

#[test]
fn obj_requires_explicit_unit_and_axes() {
    let error = validate_model_options(
        &model(ModelFormat::Obj, ModelUnit::FromMetadata, ModelAxes::FromMetadata),
        &GeoReferenceCheck::Local,
    )
    .expect_err("OBJ metadata is insufficient");
    assert!(error.contains("model.unit"));
}

#[test]
fn content_uris_list_each_tile_before_its_children() {
    let tree = tileset_tree(
        r#"{"root": {"content": {"uri": "a"}, "children": [
            {"content": {"uri": "b"}, "children": [{"content": {"uri": "c"}}]},
            {"children": [{"content": {"uri": "d"}}]}
        ]}}"#,
    );
    assert_eq!(content_uris(&tree), vec!["a", "b", "c", "d"]);
    let empty = tileset_tree(r#"{"root": {}}"#);
    assert!(content_uris(&empty).is_empty());
}
