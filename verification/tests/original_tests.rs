use geoforge::commit::Checkpoint;
use geoforge::desktop::AppSettings;
use geoforge::model::mtl_texture_reference;
use geoforge::path_policy::validate_task_id;
use geoforge::pipeline::error_code_for_message;
use geoforge::process_manager::{ProtocolLine, MAX_DIAGNOSTIC_DISPLAY_BYTES, MAX_PROTOCOL_LINE_BYTES};
use geoforge::task_store::truncate_utf8_tail;
use geoforge::texture_ktx2::{align4, pad4};
use geoforge::util::{bin_names, emit_bounded_fragment, BoundedLines, MAX_DISPLAY_LINE_BYTES};
use geoforge::validation::parse_tile_coord;
use geoforge::validator::{ValidationCode, ValidationIssue, ValidationReport};

/// Feed `input` to a line splitter in reads of at most 8 KiB, as a
/// buffered reader hands it out, and collect (length, cut) of each piece.
fn split_stream(input: &[u8], max: usize, split_lines: bool, raw: &mut Vec<u8>) -> Vec<(usize, bool)> {
    let mut lines = BoundedLines::new(max, split_lines);
    let mut out = Vec::new();
    for chunk in input.chunks(8192) {
        raw.extend_from_slice(chunk);
        for f in lines.feed(chunk) {
            out.push((f.bytes.len(), f.truncated));
        }
    }
    if let Some(rest) = lines.finish() {
        if split_lines {
            for f in emit_bounded_fragment(rest, max) {
                out.push((f.bytes.len(), f.truncated));
            }
        } else {
            out.push((rest.len(), false));
        }
    }
    out
}

#[test]
fn raw_stream_preserves_bytes_while_bounding_display_fragments() {
    let mut input = vec![b'x'; MAX_DIAGNOSTIC_DISPLAY_BYTES * 2 + 9];
    input.extend_from_slice(b"\nlast\n");
    let mut raw = Vec::new();
    let fragments = split_stream(&input, MAX_DIAGNOSTIC_DISPLAY_BYTES, true, &mut raw);

    assert_eq!(raw, input);
    assert!(fragments
        .iter()
        .all(|(length, _)| *length <= MAX_DIAGNOSTIC_DISPLAY_BYTES));
    assert!(fragments.iter().any(|(_, truncated)| *truncated));
}

#[test]
fn protocol_reader_preserves_raw_bytes_while_bounding_one_line() {
    let mut input = vec![b'{'; MAX_PROTOCOL_LINE_BYTES + 17];
    input.push(b'\n');
    let mut raw = Vec::new();
    let mut line = ProtocolLine::new();
    let mut pos = 0;
    loop {
        let end = (pos + 8192).min(input.len());
        let chunk = &input[pos..end];
        if chunk.is_empty() {
            break;
        }
        let (consume, ended) = line.step(chunk);
        raw.extend_from_slice(&chunk[..consume]);
        pos += consume;
        if ended {
            break;
        }
    }
    let (display, truncated) = line.finish().expect("line exists");
    assert_eq!(raw, input);
    assert_eq!(display.len(), MAX_PROTOCOL_LINE_BYTES);
    assert!(truncated);
}

#[test]
fn default_settings_are_keep_and_1_worker() {
    let defaults = AppSettings::default();
    assert_eq!(defaults.default_texture_compress, false);
    assert_eq!(defaults.default_convert_threads, 1);
}

#[test]
fn tail_truncation_keeps_valid_utf8() {
    let value = "日志🙂".repeat(100);
    let tail = truncate_utf8_tail(&value, 17);

    assert!(tail.len() <= 17);
    assert!(std::str::from_utf8(tail.as_bytes()).is_ok());
    assert!(value.ends_with(&tail));
}

#[test]
fn short_values_are_unchanged() {
    assert_eq!(truncate_utf8_tail("abc", 10), "abc");
}

#[test]
fn invalid_task_id() {
    assert!(validate_task_id("../x").is_err());
    assert!(validate_task_id("a/b").is_err());
    assert!(validate_task_id("task-ok").is_ok());
}

#[test]
fn classifies_path_and_converter_failures() {
    assert_eq!(
        error_code_for_message("output already exists: C:/out"),
        "PATH_OUTPUT_EXISTS"
    );
    assert_eq!(
        error_code_for_message("D:/out: 拒绝访问。 (os error 5)"),
        "PATH_OUTPUT_NOT_WRITABLE"
    );
    assert_eq!(
        error_code_for_message("convert exited 1: converter stderr"),
        "CONVERTER_EXIT_NONZERO"
    );
    assert_eq!(
        error_code_for_message("convert exited 1: metadata.xml could not be read by converter"),
        "CONVERTER_EXIT_NONZERO"
    );
}

#[test]
fn keeps_unknown_failures_in_stable_bucket() {
    assert_eq!(
        error_code_for_message("unexpected native failure"),
        "TASK_FAILED"
    );
}

#[test]
fn classifies_model_configuration_and_georeference_errors() {
    assert_eq!(
        error_code_for_message("OBJ requires an explicit model.unit; OBJ does not reliably declare units"),
        "MODEL_INPUT_INVALID"
    );
    assert_eq!(
        error_code_for_message("invalid convert-model options: missing field `model`"),
        "MODEL_CONFIG_INVALID"
    );
    assert_eq!(
        error_code_for_message("projected model georeference requires a converter with model-config support"),
        "MODEL_GEOREFERENCE_UNSUPPORTED"
    );
}

#[test]
fn checkpoint_roundtrip_all_stages() {
    let stages = [
        Checkpoint::Prepared,
        Checkpoint::Converting,
        Checkpoint::Converted,
        Checkpoint::Rebuilding,
        Checkpoint::Rebuilt,
        Checkpoint::Texturing,
        Checkpoint::Textured,
        Checkpoint::Validating,
        Checkpoint::Validated,
        Checkpoint::Committing,
        Checkpoint::Committed,
    ];

    for stage in &stages {
        let s = stage.as_str();
        let parsed = Checkpoint::from_str(s).expect("parse checkpoint");
        assert_eq!(*stage, parsed, "roundtrip failed for {:?}", stage);
    }
}

#[test]
fn parses_mtl_map_options_and_filenames_with_spaces() {
    assert_eq!(
        mtl_texture_reference("map_Kd -s 1 1 1 \"texture set/roof.png\""),
        Some("texture set/roof.png".into())
    );
}

#[test]
fn pad_and_align() {
    assert_eq!(pad4(0), 0);
    assert_eq!(pad4(1), 3);
    let mut v = vec![1u8, 2, 3];
    align4(&mut v);
    assert_eq!(v.len() % 4, 0);
}

#[test]
fn bin_names_include_exe_suffix() {
    let names = bin_names("_3dtile");
    assert_eq!(names[0], "_3dtile");
    assert_eq!(names[1], "_3dtile.exe");
}

#[test]
fn bounded_line_reader_splits_unterminated_output() {
    let input = vec![b'x'; MAX_DISPLAY_LINE_BYTES * 2 + 17];
    let mut raw = Vec::new();
    let chunks = split_stream(&input, MAX_DISPLAY_LINE_BYTES, false, &mut raw);
    assert_eq!(chunks.len(), 3);
    assert!(chunks
        .iter()
        .all(|(size, _)| *size <= MAX_DISPLAY_LINE_BYTES));
    assert!(chunks.iter().take(2).all(|(_, truncated)| *truncated));
}

#[test]
fn test_parse_tile_coord() {
    assert_eq!(parse_tile_coord("Tile_+000_+000/tileset.json"), Some((0, 0)));
    assert_eq!(parse_tile_coord("Tile_+001_+000/tileset.json"), Some((1, 0)));
    assert_eq!(parse_tile_coord("Tile_+000_+001/tileset.json"), Some((0, 1)));
    assert_eq!(parse_tile_coord("Tile_+001_+001/tileset.json"), Some((1, 1)));
    assert_eq!(parse_tile_coord("Tile_+010_+020"), Some((10, 20)));
    assert_eq!(parse_tile_coord("./Data/Tile_+000_+000/tileset.json"), Some((0, 0)));
    assert_eq!(parse_tile_coord("./Data/Tile_+001_+001/tileset.json"), Some((1, 1)));
    assert_eq!(parse_tile_coord("invalid"), None);
    assert_eq!(parse_tile_coord("Tile_+000"), None);
}

#[test]
fn validation_code_as_str() {
    assert_eq!(ValidationCode::TilesetMissing.as_str(), "TILESET_MISSING");
    assert_eq!(ValidationCode::CycleDetected.as_str(), "CYCLE_DETECTED");
}

#[test]
fn validation_code_display() {
    assert_eq!(ValidationCode::AssetMissing.to_string(), "ASSET_MISSING");
}

#[test]
fn validation_issue_error() {
    let issue = ValidationIssue::error(
        ValidationCode::RootMissing,
        "tileset.json",
        "root field not found",
    );
    assert_eq!(issue.code, "ROOT_MISSING");
    assert_eq!(issue.severity, "error");
}

#[test]
fn validation_issue_warning() {
    let issue = ValidationIssue::warning(
        ValidationCode::GeometricErrorMonotonicity,
        "node",
        "GE not monotonic",
    );
    assert_eq!(issue.code, "GEOMETRIC_ERROR_MONOTONICITY");
    assert_eq!(issue.severity, "warning");
}

#[test]
fn validation_report_new() {
    let report = ValidationReport::new("input/tileset.json");
    assert!(report.ok);
    assert_eq!(report.layer, "A");
    assert_eq!(report.error_count, 0);
    assert_eq!(report.issues.len(), 0);
}

#[test]
fn validation_report_add_error() {
    let mut report = ValidationReport::new("test");
    report.add_error(ValidationCode::TilesetMissing, "path", "not found");
    assert!(!report.ok);
    assert_eq!(report.error_count, 1);
    assert_eq!(report.issues.len(), 1);
    assert_eq!(report.issues[0].severity, "error");
}

#[test]
fn validation_report_add_warning() {
    let mut report = ValidationReport::new("test");
    report.add_warning(ValidationCode::GeometricErrorMonotonicity, "path", "check");
    assert!(report.ok);
    assert_eq!(report.warning_count, 1);
    assert_eq!(report.issues.len(), 1);
    assert_eq!(report.issues[0].severity, "warning");
}
