use geoforge::process_manager::{cancel_grace_secs, cancel_watch_step, CancelWatch};
use geoforge::texture::{evidence_check, EvidenceCheck};
use geoforge::cancel::is_cancel_line;
use geoforge::commit::{ensure_staged_output, StagedProbe};
use geoforge::path_policy::PathParts;
use geoforge::scan::selects_data_dir;
use geoforge::bridge::{
    artifact_root, cancel_accepted, cancel_url, final_status, health_url, task_url, ArtifactRoot,
};
use geoforge::capabilities::{convert_message, missing_tool_error, probe_verdict, texture_modes};
use geoforge::commit::{ensure_owned_temp, existing_temp_message, temp_dir_name, Checkpoint, TempDirProbe};
use geoforge::convert::{convert_outcome, converter_preflight, strip_verbatim_str, thread_override_text};
use geoforge::desktop::{preview_url, refusal_status, request_path, serve_plan, ServePlan};
use geoforge::geo::{effective_crs, parse_epsg_code, unit_hint};
use geoforge::ids::{artifact_kind, artifact_label, new_artifact_id, new_task_id, short_id, task_name_or_id};
use geoforge::numbers::{parse_i32, parse_u64};
use geoforge::patterns::{capture_group, is_tile_dir_name, matches_pattern, EPSG_PATTERN};
use geoforge::pipeline::{finish_run, parse_operation, Operation, TaskEnd};
use geoforge::process_manager::{processor_outcome, protocol_line_action, LineAction, ProcessorEnd};
use geoforge::protocol::{validate_schema_version, Emitter};
use geoforge::rebuild::{python_rebuild_levels, rebuild_outcome, rebuild_preflight};
use geoforge::scan::{extract_tag, xml_parse_error};
use geoforge::task_store::{append_log_text, log_view_lines, MAX_LOG_TEXT_BYTES};
use geoforge::text::string_of_chars;
use geoforge::texture::{
    file_has_ktx2_evidence, native_ktx2_setting, normalize_mode, texture_postprocess_verdict,
    texture_step, TextureStep,
};
use geoforge::util::{decode_lossy, peak_memory_from_status, CommandResult};
use geoforge::validate::validate_tileset_dir;
use geoforge::validator::{ValidationCode, ValidationReport};

#[test]
fn epsg_codes_come_from_the_pattern() {
    assert_eq!(parse_epsg_code(Some("EPSG:4326")), Some(4326));
    assert_eq!(parse_epsg_code(Some("  epsg : 32650 ")), Some(32650));
    assert_eq!(parse_epsg_code(Some("EPSG:abc")), None);
    assert_eq!(parse_epsg_code(None), None);
    assert!(matches_pattern(EPSG_PATTERN, "EPSG:3857"));
    assert_eq!(capture_group(EPSG_PATTERN, "EPSG: 3857", 1), Some("3857".to_string()));
}

#[test]
fn unit_hints_follow_the_crs_kind() {
    assert_eq!(unit_hint(None), "未知单位（缺 SRS）");
    assert_eq!(unit_hint(Some("ENU:31.2,121.5")), "ENU 局部坐标：米（东/北/天）；地理原点为经纬度（度）");
    assert_eq!(unit_hint(Some("EPSG:4326")), "EPSG:4326 地理坐标：度（注意轴序）；高程另计");
    assert_eq!(unit_hint(Some("EPSG:32650")), "EPSG:32650 多为投影米制；请确认分带/假东移，高程另计");
    assert_eq!(unit_hint(Some("geogcs[\"WGS 84\"]")), "WKT：按定义单位；请自行确认轴序与高程基准");
    assert_eq!(unit_hint(Some("LOCAL")), "自定义 CRS：请确认单位与轴序；高程基准独立");
}

#[test]
fn effective_crs_prefers_the_override() {
    assert_eq!(effective_crs(Some(" EPSG:4326 "), Some("EPSG:3857")), Some("EPSG:4326".to_string()));
    assert_eq!(effective_crs(Some("   "), Some(" EPSG:3857 ")), Some("EPSG:3857".to_string()));
    assert_eq!(effective_crs(None, Some("  ")), None);
}

#[test]
fn tile_directory_names() {
    assert!(is_tile_dir_name("Tile_+001_-002"));
    assert!(is_tile_dir_name("tile_3_4"));
    assert!(!is_tile_dir_name("Tile_1"));
}

#[test]
fn texture_modes_normalize_case_insensitively() {
    assert_eq!(normalize_mode(Some("  KTX2 ")), "ktx2-etc1s");
    assert_eq!(normalize_mode(Some("UASTC")), "ktx2-uastc");
    assert_eq!(normalize_mode(Some("None")), "keep");
    assert_eq!(normalize_mode(None), "keep");
    assert_eq!(normalize_mode(Some(" Custom ")), "custom");
}

#[test]
fn texture_step_choices() {
    assert_eq!(texture_step("keep", true, true), TextureStep::Keep);
    assert_eq!(texture_step("ktx2", true, true), TextureStep::Native);
    assert_eq!(texture_step("ktx2", true, false), TextureStep::PostProcess);
    assert_eq!(texture_step("uastc", true, true), TextureStep::PostProcess);
    assert!(native_ktx2_setting("TRUE"));
    assert!(native_ktx2_setting("1"));
    assert!(!native_ktx2_setting("yes"));
}

#[test]
fn texture_postprocess_verdicts() {
    assert_eq!(texture_postprocess_verdict(true, 0, true, "ktx2-etc1s", "/o"), Err("cancelled".to_string()));
    assert_eq!(
        texture_postprocess_verdict(false, -3, true, "ktx2-etc1s", "/o"),
        Err("texture post-process exited -3".to_string())
    );
    assert_eq!(
        texture_postprocess_verdict(false, 0, false, "ktx2-uastc", "/o"),
        Err("KTX2 mode=ktx2-uastc was requested, but no KTX2 evidence found under /o".to_string())
    );
    assert_eq!(texture_postprocess_verdict(false, 0, true, "ktx2-uastc", "/o"), Ok(()));
}

#[test]
fn ktx2_evidence_in_gltf_text_and_invalid_utf8() {
    let marker = [0xabu8, 0x4b, 0x54, 0x58, 0x20, 0x32, 0x30, 0x0d, 0x0a, 0x1a, 0x0a, 0, 0];
    assert!(file_has_ktx2_evidence("bin", &marker));
    assert!(!file_has_ktx2_evidence("bin", b"plain"));
    assert!(file_has_ktx2_evidence("gltf", br#"{"extensionsUsed":["KHR_texture_basisu"]}"#));
    assert!(!file_has_ktx2_evidence("gltf", br#"{"images":[{"uri":"a.png"}]}"#));
    assert!(!file_has_ktx2_evidence("gltf", &[0xff, 0xfe, b'.', b'k', b't', b'x', b'2']));
}

#[test]
fn lossy_decoding_replaces_invalid_bytes() {
    assert_eq!(decode_lossy(b"ok"), "ok");
    assert_eq!(decode_lossy(&[b'a', 0xff, b'b']), "a\u{FFFD}b");
}

#[test]
fn characters_become_a_string() {
    assert_eq!(string_of_chars(&vec!['日', 'x', '🙂']), "日x🙂");
}

#[test]
fn peak_memory_is_read_from_status_text() {
    assert_eq!(peak_memory_from_status("Name:\tx\nVmHWM:\t  2048 kB\n"), Some(2048 * 1024));
    assert_eq!(peak_memory_from_status("VmRSS:\t10 kB\n"), Some(10240));
    assert_eq!(peak_memory_from_status("Name:\tx\n"), None);
}

#[test]
fn uuid_based_ids_have_their_shape() {
    let t = new_task_id();
    assert_eq!(t.len(), 17);
    assert!(t.starts_with("task-"));
    assert!(t[5..].chars().all(|c| c.is_ascii_hexdigit() && !c.is_ascii_uppercase()));
    let a = new_artifact_id();
    assert!(a.starts_with("art-"));
    assert_eq!(a.len(), 16);
    assert_ne!(new_task_id(), new_task_id());
    assert_eq!(short_id("task-", "0123abcd-ef01-4567-89ab-cdef01234567"), "task-0123abcdef01");
}

#[test]
fn record_defaults() {
    assert_eq!(task_name_or_id("", "task-1"), "task-1");
    assert_eq!(task_name_or_id("My task", "task-1"), "My task");
    assert_eq!(artifact_label("", Some("out"), "art-1"), "out");
    assert_eq!(artifact_label("", None, "art-1"), "art-1");
    assert_eq!(artifact_kind(""), "3dtiles");
    assert_eq!(artifact_kind("mesh"), "mesh");
}

#[test]
fn numbers_parse_like_str_parse() {
    assert_eq!(parse_i32("+12"), Some(12));
    assert_eq!(parse_i32("-2147483648"), Some(i32::MIN));
    assert_eq!(parse_i32("2147483648"), None);
    assert_eq!(parse_u64("18446744073709551615"), Some(u64::MAX));
    assert_eq!(parse_u64("-1"), None);
    assert_eq!(parse_u64(""), None);
}

#[test]
fn operations_and_schema() {
    assert!(matches!(parse_operation("convert-osgb"), Ok(Operation::ConvertOsgb)));
    assert!(matches!(parse_operation("process-tileset"), Ok(Operation::ProcessTileset)));
    assert_eq!(parse_operation("rebuild").err(), Some("Unknown operation: rebuild".to_string()));
    assert!(validate_schema_version(None).is_ok());
    assert!(validate_schema_version(Some(1)).is_ok());
}

#[test]
fn run_results_map_to_task_ends() {
    assert!(matches!(finish_run(Ok("/out".to_string()), true), TaskEnd::Succeeded { .. }));
    assert!(matches!(finish_run(Err("cancelled".to_string()), false), TaskEnd::Cancelled));
    match finish_run(Err("output already exists: /o".to_string()), false) {
        TaskEnd::Failed { code, message } => {
            assert_eq!(code, "PATH_OUTPUT_EXISTS");
            assert_eq!(message, "output already exists: /o");
        }
        _ => panic!("expected a failure"),
    }
    assert_eq!(finish_run(Err("x".to_string()), true).exit_code(), 2);
}

#[test]
fn processor_exit_outcomes() {
    assert!(matches!(
        processor_outcome(false, 0, None, true, "/out".to_string(), true, false),
        ProcessorEnd::Succeeded { path } if path == "/out"
    ));
    assert!(matches!(
        processor_outcome(false, 1, None, false, "/out".to_string(), false, true),
        ProcessorEnd::Cancelled
    ));
    assert!(matches!(
        processor_outcome(false, 3, None, false, "/out".to_string(), false, false),
        ProcessorEnd::Failed { message } if message == "processor exited 3"
    ));
    assert!(matches!(
        processor_outcome(true, 3, None, false, "/out".to_string(), false, false),
        ProcessorEnd::Untouched
    ));
    assert!(matches!(
        processor_outcome(false, 0, None, false, "/out".to_string(), false, false),
        ProcessorEnd::NoResult
    ));
}

#[test]
fn protocol_lines_are_trimmed_or_skipped() {
    assert!(matches!(protocol_line_action(b"   \r\n", false), LineAction::Skip));
    assert!(matches!(protocol_line_action(b" {\"type\":\"log\"} \n", false), LineAction::Parse(t) if t == "{\"type\":\"log\"}"));
    assert!(matches!(protocol_line_action(b"{", true), LineAction::Truncated(_)));
}

#[test]
fn emitter_numbers_events_from_one() {
    let mut e = Emitter::new("t-1");
    assert_eq!(e.next_seq(), 1);
    assert_eq!(e.next_seq(), 2);
    assert_eq!(e.task_id(), "t-1");
}

#[test]
fn converter_errors() {
    assert!(converter_preflight(true, false, "/bin/_3dtile").is_ok());
    assert!(converter_preflight(false, true, "/bin/_3dtile").is_err());
    let ok = CommandResult { exit_code: 0, stderr_tail: String::new(), peak_memory_bytes: None };
    assert_eq!(convert_outcome(true, &ok, true, "/o"), Err("cancelled".to_string()));
    assert!(convert_outcome(false, &ok, true, "/o").is_ok());
    assert!(convert_outcome(false, &ok, false, "/o").is_err());
    assert_eq!(thread_override_text(Some(0)), "0 (auto)");
    assert_eq!(thread_override_text(None), "none (converter default)");
    assert_eq!(strip_verbatim_str("\\\\?\\D:\\data", true), "D:\\data");
    assert_eq!(strip_verbatim_str("\\\\?\\D:\\data", false), "\\\\?\\D:\\data");
}

#[test]
fn rebuild_errors() {
    assert!(rebuild_preflight(true, "tb").is_ok());
    assert!(rebuild_preflight(false, "tb").unwrap_err().starts_with("top_rebuild binary not found: tb"));
    assert_eq!(rebuild_outcome("top_rebuild", false, 4, true), Err("top_rebuild exited 4".to_string()));
    assert_eq!(
        rebuild_outcome("top_rebuild", false, 0, false),
        Err("rebuild output missing tileset.json".to_string())
    );
    assert_eq!(python_rebuild_levels(Some(5)), 2);
    assert_eq!(python_rebuild_levels(None), 1);
}

#[test]
fn temp_directory_ownership_errors() {
    let base = TempDirProbe {
        display: "/o/.geoforge-task-t1".to_string(),
        metadata_error: None,
        is_symlink: false,
        is_dir: true,
        owned: false,
        parent_owned: false,
        marker_exists: true,
        marker_display: "/o/.geoforge-task-t1/.geoforge-owned".to_string(),
        marker_content: Some("geoforge-task:t2".to_string()),
        dir_name: Some(".geoforge-task-t1".to_string()),
    };
    assert_eq!(
        ensure_owned_temp(&base),
        Err("temporary work directory ownership marker mismatch: /o/.geoforge-task-t1 (expected 'geoforge-task:t1', found 'geoforge-task:t2')".to_string())
    );
    let owned = TempDirProbe { owned: true, ..base };
    assert!(ensure_owned_temp(&owned).is_ok());
    let link = TempDirProbe { owned: false, is_symlink: true, ..owned };
    assert_eq!(
        ensure_owned_temp(&link),
        Err("temporary work directory is a symlink (security risk): /o/.geoforge-task-t1".to_string())
    );
    assert_eq!(temp_dir_name("t1"), ".geoforge-task-t1");
    assert!(existing_temp_message("/o/t", Some(Checkpoint::Converted)).contains("Last checkpoint: converted"));
}

#[test]
fn xml_checks() {
    assert_eq!(xml_parse_error("<a><b/></a>"), None);
    assert!(xml_parse_error("<a><b></a>").is_some());
    assert_eq!(extract_tag("<M><SRS> EPSG:4326 </SRS></M>", "SRS"), Some("EPSG:4326".to_string()));
    assert_eq!(extract_tag("<M></M>", "SRS"), None);
}

#[test]
fn resource_server_answers() {
    assert_eq!(preview_url("http://127.0.0.1:9/", "art-1"), "http://127.0.0.1:9/artifacts/art-1/tileset.json");
    assert_eq!(refusal_status("path traversal rejected"), 400);
    assert_eq!(refusal_status("file not found: a"), 404);
    assert_eq!(request_path("/"), Ok("tileset.json".to_string()));
    assert_eq!(request_path("/a/../b"), Err("path traversal rejected".to_string()));
    assert_eq!(request_path("//Data/t.b3dm"), Ok("Data/t.b3dm".to_string()));
    assert_eq!(serve_plan(10, None), ServePlan::Full { length: 10 });
    assert_eq!(
        serve_plan(10, Some("bytes=2-4")),
        ServePlan::Partial { start: 2, end: 4, length: 3, content_range: "bytes 2-4/10".to_string() }
    );
    assert_eq!(serve_plan(10, Some("items=2-4")), ServePlan::Full { length: 10 });
}

#[test]
fn task_log_text_and_view() {
    assert_eq!(append_log_text("", "a"), "a");
    assert_eq!(append_log_text("a", "b\n\n"), "a\nb");
    assert_eq!(append_log_text("a\n", "b"), "a\nb");
    let big = "x".repeat(MAX_LOG_TEXT_BYTES);
    let out = append_log_text(&big, "tail");
    assert!(out.len() <= MAX_LOG_TEXT_BYTES);
    assert!(out.ends_with("\ntail"));
    assert_eq!(log_view_lines("a\r\nb\nc\r", 0), vec!["a", "b", "c\r"]);
    assert_eq!(log_view_lines("1\n2\n3\n", 2), vec!["2", "3"]);
    assert!(log_view_lines("", 5).is_empty());
}

#[test]
fn follower_urls_and_statuses() {
    assert_eq!(health_url("http://h:1//"), "http://h:1/api/health");
    assert_eq!(task_url("http://h:1", "p1"), "http://h:1/api/tasks/p1");
    assert_eq!(cancel_url("http://h:1/", "p1"), "http://h:1/api/tasks/p1/cancel");
    assert!(final_status("completed"));
    assert!(!final_status("running"));
    assert!(cancel_accepted(false, 404));
    assert!(!cancel_accepted(false, 500));
    assert_eq!(artifact_root("/o", true, false, None), ArtifactRoot::Output);
    assert_eq!(artifact_root("/o/tileset.json", false, true, Some("tileset.json")), ArtifactRoot::OutputParent);
    assert_eq!(artifact_root("", true, false, None), ArtifactRoot::Nothing);
}

#[test]
fn offered_texture_modes() {
    let modes = texture_modes(false, false);
    assert_eq!(modes.len(), 4);
    assert!(modes[0].supported);
    assert!(!modes[1].supported);
    assert_eq!(modes[1].reason.as_deref(), Some("KTX2 encoder unavailable"));
    assert_eq!(modes[1].cli_flags, Some(Vec::new()));
    let native = texture_modes(true, false);
    assert!(native[1].supported && !native[1].postprocess);
    assert_eq!(native[1].cli_flags, Some(vec!["--enable-texture-compress".to_string()]));
    assert!(!native[2].supported);
    assert_eq!(convert_message(true, true), "ready");
}

#[test]
fn validation_stage_verdicts() {
    let mut report = ValidationReport::new("r");
    report.tileset_count = 2;
    report.content_count = 5;
    report.add_warning(ValidationCode::RefineInvalid, "t.json", "odd refine");
    let ok = validate_tileset_dir(&report, None, "/o/validation_internal.json");
    assert_eq!(
        ok.outcome,
        Ok("[validate] Layer A OK tilesets=2 contents=5 external=0 report=/o/validation_internal.json".to_string())
    );
    assert_eq!(ok.warnings, vec![("REFINE_INVALID".to_string(), "odd refine @ t.json".to_string())]);
    report.add_error(ValidationCode::RootMissing, "t.json", "no root");
    let bad = validate_tileset_dir(&report, None, "/o/v.json");
    assert_eq!(bad.outcome, Err("VALIDATION_FAILED: validation failed".to_string()));
    assert_eq!(bad.errors.len(), 1);
    assert!(bad.warnings.is_empty());
}

#[test]
fn cancel_lines() {
    assert!(is_cancel_line("  CANCEL \n"));
    assert!(is_cancel_line("{\"type\":\"cancel\"}"));
    assert!(is_cancel_line("{\"type\": \"cancel\", \"why\": 1}"));
    assert!(!is_cancel_line("cancelled"));
}

#[test]
fn staged_output_checks() {
    let temp = PathParts { root: "/".to_string(), parts: vec!["o".to_string(), ".geoforge-task-t".to_string()] };
    let ok = StagedProbe {
        display: "/o/.geoforge-task-t/staged".to_string(),
        metadata_error: None,
        is_dir: true,
        is_symlink: false,
        parent_display: Some("/o/.geoforge-task-t".to_string()),
        canonical_parent: Ok(temp.clone()),
        temp_display: "/o/.geoforge-task-t".to_string(),
        canonical_temp: Ok(temp.clone()),
    };
    assert!(ensure_staged_output(&ok).is_ok());
    let elsewhere = StagedProbe {
        canonical_parent: Ok(PathParts { root: "/".to_string(), parts: vec!["o".to_string()] }),
        ..ok
    };
    assert_eq!(
        ensure_staged_output(&elsewhere),
        Err("staged output must be a direct child of its owned temporary directory: /o/.geoforge-task-t/staged".to_string())
    );
    let missing = StagedProbe { metadata_error: Some("gone".to_string()), ..elsewhere };
    assert_eq!(
        ensure_staged_output(&missing),
        Err("staged output is missing or inaccessible: /o/.geoforge-task-t/staged (gone)".to_string())
    );
}

#[test]
fn data_directory_selection() {
    assert!(selects_data_dir(Some("Data"), true));
    assert!(!selects_data_dir(Some("Data"), false));
    assert!(!selects_data_dir(Some("data"), true));
    assert!(!selects_data_dir(None, true));
}

#[test]
fn tool_probe_verdicts() {
    assert_eq!(probe_verdict(false, Some(0)), (true, None));
    assert_eq!(probe_verdict(true, None), (false, Some("--help timed out after 3 seconds".to_string())));
    assert_eq!(probe_verdict(false, Some(2)), (false, Some("--help exited with 2".to_string())));
    assert_eq!(probe_verdict(false, None), (false, Some("--help exited with -1".to_string())));
    assert_eq!(missing_tool_error("/x/_3dtile"), "missing: /x/_3dtile");
}

#[test]
fn evidence_checks_by_extension() {
    assert_eq!(evidence_check("KTX2"), EvidenceCheck::Standalone);
    assert_eq!(evidence_check("b3dm"), EvidenceCheck::Inspect);
    assert_eq!(evidence_check("Gltf"), EvidenceCheck::Inspect);
    assert_eq!(evidence_check("png"), EvidenceCheck::Ignore);
}

#[test]
fn cancel_watcher_steps() {
    assert_eq!(cancel_grace_secs(None), 10);
    assert_eq!(cancel_grace_secs(Some("3")), 3);
    assert_eq!(cancel_grace_secs(Some("soon")), 10);
    assert_eq!(cancel_watch_step(true, false, true), CancelWatch::Stop);
    assert_eq!(cancel_watch_step(false, true, false), CancelWatch::Stop);
    assert_eq!(cancel_watch_step(false, false, false), CancelWatch::Wait);
    assert_eq!(cancel_watch_step(false, true, true), CancelWatch::ForceKill);
}

#[test]
fn packaged_mode_does_not_use_source_texture_script() {
    let tools = geoforge::texture::ToolAvailability {
        texture_bin: false,
        texture_py: true,
        python: true,
        basisu: false,
        packaged: true,
    };
    let error = geoforge::texture::validate_texture_mode_with_tools("ktx2-etc1s", &tools, false, false).unwrap_err();
    assert!(error.contains("texture mode=ktx2-etc1s is unavailable"));
    let source_tree = geoforge::texture::ToolAvailability { packaged: false, basisu: true, ..tools };
    assert!(geoforge::texture::postprocess_available(&source_tree));
    let packaged = geoforge::texture::ToolAvailability { packaged: true, ..source_tree };
    assert!(!geoforge::texture::postprocess_available(&packaged));
}

#[test]
fn detects_embedded_marker_in_gltf_json() {
    let text = br#"{"extensionsUsed":["KHR_texture_basisu"],"images":[{"mimeType":"image/ktx2"}]}"#;
    assert!(file_has_ktx2_evidence("gltf", text));
    assert_eq!(evidence_check("gltf"), EvidenceCheck::Inspect);
}

#[test]
fn cancel_flag_readings() {
    assert_eq!(geoforge::pipeline::cancel_verdict(true), Err("cancelled".to_string()));
    assert_eq!(geoforge::pipeline::cancel_verdict(false), Ok(()));
    let flag = geoforge::cancel::CancelFlag::new();
    assert!(!flag.is_cancelled());
    assert_eq!(geoforge::pipeline::check_cancel(&flag), Ok(()));
    let clone = flag.clone();
    clone.request();
    assert!(flag.is_cancelled());
    assert_eq!(geoforge::pipeline::check_cancel(&flag), Err("cancelled".to_string()));
}
