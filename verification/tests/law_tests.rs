use geoforge::process_manager::{apply_error_event, error_log_line, error_progress_fields};
use geoforge::bridge::{apply_poll, FollowedTask, PollReport};
use geoforge::commit::{checkpoint_file_text, parse_checkpoint_file, Checkpoint, TempGuard};
use geoforge::desktop::parse_bytes_range;
use geoforge::path_policy::{is_strict_descendant, PathParts};
use geoforge::process_manager::{ProtocolLine, MAX_PROTOCOL_LINE_BYTES};
use geoforge::task_store::{request_cancel, TaskState, TaskStatus};
use geoforge::texture_ktx2::{build_glb, glb_chunks};
use geoforge::util::{StderrTail, STDERR_TAIL_BYTES, STDERR_TAIL_LINES};
use geoforge::validate::{forward_issues, MAX_ERROR_EVENTS};
use geoforge::validator::{ValidationCode, ValidationReport};

fn path(root: &str, parts: &[&str]) -> PathParts {
    PathParts {
        root: root.to_string(),
        parts: parts.iter().map(|s| s.to_string()).collect(),
    }
}

fn state(status: TaskStatus) -> TaskState {
    TaskState {
        status,
        stage: "convert".to_string(),
        error: None,
        cancel_requested: false,
        finished: false,
    }
}

#[test]
fn checkpoint_file_written_reads_back() {
    for c in [Checkpoint::Prepared, Checkpoint::Rebuilt, Checkpoint::Committed] {
        let text = checkpoint_file_text(c);
        assert_eq!(parse_checkpoint_file(&text), Some(c));
    }
    assert_eq!(parse_checkpoint_file("  textured \n"), Some(Checkpoint::Textured));
    assert_eq!(parse_checkpoint_file("unknown"), None);
}

#[test]
fn report_is_ok_exactly_without_errors() {
    let mut report = ValidationReport::new("root");
    report.add_warning(ValidationCode::RefineInvalid, "a", "w");
    assert!(report.ok);
    report.add_error(ValidationCode::ContentMissing, "b", "e");
    assert!(!report.ok);
    report.add_warning(ValidationCode::RefineInvalid, "c", "w");
    assert!(!report.ok);
    assert_eq!(report.error_count, 1);
    assert_eq!(report.warning_count, 2);
}

#[test]
fn descendant_relation_is_asymmetric_and_transitive() {
    let a = path("/", &["data"]);
    let b = path("/", &["data", "in"]);
    let c = path("/", &["data", "in", "tiles"]);
    assert!(is_strict_descendant(&a, &b, false));
    assert!(!is_strict_descendant(&b, &a, false));
    assert!(is_strict_descendant(&b, &c, false));
    assert!(is_strict_descendant(&a, &c, false));
    assert!(!is_strict_descendant(&a, &a, false));
}

#[test]
fn descendant_relation_folds_case_only_when_asked() {
    let a = path("C:\\", &["Data"]);
    let b = path("C:\\", &["data", "out"]);
    assert!(is_strict_descendant(&a, &b, true));
    assert!(!is_strict_descendant(&a, &b, false));
}

#[test]
fn cancel_request_is_idempotent_and_keeps_finished_tasks() {
    let once = request_cancel(state(TaskStatus::Running));
    assert_eq!(once.status, TaskStatus::Cancelling);
    assert!(once.cancel_requested);
    let twice = request_cancel(request_cancel(state(TaskStatus::Running)));
    assert_eq!(twice.status, once.status);
    assert_eq!(twice.cancel_requested, once.cancel_requested);

    let queued = request_cancel(state(TaskStatus::Queued));
    assert_eq!(queued.status, TaskStatus::Cancelled);
    assert!(queued.finished);

    let done = request_cancel(state(TaskStatus::Succeeded));
    assert_eq!(done.status, TaskStatus::Succeeded);
    assert!(!done.cancel_requested);
}

#[test]
fn protocol_line_read_in_pieces_keeps_the_same_prefix() {
    let mut record = vec![b'a'; MAX_PROTOCOL_LINE_BYTES + 5];
    record.push(b'\n');
    let mut whole = ProtocolLine::new();
    let (n, ended) = whole.step(&record);
    assert_eq!(n, record.len());
    assert!(ended);
    let (d1, t1) = whole.finish().unwrap();

    let mut pieces = ProtocolLine::new();
    let mut pos = 0;
    for size in [3usize, 70000, 100] {
        let end = (pos + size).min(record.len());
        let (n, _) = pieces.step(&record[pos..end]);
        pos += n;
    }
    let (d2, t2) = pieces.finish().unwrap();
    assert_eq!(d1, d2);
    assert_eq!(t1, t2);
    assert!(t1);
    assert_eq!(d1.len(), MAX_PROTOCOL_LINE_BYTES);
}

#[test]
fn glb_built_splits_back_into_its_parts() {
    let json = br#"{"asset":{"version":"2.0"}}"#.to_vec();
    let bin = vec![9u8, 8, 7];
    let glb = build_glb(&json, &bin);
    assert_eq!(glb.len() % 4, 0);
    let chunks = glb_chunks(&glb).unwrap();
    assert_eq!(chunks.json.len(), 1);
    assert_eq!(&chunks.json[0][..json.len()], &json[..]);
    assert!(chunks.json[0][json.len()..].iter().all(|b| *b == b' '));
    assert_eq!(&chunks.bin[..3], &bin[..]);
    assert_eq!(chunks.bin[3], 0);
}

#[test]
fn stderr_tail_stays_within_its_bounds() {
    let mut tail = StderrTail::new();
    for i in 0..(STDERR_TAIL_LINES + 50) {
        tail.push(format!("line {i}"));
    }
    let joined = tail.joined();
    assert_eq!(joined.lines().count(), STDERR_TAIL_LINES);
    assert!(joined.starts_with("line 50"));
    assert!(joined.ends_with(&format!("line {}", STDERR_TAIL_LINES + 49)));

    let mut big = StderrTail::new();
    for _ in 0..10 {
        big.push("x".repeat(10000));
    }
    assert!(big.joined().len() <= STDERR_TAIL_BYTES);
    assert_eq!(big.joined().lines().count(), 6);
}

#[test]
fn finished_follow_stays_finished() {
    let t = FollowedTask {
        status: "failed".to_string(),
        stage: "convert".to_string(),
        error: None,
        log: String::new(),
        progress: "{\"completed\":3}".to_string(),
        finished: true,
    };
    let p = PollReport { status: Some("running".to_string()), stage: None, error: None, log: None, progress: None };
    let r = apply_poll(t, p);
    assert!(r.finished);
    assert_eq!(r.status, "running");
    assert_eq!(r.progress, "{}");
}

#[test]
fn forwarded_findings_never_exceed_the_cap() {
    let mut report = ValidationReport::new("root");
    for i in 0..40 {
        report.add_error(ValidationCode::ContentMissing, &format!("p{i}"), "missing");
    }
    let events = forward_issues(&report.issues, "error", MAX_ERROR_EVENTS);
    assert_eq!(events.len(), MAX_ERROR_EVENTS);
    assert_eq!(events[0], ("CONTENT_MISSING".to_string(), "missing @ p0".to_string()));
    assert_eq!(events[31].1, "missing @ p31");
}

#[test]
fn byte_ranges_stay_inside_the_file() {
    assert_eq!(parse_bytes_range("bytes=0-99", 50), Some((0, 49)));
    assert_eq!(parse_bytes_range("bytes=10-", 50), Some((10, 49)));
    assert_eq!(parse_bytes_range("bytes=50-60", 50), None);
    assert_eq!(parse_bytes_range("bytes=0-", 0), None);
}

#[test]
fn committed_guard_keeps_its_directory() {
    let mut g = TempGuard::new(path("/", &["out", ".geoforge-task-t1"]));
    assert!(g.should_remove());
    g.mark_committed();
    assert!(!g.should_remove());
    g.mark_committed();
    assert!(!g.should_remove());
}

#[test]
fn error_event_preserves_code_stage_message_and_log() {
    let task = state(TaskStatus::Running);
    let updated = apply_error_event(task, "CONVERTER_EXIT_NONZERO", "Tile_甲.osgb failed: access denied");
    assert_eq!(updated.error.as_deref(), Some("Tile_甲.osgb failed: access denied"));
    let fields = error_progress_fields("CONVERTER_EXIT_NONZERO", "Tile_甲.osgb failed: access denied", &updated.stage);
    assert_eq!(fields[0], ("errorCode".to_string(), "CONVERTER_EXIT_NONZERO".to_string()));
    assert_eq!(fields[2], ("failedStage".to_string(), "convert".to_string()));
    let log = error_log_line("CONVERTER_EXIT_NONZERO", "Tile_甲.osgb failed: access denied");
    assert!(log.contains("[error:CONVERTER_EXIT_NONZERO]"));
    assert!(log.contains("Tile_甲.osgb failed"));
    let again = apply_error_event(updated, "LATER", "second");
    assert_eq!(again.error.as_deref(), Some("Tile_甲.osgb failed: access denied"));
}

#[test]
fn log_file_tail_starts_at_utf8_boundary() {
    let text = "prefix-中文-🚀-tail";
    let bytes = text.as_bytes();
    let window = &bytes[bytes.len() - 7..];
    let skip = geoforge::task_store::leading_continuation_bytes(window);
    let tail = geoforge::util::decode_lossy(&window[skip..]);
    assert!(std::str::from_utf8(tail.as_bytes()).is_ok());
    assert!(!tail.starts_with('\u{fffd}'));
    assert_eq!(tail, "-tail");
}
