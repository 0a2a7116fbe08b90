use geoforge::process_manager::{
    apply_cancelled, apply_succeeded, progress_event_fields, ProtocolEvent,
    MAX_DIAGNOSTIC_DISPLAY_BYTES,
};
use geoforge::task_store::{TaskState, TaskStatus};
use geoforge::texture::{validate_existing_tiles_texture_mode, validate_texture_mode, ToolAvailability};
use geoforge::util::{emit_bounded_fragment, BoundedLines, MAX_DISPLAY_LINE_BYTES};

/// Every piece of one feed, as (bytes, cut).
fn feed_all(lines: &mut BoundedLines, chunk: &[u8]) -> Vec<(Vec<u8>, bool)> {
    lines.feed(chunk).into_iter().map(|f| (f.bytes, f.truncated)).collect()
}

fn piece(bytes: &[u8], cut: bool) -> (Vec<u8>, bool) {
    (bytes.to_vec(), cut)
}

#[test]
fn feed_splits_at_every_newline_and_cuts_the_partial_line() {
    let mut lines = BoundedLines::new(2, false);
    let out = feed_all(&mut lines, b"abc\nxyzw");
    assert_eq!(out, vec![piece(b"abc\n", false), piece(b"xy", true)]);
    assert_eq!(lines.finish(), Some(b"zw".to_vec()));
}

#[test]
fn feed_keeps_whole_lines_when_lines_are_not_split() {
    let mut lines = BoundedLines::new(3, false);
    let out = feed_all(&mut lines, b"a\nlonger line\n\nz");
    assert_eq!(
        out,
        vec![piece(b"a\n", false), piece(b"longer line\n", false), piece(b"\n", false)]
    );
    assert_eq!(lines.finish(), Some(b"z".to_vec()));
}

#[test]
fn feed_cuts_complete_lines_when_lines_are_split() {
    let mut lines = BoundedLines::new(2, true);
    let out = feed_all(&mut lines, b"abcde\nxy");
    assert_eq!(out, vec![piece(b"ab", true), piece(b"cd", true), piece(b"e\n", false)]);
    assert_eq!(lines.finish(), Some(b"xy".to_vec()));
}

#[test]
fn feed_holds_a_line_across_chunks_until_its_newline() {
    let mut lines = BoundedLines::new(10, false);
    assert!(feed_all(&mut lines, b"ab").is_empty());
    let out = feed_all(&mut lines, b"c\nd");
    assert_eq!(out, vec![piece(b"abc\n", false)]);
    assert_eq!(lines.finish(), Some(b"d".to_vec()));
}

#[test]
fn feed_of_exactly_max_pending_bytes_cuts_nothing() {
    let mut lines = BoundedLines::new(4, false);
    assert!(feed_all(&mut lines, b"wxyz").is_empty());
    assert_eq!(lines.finish(), Some(b"wxyz".to_vec()));
}

#[test]
fn raw_stream_fragments_have_the_documented_shape() {
    let max = MAX_DIAGNOSTIC_DISPLAY_BYTES;
    let mut input = vec![b'x'; max * 2 + 9];
    input.extend_from_slice(b"\nlast\n");
    let mut lines = BoundedLines::new(max, true);
    let mut out = Vec::new();
    for chunk in input.chunks(8192) {
        out.extend(feed_all(&mut lines, chunk));
    }
    assert_eq!(lines.finish(), None);
    let mut third = vec![b'x'; 9];
    third.push(b'\n');
    assert_eq!(
        out,
        vec![
            (vec![b'x'; max], true),
            (vec![b'x'; max], true),
            (third, false),
            piece(b"last\n", false),
        ]
    );
}

#[test]
fn unterminated_output_comes_out_in_max_pieces_then_the_rest() {
    let max = MAX_DISPLAY_LINE_BYTES;
    let input = vec![b'x'; max * 2 + 17];
    let mut lines = BoundedLines::new(max, false);
    let mut out = Vec::new();
    for chunk in input.chunks(8192) {
        out.extend(feed_all(&mut lines, chunk));
    }
    let rest = lines.finish().expect("a partial line is pending");
    out.push((rest, false));
    assert_eq!(
        out,
        vec![(vec![b'x'; max], true), (vec![b'x'; max], true), (vec![b'x'; 17], false)]
    );
}

#[test]
fn bounded_fragment_is_max_pieces_then_an_unmarked_rest() {
    let out: Vec<(Vec<u8>, bool)> =
        emit_bounded_fragment(b"abcdefg".to_vec(), 3).into_iter().map(|f| (f.bytes, f.truncated)).collect();
    assert_eq!(out, vec![piece(b"abc", true), piece(b"def", true), piece(b"g", false)]);
    let exact: Vec<(Vec<u8>, bool)> =
        emit_bounded_fragment(b"abcdef".to_vec(), 3).into_iter().map(|f| (f.bytes, f.truncated)).collect();
    assert_eq!(exact, vec![piece(b"abc", true), piece(b"def", false)]);
    assert!(emit_bounded_fragment(Vec::new(), 3).is_empty());
}

fn running() -> TaskState {
    TaskState {
        status: TaskStatus::Running,
        stage: "convert".to_string(),
        error: None,
        cancel_requested: true,
        finished: false,
    }
}

#[test]
fn success_records_done_and_survives_a_later_cancel() {
    let done = apply_succeeded(running());
    assert_eq!(done.status, TaskStatus::Succeeded);
    assert_eq!(done.stage, "done");
    assert!(done.finished);
    assert!(done.cancel_requested);
    let after = apply_cancelled(done);
    assert_eq!(after.status, TaskStatus::Succeeded);
    assert_eq!(after.stage, "done");
    assert!(after.finished);
    assert_eq!(after.error, None);
}

#[test]
fn progress_event_copies_the_fields_it_holds() {
    let ev = ProtocolEvent::Progress {
        completed: Some("3".to_string()),
        total: None,
        stage: Some("\"convert\"".to_string()),
    };
    let fields = progress_event_fields(&ev);
    assert_eq!(
        fields,
        vec![
            ("completed".to_string(), "3".to_string()),
            ("stage".to_string(), "\"convert\"".to_string()),
        ]
    );
    let none = ProtocolEvent::Log { message: None };
    assert!(progress_event_fields(&none).is_empty());
}

fn no_tools() -> ToolAvailability {
    ToolAvailability { texture_bin: false, texture_py: false, python: false, basisu: false, packaged: true }
}

#[test]
fn unavailable_texture_mode_names_the_normalized_mode() {
    let err = validate_texture_mode("  KTX2-UASTC ", &no_tools(), true).unwrap_err();
    assert_eq!(
        err,
        "texture mode=ktx2-uastc is unavailable: the texture encoder or basisu is missing; choose keep or install the texture component"
    );
    assert!(validate_texture_mode("ktx2-etc1s", &no_tools(), true).is_ok());
    let err2 = validate_existing_tiles_texture_mode("KTX2-ETC1S", &no_tools()).unwrap_err();
    assert!(err2.starts_with("texture mode=ktx2-etc1s is unavailable"));
}
