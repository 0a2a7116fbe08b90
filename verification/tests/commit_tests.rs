use geoforge::commit::{
    checkpoint_file_text, ensure_owned_temp, existing_temp_message, marker_matches,
    ownership_marker_text, owns_temp_dir, parse_checkpoint_file, temp_work_dir, Checkpoint,
    TempDirProbe, TEMP_MARKER,
};
use geoforge::path_policy::PathParts;

fn output() -> PathParts {
    PathParts { root: "/".to_string(), parts: vec!["root".to_string(), "output".to_string()] }
}

fn probe(task_id: &str, marker: Option<&str>) -> TempDirProbe {
    let temp = temp_work_dir(&output(), task_id);
    let display = format!("/{}", temp.parts.join("/"));
    let name = temp.parts.last().cloned();
    let owned = owns_temp_dir(true, name.as_deref(), marker);
    TempDirProbe {
        marker_display: format!("{display}/{TEMP_MARKER}"),
        display,
        metadata_error: None,
        is_symlink: false,
        is_dir: true,
        owned,
        parent_owned: false,
        marker_exists: marker.is_some(),
        marker_content: marker.map(|m| m.to_string()),
        dir_name: name,
    }
}

#[test]
fn temp_directory_sits_beside_the_output() {
    let temp = temp_work_dir(&output(), "task-safe");
    assert_eq!(temp.parts, vec!["root", ".geoforge-task-task-safe"]);
    let bare = temp_work_dir(&PathParts { root: String::new(), parts: vec![] }, "t");
    assert_eq!(bare.parts, vec![".", ".geoforge-task-t"]);
}

#[test]
fn existing_temp_is_refused_without_deleting_sentinel() {
    let error = existing_temp_message("/root/.geoforge-task-task-safe", None);
    assert!(error.contains("already exists"), "{error}");
    assert!(error.contains("refusing"), "{error}");
    assert!(error.contains("No checkpoint found."), "{error}");
}

#[test]
fn ownership_marker_mismatch_gives_detailed_error() {
    let error = ensure_owned_temp(&probe("task-check", Some("geoforge-task:wrong-id\n")))
        .expect_err("wrong marker must fail");
    assert!(error.contains("mismatch"), "{error}");
    assert!(error.contains("task-check"), "{error}");
    assert!(error.contains("wrong-id"), "{error}");
}

#[test]
fn missing_ownership_marker_gives_detailed_error() {
    let error = ensure_owned_temp(&probe("task-nomarker", None)).expect_err("missing marker must fail");
    assert!(error.contains("missing ownership marker"), "{error}");
    assert!(error.contains(TEMP_MARKER), "{error}");
}

#[test]
fn symlink_temp_is_rejected() {
    let p = TempDirProbe { is_symlink: true, ..probe("task-symlink", None) };
    let error = ensure_owned_temp(&p).expect_err("symlink must fail");
    assert!(error.contains("symlink"), "{error}");
    assert!(error.contains("security risk"), "{error}");
}

#[test]
fn checkpoint_write_and_read() {
    let text = checkpoint_file_text(Checkpoint::Converting);
    assert_eq!(text, "converting\n");
    assert_eq!(parse_checkpoint_file(&text), Some(Checkpoint::Converting));
    let text2 = checkpoint_file_text(Checkpoint::Validated);
    assert_eq!(parse_checkpoint_file(&text2), Some(Checkpoint::Validated));
}

#[test]
fn prepare_temp_includes_checkpoint() {
    let marker = ownership_marker_text("task-prep");
    assert_eq!(marker, "geoforge-task:task-prep\n");
    assert!(marker_matches(".geoforge-task-task-prep", &marker));
    assert!(ensure_owned_temp(&probe("task-prep", Some(&marker))).is_ok());
    assert_eq!(parse_checkpoint_file(&checkpoint_file_text(Checkpoint::Prepared)), Some(Checkpoint::Prepared));
}

#[test]
fn existing_temp_reports_last_checkpoint() {
    let error = existing_temp_message("/root/.geoforge-task-task-exist", Some(Checkpoint::Converting));
    assert!(error.contains("already exists"), "{error}");
    assert!(error.contains("Last checkpoint: converting"), "{error}");
}

#[test]
fn markers_with_crlf_still_match() {
    assert!(marker_matches(".geoforge-task-a1", "geoforge-task:a1\r\n"));
    assert!(!marker_matches("geoforge-task-a1", "geoforge-task:a1"));
    assert!(!owns_temp_dir(false, Some(".geoforge-task-a1"), Some("geoforge-task:a1")));
}
