use geoforge::path_policy::{
    resolve_input_root, validate_io_paths, InputProbe, OutputProbe, PathParts,
};

fn path(parts: &[&str]) -> PathParts {
    PathParts { root: "/".to_string(), parts: parts.iter().map(|s| s.to_string()).collect() }
}

fn dir(parts: &[&str]) -> InputProbe {
    InputProbe::Directory { path: path(parts) }
}

fn out(parts: &[&str], exists: bool) -> OutputProbe {
    OutputProbe::Resolved { path: path(parts), display: format!("/{}", parts.join("/")), exists }
}

#[test]
fn rejects_output_inside_input() {
    let err = validate_io_paths("/base/in", dir(&["base", "in"]), out(&["base", "in", "out"], false), "task-abc", false)
        .unwrap_err();
    assert!(err.contains("inside"), "{err}");
}

#[test]
fn rejects_same_path() {
    let err = validate_io_paths("/base/same", dir(&["base", "same"]), out(&["base", "same"], true), "task-abc", false)
        .unwrap_err();
    assert!(err.contains("equal"), "{err}");
}

#[test]
fn rejects_existing_output() {
    let err = validate_io_paths("/base/in", dir(&["base", "in"]), out(&["base", "out"], true), "task-abc", false)
        .unwrap_err();
    assert!(err.contains("already exists"), "{err}");
}

#[test]
fn accepts_sibling_output() {
    let v = validate_io_paths("/base/data in", dir(&["base", "data in"]), out(&["base", "data out"], false), "task-ok1", false)
        .unwrap();
    assert_eq!(v.output.parts, vec!["base", "data out"]);
    assert_eq!(v.task_id, "task-ok1");
}

#[test]
fn rejects_output_around_input() {
    let err = validate_io_paths("/base/in", dir(&["base", "in"]), out(&["base"], false), "task-abc", false)
        .unwrap_err();
    assert_eq!(err, "output path must not contain the input data root");
}

#[test]
fn folds_case_only_on_request() {
    let folded = validate_io_paths("/Base/In", dir(&["Base", "In"]), out(&["base", "in", "x"], false), "t", true);
    assert!(folded.is_err());
    let exact = validate_io_paths("/Base/In", dir(&["Base", "In"]), out(&["base", "in", "x"], false), "t", false);
    assert!(exact.is_ok());
}

#[test]
fn input_roots_and_their_errors() {
    assert_eq!(
        resolve_input_root("/x", InputProbe::Missing).unwrap_err(),
        "input does not exist: /x"
    );
    let file = InputProbe::File { path: path(&["d", "TileSet.JSON"]), display: "/d/TileSet.JSON".to_string() };
    assert_eq!(resolve_input_root("/d/TileSet.JSON", file).unwrap().parts, vec!["d"]);
    let other = InputProbe::File { path: path(&["d", "a.txt"]), display: "/d/a.txt".to_string() };
    assert_eq!(
        resolve_input_root("/d/a.txt", other).unwrap_err(),
        "input must be a directory or tileset.json, got file: /d/a.txt"
    );
    let bad_id = validate_io_paths("/base/in", dir(&["base", "in"]), out(&["base", "o"], false), "../x", false);
    assert!(bad_id.is_err());
}
