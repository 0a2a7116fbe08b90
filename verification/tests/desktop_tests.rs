use geoforge::bridge::{apply_poll, FollowedTask, PollReport};
use geoforge::desktop::{processor_candidates, submit_precheck, NO_PROCESSOR_MESSAGE};
use geoforge::path_policy::PathParts;
use geoforge::texture::normalize_lowered;
use geoforge::validator::{ValidationCode, ValidationReport};

fn path(parts: &[&str]) -> PathParts {
    PathParts { root: "/".to_string(), parts: parts.iter().map(|s| s.to_string()).collect() }
}

fn parts(p: &PathParts) -> Vec<String> {
    p.parts.clone()
}

#[test]
fn submission_without_processor_fails_explicitly() {
    assert_eq!(
        submit_precheck(false, Ok(())).unwrap_err(),
        "找不到 processor 组件，无法创建任务。请修复安装或设置环境变量 GEOFORGE_PROCESSOR。"
    );
    assert_eq!(submit_precheck(false, Err("x".to_string())).unwrap_err(), NO_PROCESSOR_MESSAGE);
    assert!(submit_precheck(true, Ok(())).is_ok());
    assert_eq!(
        submit_precheck(true, Err("output path must not equal input data root".to_string())).unwrap_err(),
        "路径校验失败: output path must not equal input data root"
    );
}

#[test]
fn processor_is_looked_for_in_order() {
    let c = processor_candidates(Some(path(&["opt", "p"])), Some(path(&["app"])), Some(path(&["w"])));
    let got: Vec<Vec<String>> = c.iter().map(parts).collect();
    let want: Vec<Vec<&str>> = vec![
        vec!["opt", "p"],
        vec!["app", "processor"],
        vec!["app", "processor.exe"],
        vec!["app", "..", "..", "..", "target", "debug", "processor"],
        vec!["app", "..", "..", "..", "target", "debug", "processor.exe"],
        vec!["app", "..", "..", "..", "target", "release", "processor"],
        vec!["app", "..", "..", "..", "target", "release", "processor.exe"],
        vec!["w", "target", "debug", "processor"],
        vec!["w", "target", "debug", "processor.exe"],
        vec!["w", "target", "release", "processor"],
        vec!["w", "target", "release", "processor.exe"],
        vec!["target", "debug", "processor"],
        vec!["target", "debug", "processor.exe"],
        vec!["target", "release", "processor"],
        vec!["target", "release", "processor.exe"],
    ];
    assert_eq!(got, want);
    let deep = processor_candidates(None, None, Some(path(&["a", "b", "c", "d", "e", "f", "g", "h", "i"])));
    assert_eq!(deep.len(), 32);
    assert_eq!(parts(&deep[28])[0..2], ["a".to_string(), "b".to_string()]);
    assert!(processor_candidates(None, None, None).is_empty());
}

#[test]
fn poll_replaces_the_progress() {
    let t = FollowedTask {
        status: "running".to_string(),
        stage: "convert".to_string(),
        error: None,
        log: String::new(),
        progress: "{}".to_string(),
        finished: false,
    };
    let p = PollReport {
        status: Some("succeeded".to_string()),
        stage: Some(String::new()),
        error: None,
        log: None,
        progress: Some("{\"completed\":4,\"total\":4}".to_string()),
    };
    let r = apply_poll(t, p);
    assert_eq!(r.progress, "{\"completed\":4,\"total\":4}");
    assert_eq!(r.stage, "convert");
    assert!(r.finished);
}

#[test]
fn lowered_mode_is_normalized() {
    assert_eq!(normalize_lowered("  passthrough "), "keep");
    assert_eq!(normalize_lowered("etc1s"), "ktx2-etc1s");
    assert_eq!(normalize_lowered(" uastc"), "ktx2-uastc");
    assert_eq!(normalize_lowered(" custom-mode "), "custom-mode");
    assert_eq!(normalize_lowered("KEEP"), "KEEP");
}

#[test]
fn report_counts_every_finding() {
    let mut r = ValidationReport::new("root");
    r.add_error(ValidationCode::RootMissing, "a", "e");
    r.add_warning(ValidationCode::RefineInvalid, "b", "w");
    r.add_warning(ValidationCode::RefineInvalid, "c", "w");
    assert_eq!(r.issues.len() as u64, r.error_count + r.warning_count);
    assert!(!r.ok);
}

#[test]
fn normalizing_a_normalized_mode_changes_nothing() {
    for m in ["  etc1s ", "none", "", " custom ", "ktx2-uastc", "\tkeep\n"] {
        let once = normalize_lowered(m);
        assert_eq!(normalize_lowered(&once), once);
    }
}
