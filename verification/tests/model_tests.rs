use geoforge::model::{
    model_scan_report, mtl_texture_references, obj_material_libraries, resource_candidates,
    MaterialFacts, ModelFacts, MtlTextureFacts,
};
use geoforge::path_policy::PathParts;

fn obj(libraries: Vec<MaterialFacts>) -> ModelFacts {
    ModelFacts {
        input_display: "/m/building.obj".to_string(),
        is_file: true,
        extension: Some("obj".to_string()),
        libraries: Ok(libraries),
    }
}

fn p(parts: &[&str]) -> PathParts {
    PathParts { root: "/".to_string(), parts: parts.iter().map(|s| s.to_string()).collect() }
}

#[test]
fn reports_missing_obj_material_library() {
    let text = "mtllib missing.mtl\nv 0 0 0\n";
    assert_eq!(obj_material_libraries(text), vec!["missing.mtl"]);
    let r = model_scan_report(&obj(vec![MaterialFacts {
        reference: "missing.mtl".to_string(),
        path_display: "/m/missing.mtl".to_string(),
        exists: false,
        textures: Ok(Vec::new()),
    }]));
    assert!(!r.valid);
    assert!(r.errors[0].contains("missing"));
}

#[test]
fn resolves_obj_mtl_textures_from_configured_roots() {
    assert_eq!(mtl_texture_references("newmtl m\nmap_Kd nested/roof.png\n"), vec!["nested/roof.png"]);
    let candidates = resolve_candidates();
    assert_eq!(candidates[0].parts, vec!["m", "model", "nested", "roof.png"]);
    assert_eq!(candidates[1].parts, vec!["m", "model", "roof.png"]);
    assert_eq!(candidates[2].parts, vec!["m", "shared-assets", "nested", "roof.png"]);
    assert_eq!(candidates[3].parts, vec!["m", "shared-assets", "roof.png"]);
    let r = model_scan_report(&obj(vec![MaterialFacts {
        reference: "building.mtl".to_string(),
        path_display: "/m/model/building.mtl".to_string(),
        exists: true,
        textures: Ok(vec![MtlTextureFacts {
            reference: "nested/roof.png".to_string(),
            path_display: "/m/shared-assets/nested/roof.png".to_string(),
            exists: true,
        }]),
    }]));
    assert!(r.valid, "{:?}", r.errors);
    assert_eq!(r.format.as_deref(), Some("obj"));
}

fn resolve_candidates() -> Vec<PathParts> {
    let requested = PathParts { root: String::new(), parts: vec!["nested".to_string(), "roof.png".to_string()] };
    resource_candidates(&p(&["m", "model"]), &requested, &vec![p(&["m", "shared-assets"])])
}

#[test]
fn reports_missing_mtl_texture() {
    let r = model_scan_report(&obj(vec![MaterialFacts {
        reference: "building.mtl".to_string(),
        path_display: "/m/building.mtl".to_string(),
        exists: true,
        textures: Ok(vec![MtlTextureFacts {
            reference: "missing.png".to_string(),
            path_display: "/m/missing.png".to_string(),
            exists: false,
        }]),
    }]));
    assert!(!r.valid);
    assert!(r.errors.iter().any(|e| e.contains("MTL texture")));
}

#[test]
fn unsupported_and_library_free_models() {
    let fbx = ModelFacts {
        input_display: "/m/a.FBX".to_string(),
        is_file: true,
        extension: Some("FBX".to_string()),
        libraries: Ok(Vec::new()),
    };
    let r = model_scan_report(&fbx);
    assert!(r.valid);
    assert_eq!(r.format.as_deref(), Some("fbx"));
    let glb = ModelFacts { extension: Some("glb".to_string()), ..fbx };
    assert_eq!(model_scan_report(&glb).errors, vec!["Only .fbx and .obj model files are supported"]);
    let bare = model_scan_report(&obj(Vec::new()));
    assert!(bare.valid);
    assert_eq!(bare.warnings, vec!["OBJ has no mtllib reference; it will convert without MTL materials"]);
}
