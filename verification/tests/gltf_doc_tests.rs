use geoforge::gltf_doc::{
    b3dm_with_glb, encode_mime, encode_plan_of, glb_encode_plan, glb_rewrite, gltf_output, read_gltf,
    rewrite_gltf_document,
};
use geoforge::gltf_textures::ImageSource;
use geoforge::json::JsonValue;
use geoforge::texture_ktx2::build_glb;
use serde_json::Value;

/// The `serde_json` value a library JSON value stands for.
fn to_value(v: &JsonValue) -> Value {
    match v {
        JsonValue::Null => Value::Null,
        JsonValue::Bool(b) => Value::Bool(*b),
        JsonValue::Number(t) => serde_json::from_str(t).unwrap(),
        JsonValue::Str(s) => Value::String(s.clone()),
        JsonValue::Array(a) => Value::Array(a.iter().map(to_value).collect()),
        JsonValue::Object(m) => Value::Object(m.iter().map(|(k, x)| (k.clone(), to_value(x))).collect()),
    }
}

fn j(text: &str) -> Value {
    serde_json::from_str(text).unwrap()
}

fn doc(text: &str) -> JsonValue {
    read_gltf(text).unwrap().0
}

const ONE_IMAGE: &str = r#"{
    "asset": {"version": "2.0"},
    "buffers": [{"byteLength": 8, "uri": "model.bin"}],
    "bufferViews": [
        {"buffer": 0, "byteOffset": 0, "byteLength": 4},
        {"buffer": 0, "byteOffset": 4, "byteLength": 4, "target": 34962}
    ],
    "images": [{"mimeType": "image/png", "bufferView": 0, "name": "albedo"}],
    "textures": [{"source": 0, "sampler": 0}]
}"#;

#[test]
fn rewrite_replaces_the_image_and_lays_the_buffer_out_again() {
    let bin = vec![1u8, 2, 3, 4, 5, 6, 7, 8];
    let (d2, b2, n) = rewrite_gltf_document(doc(ONE_IMAGE), &bin, vec![Some(vec![9u8; 5])]).unwrap();
    assert_eq!(n, 1);
    assert_eq!(b2, vec![9, 9, 9, 9, 9, 0, 0, 0, 5, 6, 7, 8]);
    let v = to_value(&d2);
    assert_eq!(v["images"], j(r#"[{"mimeType": "image/ktx2", "bufferView": 0}]"#));
    assert_eq!(
        v["bufferViews"],
        j(r#"[ {"buffer": 0, "byteOffset": 0, "byteLength": 5}, {"buffer": 0, "byteOffset": 8, "byteLength": 4, "target": 34962} ]"#)
    );
    assert_eq!(v["buffers"], j(r#"[{"byteLength": 12}]"#));
    assert_eq!(
        v["textures"],
        j(r#"[{"source": 0, "sampler": 0, "extensions": {"KHR_texture_basisu": {"source": 0}}}]"#)
    );
    assert_eq!(v["extensionsUsed"], j(r#"["KHR_texture_basisu"]"#));
    assert_eq!(v["extensionsRequired"], j(r#"["KHR_texture_basisu"]"#));
    assert_eq!(v["asset"], j(r#"{"version": "2.0"}"#));
}

#[test]
fn rewrite_gives_an_image_without_view_a_new_view() {
    let text = r#"{
        "bufferViews": [{"buffer": 0, "byteOffset": 0, "byteLength": 2}],
        "images": [{"uri": "a.png"}, {"uri": "b.jpg"}],
        "textures": [{"source": 1}, {"source": 0}],
        "extensionsUsed": ["KHR_texture_basisu", "KHR_materials_unlit"]
    }"#;
    let bin = vec![7u8, 7];
    let (d2, b2, n) = rewrite_gltf_document(doc(text), &bin, vec![None, Some(vec![1u8, 2, 3])]).unwrap();
    assert_eq!(n, 1);
    assert_eq!(b2, vec![7, 7, 0, 0, 1, 2, 3]);
    let v = to_value(&d2);
    assert_eq!(v["images"][0], j(r#"{"uri": "a.png"}"#));
    assert_eq!(v["images"][1], j(r#"{"mimeType": "image/ktx2", "bufferView": 1}"#));
    assert_eq!(v["bufferViews"][1], j(r#"{"buffer": 0, "byteOffset": 4, "byteLength": 3}"#));
    assert_eq!(v["buffers"], j(r#"[{"byteLength": 7}]"#));
    assert_eq!(v["textures"][0]["extensions"]["KHR_texture_basisu"]["source"], j(r#"1"#));
    assert_eq!(v["textures"][1], j(r#"{"source": 0}"#));
    assert_eq!(v["extensionsUsed"], j(r#"["KHR_texture_basisu", "KHR_materials_unlit"]"#));
    assert_eq!(v["extensionsRequired"], j(r#"["KHR_texture_basisu"]"#));
}

#[test]
fn rewrite_without_encoded_images_changes_nothing() {
    let bin = vec![1u8, 2, 3, 4, 5, 6, 7, 8];
    let (d2, b2, n) = rewrite_gltf_document(doc(ONE_IMAGE), &bin, vec![None]).unwrap();
    assert_eq!(n, 0);
    assert_eq!(b2, bin);
    assert_eq!(to_value(&d2), to_value(&doc(ONE_IMAGE)));
}

#[test]
fn plan_reports_sources_and_the_first_broken_image() {
    let text = r#"{
        "bufferViews": [{"byteOffset": 2, "byteLength": 3}, {"byteOffset": 0}],
        "images": [
            {"mimeType": "IMAGE/KTX2", "bufferView": 0},
            {"bufferView": 0},
            {"uri": "data:image/png;base64,AAAA"},
            {"uri": "tex/a.png"}
        ]
    }"#;
    let (plan, broken) = encode_plan_of(&doc(text), 5, true);
    assert_eq!(broken, None);
    assert_eq!(plan.len(), 4);
    assert_eq!(plan[0].source, ImageSource::Skip);
    assert_eq!(plan[0].mime, "image/ktx2");
    assert_eq!(plan[1].source, ImageSource::Bin { offset: 2, length: 3 });
    assert_eq!(plan[1].mime, "");
    assert_eq!(plan[2].source, ImageSource::Skip);
    assert_eq!(plan[3].source, ImageSource::External { uri: "tex/a.png".to_string() });
    let (before, broken) = encode_plan_of(&doc(text), 4, true);
    assert_eq!(before.len(), 1);
    assert_eq!(before[0].source, ImageSource::Skip);
    assert_eq!(broken.as_deref(), Some("bufferView 0 out of range"));
    let bad = r#"{"images": [{"uri": "a.png"}, {"bufferView": 3}, {"uri": "b.png"}]}"#;
    let (first, err) = encode_plan_of(&doc(bad), 5, true);
    assert_eq!(first.len(), 1);
    assert_eq!(err.as_deref(), Some("bad bufferView 3"));
    let no_len = r#"{"bufferViews": [{"byteOffset": 0}], "images": [{"bufferView": 0}]}"#;
    assert_eq!(encode_plan_of(&doc(no_len), 5, false).1.as_deref(), Some("bufferView missing byteLength"));
}

#[test]
fn gltf_text_is_read_with_its_buffer_file() {
    let (_, uri) = read_gltf(ONE_IMAGE).unwrap();
    assert_eq!(uri.as_deref(), Some("model.bin"));
    let (_, none) = read_gltf(r#"{"buffers": [{"uri": "data:application/octet-stream;base64,AA=="}]}"#).unwrap();
    assert_eq!(none, None);
    assert!(read_gltf("{not json").is_err());
}

#[test]
fn glb_round_trip_through_the_rewrite() {
    let json = br#"{"buffers":[{"byteLength":4}],"bufferViews":[{"buffer":0,"byteOffset":0,"byteLength":4}],"images":[{"bufferView":0}]}"#;
    let png = [0x89u8, b'P', b'N', b'G'];
    let glb = build_glb(json, &png);
    let (d, bin, plan, broken) = glb_encode_plan(&glb).unwrap();
    assert_eq!(broken, None);
    assert_eq!(bin, png.to_vec());
    assert_eq!(plan[0].source, ImageSource::Bin { offset: 0, length: 4 });
    let (out, n) = glb_rewrite(&glb, d, &bin, vec![Some(vec![0xab, 0x4b, 0x54, 0x58])]).unwrap();
    assert_eq!(n, 1);
    let (d2, bin2, _, _) = glb_encode_plan(&out).unwrap();
    assert_eq!(bin2, vec![0xab, 0x4b, 0x54, 0x58]);
    assert_eq!(to_value(&d2)["images"][0]["mimeType"], "image/ktx2");
    let (d3, bin3, _, _) = glb_encode_plan(&glb).unwrap();
    let (same, zero) = glb_rewrite(&glb, d3, &bin3, vec![None]).unwrap();
    assert_eq!(zero, 0);
    assert_eq!(same, glb);
    assert_eq!(glb_encode_plan(b"glTF").unwrap_err(), "not glb");
}

#[test]
fn b3dm_header_takes_the_new_length() {
    let mut header = b"b3dm".to_vec();
    header.extend_from_slice(&1u32.to_le_bytes());
    header.extend_from_slice(&0u32.to_le_bytes());
    header.extend_from_slice(&[0u8; 16]);
    let out = b3dm_with_glb(&header, &[1, 2, 3, 4]);
    assert_eq!(out.len(), 32);
    assert_eq!(&out[8..12], &32u32.to_le_bytes());
    assert_eq!(&out[28..], &[1, 2, 3, 4]);
    assert_eq!(&out[..8], &header[..8]);
}

#[test]
fn gltf_output_points_buffer_zero_at_its_file() {
    let (d2, b2, _) =
        rewrite_gltf_document(doc(ONE_IMAGE), &[1u8, 2, 3, 4, 5, 6, 7, 8], vec![Some(vec![9u8; 5])]).unwrap();
    let (text, uri) = gltf_output(d2, b2.len(), "scene.bin");
    assert_eq!(uri, "scene.bin");
    let v: Value = serde_json::from_str(&text).unwrap();
    assert_eq!(v["buffers"], j(r#"[{"byteLength": 12, "uri": "scene.bin"}]"#));
    let keep = doc(r#"{"buffers": [{"byteLength": 1, "uri": "old.bin"}]}"#);
    let (_, kept) = gltf_output(keep, 3, "scene.bin");
    assert_eq!(kept, "old.bin");
    let (text3, uri3) = gltf_output(doc("{}"), 3, "scene.bin");
    assert_eq!(uri3, "scene.bin");
    let v3: Value = serde_json::from_str(&text3).unwrap();
    assert_eq!(v3["buffers"], j(r#"[{"byteLength": 3, "uri": "scene.bin"}]"#));
}

#[test]
fn encode_mime_follows_declaration_extension_and_signature() {
    assert_eq!(encode_mime("image/png", &[], None).as_deref(), Some("image/png"));
    assert_eq!(encode_mime("", &[0xff, 0xd8, 0xff], None).as_deref(), Some("image/jpeg"));
    assert_eq!(encode_mime("", &[], Some("webp")).as_deref(), Some("image/webp"));
    assert_eq!(encode_mime("image/ktx2", &[], None), None);
    assert_eq!(encode_mime("text/plain", &[], None), None);
}
