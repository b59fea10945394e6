use dwg::gltf::{
    encode_glb, gltf_json, json_escape, GltfFormat, GltfMaterialRecord, GltfMeshRecord, GltfNodeRecord, PrimitiveMode,
};

#[test]
fn json_escape_handles_structural_characters() {
    assert_eq!(json_escape("a\"b"), "a\\\"b");
    assert_eq!(json_escape("a\\b"), "a\\\\b");
    assert_eq!(json_escape("a\nb"), "a\\nb");
    assert_eq!(json_escape("a\tb"), "a\\tb");
    assert_eq!(json_escape("plain"), "plain");
}

#[test]
fn convert_format_enum_variants_exist() {
    let _gltf = GltfFormat::Gltf;
    let _glb = GltfFormat::Glb;
}

#[test]
fn json_escape_writes_other_controls_as_unicode_escapes() {
    assert_eq!(json_escape("\u{1}x\u{1f}"), "\\u0001x\\u001f");
    assert_eq!(json_escape("é"), "é");
}

#[test]
fn primitive_mode_codes() {
    assert_eq!(PrimitiveMode::Lines.as_gltf_code(), 1);
    assert_eq!(PrimitiveMode::Triangles.as_gltf_code(), 4);
}

#[test]
fn glb_layout_is_exact() {
    let glb = encode_glb(b"{}", &[1, 2, 3, 4, 5]);
    assert_eq!(&glb[0..4], b"glTF");
    assert_eq!(u32::from_le_bytes(glb[4..8].try_into().unwrap()), 2);
    assert_eq!(u32::from_le_bytes(glb[8..12].try_into().unwrap()) as usize, glb.len());
    assert_eq!(glb.len(), 12 + 8 + 4 + 8 + 8);
    assert_eq!(&glb[16..20], b"JSON");
    assert_eq!(&glb[20..24], b"{}  ");
    assert_eq!(&glb[28..32], &[0x42, 0x49, 0x4E, 0x00]);
    assert_eq!(&glb[32..40], &[1, 2, 3, 4, 5, 0, 0, 0]);
    assert_eq!(encode_glb(b"{}", &[]).len(), 24);
}

fn texts(xs: &[&str]) -> Vec<String> {
    xs.iter().map(|x| x.to_string()).collect()
}

fn triangle_record(name: &str) -> GltfMeshRecord {
    GltfMeshRecord {
        name: name.to_string(),
        material_index: 0,
        vertex_count: 3,
        index_count: 3,
        mode: PrimitiveMode::Triangles,
        pos_min: texts(&["0", "0", "0"]),
        pos_max: texts(&["1", "1", "0"]),
    }
}

fn white() -> GltfMaterialRecord {
    GltfMaterialRecord { name: "m".to_string(), base_color: texts(&["1", "1", "1", "1"]) }
}

#[test]
fn gltf_json_empty_document_is_exact() {
    let json = gltf_json("empty_scene", &[], &[], &[], 0);
    assert_eq!(
        json,
        "{\n  \"asset\": { \"version\": \"2.0\", \"generator\": \"dwg glTF writer\" },\n  \"scene\": 0,\n  \"scenes\": [ { \"name\": \"empty_scene\", \"nodes\": [] } ],\n  \"nodes\": [\n  ],\n  \"meshes\": [\n  ],\n  \"materials\": [\n  ],\n  \"buffers\": [ { \"byteLength\": 0 } ],\n  \"bufferViews\": [\n  ],\n  \"accessors\": [\n  ]\n}"
    );
    assert!(json.starts_with('{'));
    assert!(json.ends_with('}'));
}

#[test]
fn gltf_json_one_triangle_mesh() {
    let meshes = [triangle_record("triangle")];
    let nodes = [GltfNodeRecord { mesh_index: 0, matrix: None }];
    let json = gltf_json("s", &meshes, &nodes, &[white()], 48);
    assert!(json.contains("\"nodes\": [0]"));
    assert!(json.contains("\"name\": \"triangle\""));
    assert!(json.contains("\"POSITION\": 0"));
    assert!(json.contains("\"indices\": 1"));
    assert!(json.contains("\"material\": 0"));
    assert!(json.contains("\"mode\": 4"));
    assert!(json.contains("{ \"buffer\": 0, \"byteOffset\": 0, \"byteLength\": 36, \"target\": 34962 }"));
    assert!(json.contains("{ \"buffer\": 0, \"byteOffset\": 36, \"byteLength\": 12, \"target\": 34963 }"));
    assert!(json.contains("\"componentType\": 5126, \"count\": 3, \"type\": \"VEC3\", \"min\": [0, 0, 0], \"max\": [1, 1, 0]"));
    assert!(json.contains("\"componentType\": 5125, \"count\": 3, \"type\": \"SCALAR\""));
    assert!(json.contains("\"baseColorFactor\": [1, 1, 1, 1], \"metallicFactor\": 0.0, \"roughnessFactor\": 0.8"));
    assert!(json.contains("\"byteLength\": 48 }"));
    assert!(!json.contains("\"matrix\""));
}

#[test]
fn gltf_json_second_mesh_uses_next_accessors_and_offsets() {
    let meshes = [triangle_record("a"), triangle_record("b")];
    let nodes = [GltfNodeRecord { mesh_index: 0, matrix: None }, GltfNodeRecord { mesh_index: 1, matrix: None }];
    let json = gltf_json("s", &meshes, &nodes, &[white()], 96);
    assert!(json.contains("\"nodes\": [0, 1]"));
    assert!(json.contains("\"POSITION\": 2"));
    assert!(json.contains("\"indices\": 3"));
    assert!(json.contains("\"byteOffset\": 48, \"byteLength\": 36, \"target\": 34962"));
    assert!(json.contains("\"byteOffset\": 84, \"byteLength\": 12, \"target\": 34963"));
    assert!(json.contains("{ \"bufferView\": 3, \"componentType\": 5125"));
}

#[test]
fn gltf_json_line_mesh_and_matrix() {
    let meshes = [GltfMeshRecord {
        name: "polyline".to_string(),
        material_index: 0,
        vertex_count: 3,
        index_count: 4,
        mode: PrimitiveMode::Lines,
        pos_min: texts(&["0", "0", "0"]),
        pos_max: texts(&["2", "2", "2"]),
    }];
    let m: Vec<String> = (0..16).map(|k| if k % 5 == 0 { "1".to_string() } else { "0".to_string() }).collect();
    let nodes = [GltfNodeRecord { mesh_index: 0, matrix: Some(m) }];
    let json = gltf_json("scene \"quoted\"", &meshes, &nodes, &[white()], 52);
    assert!(json.contains("\"mode\": 1"));
    assert!(json.contains("\"componentType\": 5125, \"count\": 4"));
    assert!(json.contains("\"byteOffset\": 36, \"byteLength\": 16, \"target\": 34963"));
    assert!(json.contains("\"name\": \"scene \\\"quoted\\\"\""));
    assert!(json.contains(
        "{ \"mesh\": 0, \"matrix\": [1, 0, 0, 0, 0, 1, 0, 0, 0, 0, 1, 0, 0, 0, 0, 1] }"
    ));
}
