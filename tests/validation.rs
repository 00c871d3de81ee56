use slice_quote::validate::{
    has_endsolid, obj_text_problem, step_text_problem, validate_3d_file, validate_obj_contents,
    validate_step_contents, validate_stl_contents, FileInfo,
};

fn binary_stl(count_field: u32, triangles: usize) -> Vec<u8> {
    let mut b = vec![0u8; 80];
    b.extend_from_slice(&count_field.to_le_bytes());
    b.extend(std::iter::repeat(7u8).take(50 * triangles));
    b
}

fn chars(s: &str) -> Vec<char> {
    s.chars().collect()
}

#[test]
fn stl_under_five_bytes_is_too_small() {
    let info = validate_stl_contents(b"sol");
    assert!(!info.is_valid);
    assert_eq!(info.file_type, "stl");
    assert_eq!(info.file_size, 3);
    assert_eq!(info.error_message.as_deref(), Some("File too small to be valid STL"));
}

#[test]
fn short_binary_stl_is_too_small() {
    for len in [5usize, 40, 83] {
        let info = validate_3d_file(&vec![1u8; len], "stl");
        assert!(!info.is_valid);
        let msg = info.error_message.unwrap();
        assert!(msg.contains("too small"), "{}", msg);
        assert_eq!(msg, "Binary STL too small");
    }
    let empty = validate_3d_file(&[], "STL");
    assert!(empty.error_message.unwrap().contains("too small"));
}

#[test]
fn binary_stl_with_matching_size_is_valid() {
    let info = validate_stl_contents(&binary_stl(2, 2));
    assert!(info.is_valid);
    assert_eq!(info.file_size, 184);
    assert_eq!(info.error_message, None);
    assert!(validate_stl_contents(&binary_stl(0, 0)).is_valid);
}

#[test]
fn binary_stl_one_byte_more_is_a_mismatch() {
    let mut b = binary_stl(2, 2);
    b.push(0);
    let info = validate_stl_contents(&b);
    assert!(!info.is_valid);
    assert_eq!(
        info.error_message.as_deref(),
        Some("Binary STL size mismatch. Expected 184, got 185")
    );
}

#[test]
fn binary_stl_one_byte_less_is_a_mismatch() {
    let mut b = binary_stl(2, 2);
    b.pop();
    let info = validate_stl_contents(&b);
    assert_eq!(
        info.error_message.as_deref(),
        Some("Binary STL size mismatch. Expected 184, got 183")
    );
}

#[test]
fn binary_stl_with_other_count_is_a_mismatch() {
    let info = validate_stl_contents(&binary_stl(3, 2));
    assert!(!info.is_valid);
    assert_eq!(
        info.error_message.as_deref(),
        Some("Binary STL size mismatch. Expected 234, got 184")
    );
    let info = validate_stl_contents(&binary_stl(1, 2));
    assert_eq!(
        info.error_message.as_deref(),
        Some("Binary STL size mismatch. Expected 134, got 184")
    );
}

#[test]
fn binary_stl_largest_count_does_not_overflow() {
    let info = validate_stl_contents(&binary_stl(u32::MAX, 0));
    assert_eq!(
        info.error_message.as_deref(),
        Some("Binary STL size mismatch. Expected 214748364834, got 84")
    );
}

#[test]
fn text_stl_with_endsolid_is_valid() {
    let text = "solid x\nfacet normal 0 0 1\n  outer loop\n  endloop\nendfacet\n   endsolid x  \r\n";
    let info = validate_stl_contents(text.as_bytes());
    assert!(info.is_valid);
    assert_eq!(info.error_message, None);
    assert!(validate_stl_contents(b"solid x\nendsolid").is_valid);
}

#[test]
fn text_stl_without_endsolid_is_invalid() {
    let info = validate_stl_contents(b"solid x\nfacet normal 0 0 1\nendfacet\n");
    assert!(!info.is_valid);
    assert_eq!(info.error_message.as_deref(), Some("Invalid ASCII STL - missing endsolid"));
    assert!(!validate_stl_contents(b"solid x endsolid\n").is_valid);
}

#[test]
fn text_stl_check_on_characters() {
    assert!(has_endsolid(&chars("solid a\n\t endsolid a")));
    assert!(!has_endsolid(&chars("solid a\nxendsolid")));
    assert!(!has_endsolid(&chars("")));
}

#[test]
fn text_stl_with_invalid_utf8_is_still_read() {
    let mut b = b"solid \xff\xfe\n".to_vec();
    b.extend_from_slice(b"endsolid\n");
    assert!(validate_stl_contents(&b).is_valid);
}

#[test]
fn obj_needs_vertices_and_faces() {
    let ok = validate_obj_contents(b"# cube\nv 0 0 0\nv 1 0 0\n  f 1 2 3\n");
    assert!(ok.is_valid);
    assert_eq!(ok.file_type, "obj");
    let no_faces = validate_obj_contents(b"v 0 0 0\nvn 0 0 1\n");
    assert!(!no_faces.is_valid);
    assert_eq!(
        no_faces.error_message.as_deref(),
        Some("Invalid OBJ format - missing vertices or faces")
    );
    assert!(obj_text_problem(&chars("f 1 2 3\nv 1 1 1")).is_none());
    assert!(obj_text_problem(&chars("vt 0 0\nf 1 2 3")).is_some());
}

#[test]
fn obj_with_invalid_utf8_is_still_read() {
    assert!(validate_obj_contents(b"v 0 0 0 \xff\nf 1 2 3\n").is_valid);
}

#[test]
fn step_complete_file_is_valid() {
    let text = "\n  ISO-10303-21;\nHEADER;\nFILE_NAME('a');\nENDSEC;\nDATA;\n#1=X();\nENDSEC;\nEND-ISO-10303-21;\n";
    let info = validate_step_contents(text.as_bytes());
    assert!(info.is_valid, "{:?}", info.error_message);
    assert_eq!(info.file_type, "step");
}

#[test]
fn step_lists_missing_parts_in_order() {
    let info = validate_step_contents(b"HEADER;\nDATA;\n");
    assert_eq!(
        info.error_message.as_deref(),
        Some("Invalid STEP format - missing: ISO header, END-ISO section")
    );
    let info = validate_step_contents(b"");
    assert_eq!(
        info.error_message.as_deref(),
        Some("Invalid STEP format - missing: ISO header, HEADER section, DATA section, END-ISO section")
    );
    let p = step_text_problem(&chars("ISO-10303-21;\nHEADER ;\nDATA;\nEND-ISO-10303-21;"));
    assert_eq!(p.as_deref(), Some("Invalid STEP format - missing: HEADER section"));
}

#[test]
fn extension_dispatch_ignores_case() {
    let step = b"ISO-10303-21;\nHEADER;\nDATA;\nEND-ISO-10303-21;\n";
    assert!(validate_3d_file(step, "STP").is_valid);
    assert!(validate_3d_file(step, "Step").is_valid);
    assert_eq!(validate_3d_file(step, "stp").file_type, "step");
    assert_eq!(validate_3d_file(b"v 1 2 3\nf 1 1 1", "OBJ").file_type, "obj");
}

#[test]
fn unknown_extension_is_unsupported() {
    let info = validate_3d_file(b"anything", "3mf");
    assert_eq!(info.file_type, "unknown");
    assert_eq!(info.file_size, 8);
    assert!(!info.is_valid);
    assert_eq!(info.error_message.as_deref(), Some("Unsupported file type"));
    assert_eq!(info.secure_filename, "");
}

#[test]
fn file_info_summary_and_model_info() {
    let info = FileInfo {
        file_type: "stl".to_string(),
        file_size: 184,
        is_valid: true,
        error_message: None,
        secure_filename: "part.stl".to_string(),
    };
    assert_eq!(info.describe(), "FileInfo(type=stl, size=184, valid=true, filename=part.stl)");
    let model = info.to_model_info();
    assert_eq!(model.file_type, "stl");
    assert_eq!(model.file_size, 184);
    assert!(model.is_valid);
}
