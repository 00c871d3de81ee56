use slice_quote::error::OrcaError;
use slice_quote::pipeline::{profile_names, screen_upload, TelegramConfig};

#[test]
fn upload_with_good_name_and_contents() {
    let info = screen_upload(b"solid a\nendsolid a\n", "parts/Bracket.STL").ok().unwrap();
    assert_eq!(info.secure_filename, "partsBracket.STL");
    assert_eq!(info.file_type, "stl");
    assert!(info.is_valid);
}

#[test]
fn upload_with_bad_contents_is_a_result() {
    let info = screen_upload(b"v 1 2 3\n", "cube.obj").ok().unwrap();
    assert!(!info.is_valid);
    assert_eq!(info.secure_filename, "cube.obj");
    assert_eq!(
        info.error_message.as_deref(),
        Some("Invalid OBJ format - missing vertices or faces")
    );
    let info = screen_upload(b"data", "notes").ok().unwrap();
    assert_eq!(info.file_type, "unknown");
}

#[test]
fn upload_with_empty_name_is_an_error() {
    match screen_upload(b"solid\nendsolid", "//") {
        Err(OrcaError::InvalidFile { .. }) => {}
        _ => panic!(),
    }
}

#[test]
fn default_profile_names() {
    let (m, p) = profile_names(None, None);
    assert_eq!(m, "RatRig V-Core 3 400 0.5 nozzle.json");
    assert_eq!(p, "0.2mm RatRig 0.5mm nozzle.json");
    let (m, p) = profile_names(Some("a.json".to_string()), Some("b.json".to_string()));
    assert_eq!((m.as_str(), p.as_str()), ("a.json", "b.json"));
}

#[test]
fn telegram_config_keeps_fields() {
    let c = TelegramConfig::new("t".into(), "c".into(), "n".into(), "m".into());
    assert_eq!((c.token.as_str(), c.chat_id.as_str()), ("t", "c"));
    assert_eq!((c.customer_name.as_str(), c.customer_mobile.as_str()), ("n", "m"));
}
