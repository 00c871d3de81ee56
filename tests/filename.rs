use slice_quote::error::OrcaError;
use slice_quote::filename::validate_filename;

fn ok(name: &str) -> String {
    validate_filename(name).unwrap_or_else(|_| panic!("rejected {:?}", name))
}

#[test]
fn separators_and_unsafe_characters_are_removed() {
    assert_eq!(ok("../etc/passwd"), "..etcpasswd");
    assert_eq!(ok("a:b*c?.stl"), "abc.stl");
    assert_eq!(ok("dir\\part\0.stl"), "dirpart.stl");
}

#[test]
fn whitespace_is_trimmed() {
    assert_eq!(ok("  model.stl \t"), "model.stl");
    assert_eq!(ok("/ model.stl"), "model.stl");
}

#[test]
fn separators_only_are_rejected() {
    for name in ["/", "///", "\\/\\", ""] {
        match validate_filename(name) {
            Err(OrcaError::InvalidFile { msg }) => {
                assert_eq!(msg, "Filename becomes empty after sanitization")
            }
            _ => panic!("accepted {:?}", name),
        }
    }
}

#[test]
fn dots_alone_are_rejected() {
    assert!(validate_filename("..").is_err());
    assert!(validate_filename(" .. ").is_err());
}

#[test]
fn sanitizing_twice_changes_nothing() {
    for name in ["a/b.stl", " x<y>.obj ", "..a", "résumé.step", ". .", "a..", "\u{85}b"] {
        if let Ok(once) = validate_filename(name) {
            assert_eq!(ok(&once), once, "{:?}", name);
        }
    }
    let long = "é".repeat(200);
    let once = ok(&long);
    assert!(once.len() <= 255);
    assert_eq!(ok(&once), once);
}
