use slice_quote::error::OrcaError;
use slice_quote::profiles::{
    choose_filament, discover_available_materials, filament_overrides, first_gcode,
    known_material_in,
    name_has_extension, resolve_profiles, slicer_args, slicer_outcome, ProfilePaths, SlicerRun,
};

fn names(v: &[&str]) -> Vec<String> {
    v.iter().map(|s| s.to_string()).collect()
}

#[test]
fn curated_filament_comes_first() {
    let entries = names(&["Generic PLA.json", "ALT TABL MATTE PLA PEI.json"]);
    assert_eq!(choose_filament("PLA", &entries).as_deref(), Some("ALT TABL MATTE PLA PEI.json"));
    assert_eq!(filament_overrides("petg"), vec!["Alt Tab PETG.json"]);
    assert!(filament_overrides("tpu").is_empty());
}

#[test]
fn filament_scan_matches_upper_cased_names() {
    let entries = names(&["readme.txt", "tpu notes", "Generic tpu 95A.json", "TPU.json"]);
    assert_eq!(choose_filament("tpu", &entries).as_deref(), Some("Generic tpu 95A.json"));
    let entries = names(&["Generic PLA.json"]);
    assert_eq!(choose_filament("pla", &entries).as_deref(), Some("Generic PLA.json"));
    assert_eq!(choose_filament("nylon", &entries), None);
    let entries = names(&["Generic ABS.json"]);
    assert_eq!(choose_filament("abs", &entries).as_deref(), Some("Generic ABS.json"));
    assert_eq!(choose_filament("Abs", &entries).as_deref(), Some("Generic ABS.json"));
    assert_eq!(choose_filament("pla", &names(&[".json", "pla.JSON"])), None);
}

#[test]
fn resolve_reports_the_first_missing_profile() {
    let entries = names(&["Generic PLA.json"]);
    match resolve_profiles("PLA", "m.json", "p.json", false, false, &entries) {
        Err(OrcaError::ProfileNotFound { msg }) => assert_eq!(msg, "Machine profile not found: m.json"),
        _ => panic!(),
    }
    match resolve_profiles("PLA", "m.json", "p.json", true, false, &entries) {
        Err(OrcaError::ProfileNotFound { msg }) => assert_eq!(msg, "Process profile not found: p.json"),
        _ => panic!(),
    }
    match resolve_profiles("ABS", "m.json", "p.json", true, true, &entries) {
        Err(OrcaError::ProfileNotFound { msg }) => assert_eq!(msg, "No profile found for material: ABS"),
        _ => panic!(),
    }
    assert_eq!(
        resolve_profiles("PLA", "m.json", "p.json", true, true, &entries).ok().as_deref(),
        Some("Generic PLA.json")
    );
}

#[test]
fn discovered_materials_are_sorted_and_distinct() {
    let entries = names(&[
        "Generic PLA.json",
        "pla silk.json",
        "PETG PLA blend.json",
        "tpu.json",
        "abs.txt",
        "Generic ABS.json",
        "notes",
    ]);
    let found = discover_available_materials("/p/filament", Some(entries)).ok().unwrap();
    assert_eq!(found, vec!["ABS", "PLA", "TPU"]);
    assert!(discover_available_materials("/p/filament", Some(Vec::new())).unwrap().is_empty());
    match discover_available_materials("/p/filament", None) {
        Err(OrcaError::ProfileNotFound { msg }) => {
            assert_eq!(msg, "Filament profiles directory not found: /p/filament")
        }
        _ => panic!(),
    }
}

#[test]
fn extension_of_entry_names() {
    assert!(name_has_extension("a.json", "json"));
    assert!(name_has_extension("..json", "json"));
    assert!(!name_has_extension(".json", "json"));
    assert!(!name_has_extension("a.jsonx", "json"));
    assert!(!name_has_extension("ajson", "json"));
}

#[test]
fn slicer_command_line() {
    let profiles = ProfilePaths {
        machine: "/p/machine/m.json".to_string(),
        filament: "/p/filament/f.json".to_string(),
        process: "/p/process/q.json".to_string(),
    };
    let args = slicer_args("/t/model.stl", &profiles, "/t/out");
    assert_eq!(
        args,
        vec![
            "/t/model.stl",
            "--slice",
            "0",
            "--load-settings",
            "/p/machine/m.json;/p/process/q.json",
            "--load-filaments",
            "/p/filament/f.json",
            "--export-slicedata",
            "/t/out",
            "--outputdir",
            "/t/out",
            "--debug",
            "1",
        ]
    );
}

#[test]
fn slicer_outcomes() {
    let outputs = names(&["plate_1.json", "plate_1.gcode", "b.gcode"]);
    let ok = SlicerRun::Exited { success: true, stderr: String::new() };
    assert_eq!(slicer_outcome(&ok, &outputs).ok().as_deref(), Some("plate_1.gcode"));
    assert_eq!(first_gcode(&outputs), Some(1));
    match slicer_outcome(&ok, &names(&["log.txt"])) {
        Err(OrcaError::SlicerFailed { msg }) => assert_eq!(msg, "No G-code file found after slicing"),
        _ => panic!(),
    }
    let failed = SlicerRun::Exited { success: false, stderr: "bad profile".to_string() };
    match slicer_outcome(&failed, &outputs) {
        Err(OrcaError::SlicerFailed { msg }) => assert_eq!(msg, "Slicer failed with error: bad profile"),
        _ => panic!(),
    }
    let missing = SlicerRun::NotStarted { reason: "not found".to_string() };
    match slicer_outcome(&missing, &outputs) {
        Err(OrcaError::SlicerFailed { msg }) => assert_eq!(msg, "Failed to execute slicer: not found"),
        _ => panic!(),
    }
}

#[test]
fn known_material_follows_testing_order() {
    let u = |s: &str| s.chars().collect::<Vec<char>>();
    assert_eq!(known_material_in(&u("PETG PLA BLEND")), Some(0));
    assert_eq!(known_material_in(&u("GENERIC PETG")), Some(1));
    assert_eq!(known_material_in(&u("PCTG")), Some(5));
    assert_eq!(known_material_in(&u("generic pla")), None);
    assert_eq!(known_material_in(&u("NYLON")), None);
}
