use slice_quote::gcode::{
    duration_of, parse_filament_weight, parse_gcode_lines, parse_time_string_to_minutes,
};

fn lines(text: &[&str]) -> Vec<String> {
    text.iter().map(|l| l.to_string()).collect()
}

#[test]
fn duration_hours_and_minutes() {
    assert_eq!(parse_time_string_to_minutes("1h 30m"), 90);
    assert_eq!(parse_time_string_to_minutes("2h 15m"), 135);
    assert_eq!(parse_time_string_to_minutes("  2H 15M  "), 135);
    assert_eq!(parse_time_string_to_minutes("3h"), 180);
}

#[test]
fn duration_minutes_only() {
    assert_eq!(parse_time_string_to_minutes("45m"), 45);
    assert_eq!(parse_time_string_to_minutes("1d 2h 3m 4s"), 123);
}

#[test]
fn duration_bare_number() {
    assert_eq!(parse_time_string_to_minutes("90"), 90);
    assert_eq!(parse_time_string_to_minutes(" 007 "), 7);
}

#[test]
fn duration_default_for_nothing_usable() {
    assert_eq!(parse_time_string_to_minutes(""), 60);
    assert_eq!(parse_time_string_to_minutes("unknown"), 60);
    assert_eq!(parse_time_string_to_minutes("0h 0m"), 60);
    assert_eq!(parse_time_string_to_minutes("0"), 60);
    assert_eq!(parse_time_string_to_minutes("12 34"), 60);
    assert_eq!(parse_time_string_to_minutes("99999999999"), 60);
}

#[test]
fn duration_large_values_stop_at_the_maximum() {
    assert_eq!(parse_time_string_to_minutes("4294967295h"), u32::MAX);
    assert_eq!(parse_time_string_to_minutes("99999999999h 5m"), 5);
    let c: Vec<char> = "71582788h 100m".chars().collect();
    assert_eq!(duration_of(&c), u32::MAX);
    let c: Vec<char> = "1000h 5m".chars().collect();
    assert_eq!(duration_of(&c), 60_005);
}

#[test]
fn weight_numerals() {
    assert_eq!(parse_filament_weight("; filament used [g] = 12.34").as_deref(), None);
    assert_eq!(parse_filament_weight("; filament used = 12.34g").as_deref(), Some("12.34"));
    assert_eq!(parse_filament_weight("; filament used: 7 g").as_deref(), Some("7"));
    assert_eq!(parse_filament_weight("; used 3.5 mm, 12.g total").as_deref(), Some("12."));
    assert_eq!(parse_filament_weight("no number").as_deref(), None);
}

#[test]
fn metadata_from_comment_lines() {
    let l = lines(&[
        "; generated by slicer",
        "; estimated printing time (normal mode) = 1h 30m",
        "; filament used = 25.5g",
        "; total layers count = 120",
        "G1 X0 Y0",
    ]);
    let m = parse_gcode_lines(&l, "out/model.gcode".to_string());
    assert_eq!(m.print_time_minutes, 90);
    assert_eq!(m.filament_weight_grams, "25.5");
    assert_eq!(m.layer_count, Some(120));
    assert_eq!(m.gcode_path, "out/model.gcode");
}

#[test]
fn metadata_markers_ignore_case() {
    let l = lines(&["; PRINT TIME: 2h 5m", "; Material Volume 10 g", "; LAYER_COUNT 7"]);
    let m = parse_gcode_lines(&l, String::new());
    assert_eq!(m.print_time_minutes, 125);
    assert_eq!(m.filament_weight_grams, "10");
    assert_eq!(m.layer_count, Some(7));
}

#[test]
fn metadata_defaults() {
    let m = parse_gcode_lines(&lines(&["G28", "G1 X1"]), String::new());
    assert_eq!(m.print_time_minutes, 60);
    assert_eq!(m.filament_weight_grams, "20");
    assert_eq!(m.layer_count, None);
    let m = parse_gcode_lines(&lines(&["; filament used = 0.00g"]), String::new());
    assert_eq!(m.filament_weight_grams, "20");
    let m = parse_gcode_lines(&Vec::new(), String::new());
    assert_eq!(m.print_time_minutes, 60);
}

#[test]
fn metadata_layer_count_overflow_clears_it() {
    let l = lines(&["; layer_count 12", "; total layers 99999999999"]);
    assert_eq!(parse_gcode_lines(&l, String::new()).layer_count, None);
}

#[test]
fn metadata_reads_only_the_first_200_lines() {
    let mut l: Vec<String> = (0..200).map(|i| format!("G1 X{}", i)).collect();
    l.push("; print time: 3h".to_string());
    assert_eq!(parse_gcode_lines(&l, String::new()).print_time_minutes, 60);
    l.remove(0);
    assert_eq!(parse_gcode_lines(&l, String::new()).print_time_minutes, 180);
}
