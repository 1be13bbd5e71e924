use cargo_target_dep::descriptor::first_line;
use cargo_target_dep::descriptor::join_paths;
use cargo_target_dep::descriptor::parse_descriptor_line;
use cargo_target_dep::descriptor::parse_fields;
use cargo_target_dep::errors::BuildError;

#[test]
fn splits_on_unescaped_spaces() {
    let fields = parse_fields("out.bin: a.rs b.rs");
    assert_eq!(fields, vec!["out.bin:", "a.rs", "b.rs"]);
}

#[test]
fn escaped_space_is_literal_content() {
    let fields = parse_fields("a\\ b.bin: c.rs");
    assert_eq!(fields, vec!["a b.bin:", "c.rs"]);
}

#[test]
fn empty_line_yields_one_empty_field() {
    assert_eq!(parse_fields(""), vec![""]);
}

#[test]
fn consecutive_separators_yield_empty_fields() {
    assert_eq!(parse_fields("a  b"), vec!["a", "", "b"]);
}

#[test]
fn backslash_before_other_char_is_kept() {
    assert_eq!(parse_fields("a\\b c"), vec!["a\\b", "c"]);
}

#[test]
fn parse_line_separates_output_from_prerequisites() {
    let (out, deps) = parse_descriptor_line("f.d", "out.bin: a.rs b.rs").unwrap();
    assert_eq!(out, "out.bin");
    assert_eq!(deps, vec!["a.rs", "b.rs"]);
}

#[test]
fn parse_line_unescapes_output_path() {
    let (out, deps) = parse_descriptor_line("f.d", "a\\ b.bin: c.rs").unwrap();
    assert_eq!(out, "a b.bin");
    assert_eq!(deps, vec!["c.rs"]);
}

#[test]
fn parse_line_with_no_prerequisites() {
    let (out, deps) = parse_descriptor_line("f.d", "tool:").unwrap();
    assert_eq!(out, "tool");
    assert!(deps.is_empty());
}

#[test]
fn missing_colon_is_rejected() {
    let err = parse_descriptor_line("some/file.d", "out.bin a.rs b.rs").unwrap_err();
    match err {
        BuildError::MalformedDescriptor { file } => assert_eq!(file, "some/file.d"),
        other => panic!("wrong error: {:?}", other),
    }
}

#[test]
fn empty_line_is_rejected() {
    let err = parse_descriptor_line("f.d", "").unwrap_err();
    assert!(matches!(err, BuildError::MalformedDescriptor { .. }));
}

#[test]
fn escaped_colon_field_still_needs_trailing_colon() {
    // the colon here is buried inside the field, not trailing
    let err = parse_descriptor_line("f.d", "out:bin a.rs").unwrap_err();
    assert!(matches!(err, BuildError::MalformedDescriptor { .. }));
}

#[test]
fn join_escapes_embedded_spaces() {
    let paths = vec!["a b.bin:".to_string(), "c.rs".to_string()];
    assert_eq!(join_paths(&paths), "a\\ b.bin: c.rs");
}

#[test]
fn join_then_parse_round_trips() {
    let paths = vec![
        "out dir/a b.bin".to_string(),
        "src/main file.rs".to_string(),
        "lib.rs".to_string(),
        "weird\\name.rs".to_string(),
    ];
    let joined = join_paths(&paths);
    assert_eq!(parse_fields(&joined), paths);
}

#[test]
fn round_trip_of_single_path() {
    let paths = vec!["a b c".to_string()];
    assert_eq!(parse_fields(&join_paths(&paths)), paths);
}

#[test]
fn first_line_stops_at_newline() {
    assert_eq!(first_line("out: a.rs\nignored: b.rs\n"), "out: a.rs");
}

#[test]
fn first_line_strips_carriage_return() {
    assert_eq!(first_line("out: a.rs\r\nrest"), "out: a.rs");
}

#[test]
fn first_line_of_unterminated_content() {
    assert_eq!(first_line("out: a.rs"), "out: a.rs");
}

#[test]
fn first_line_of_empty_content_is_empty() {
    assert_eq!(first_line(""), "");
}
