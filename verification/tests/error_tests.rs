use cargo_target_dep::errors::int_string;
use cargo_target_dep::errors::BuildError;

#[test]
fn decimal_rendering() {
    assert_eq!(int_string(0), "0");
    assert_eq!(int_string(7), "7");
    assert_eq!(int_string(101), "101");
    assert_eq!(int_string(-1), "-1");
    assert_eq!(int_string(i32::MAX), "2147483647");
    assert_eq!(int_string(i32::MIN), "-2147483648");
}

#[test]
fn configuration_error_names_the_key() {
    let e = BuildError::Configuration { key: "OUT_DIR".to_string() };
    assert_eq!(e.describe(), "missing required build configuration: OUT_DIR");
}

#[test]
fn build_failure_names_manifest_and_status() {
    let e = BuildError::BuildFailure { manifest: "sub/Cargo.toml".to_string(), code: Some(1) };
    assert_eq!(e.describe(), "error building target dep sub/Cargo.toml (exit code 1)");
    let e = BuildError::BuildFailure { manifest: "sub/Cargo.toml".to_string(), code: None };
    assert_eq!(e.describe(), "error building target dep sub/Cargo.toml (no exit status)");
}

#[test]
fn discovery_error_names_the_directory() {
    let e = BuildError::Discovery { dir: "scratch/target-deps/x/debug".to_string() };
    assert_eq!(e.describe(), "no dependency descriptor produced under scratch/target-deps/x/debug");
}

#[test]
fn malformed_descriptor_error_names_the_file() {
    let e = BuildError::MalformedDescriptor { file: "x/tool.d".to_string() };
    assert_eq!(e.describe(), "malformed dependency descriptor x/tool.d");
}

#[test]
fn io_error_names_both_paths() {
    let e = BuildError::Io { source: "x/tool".to_string(), destination: "dist/tool".to_string() };
    assert_eq!(e.describe(), "failed to move output x/tool to dist/tool");
}
