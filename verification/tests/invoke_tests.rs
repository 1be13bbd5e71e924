use cargo_target_dep::build_target_dep;
use cargo_target_dep::errors::BuildError;
use cargo_target_dep::invoke::check_build_status;
use cargo_target_dep::invoke::require_config;
use cargo_target_dep::paths::isolated_dir_name;
use cargo_target_dep::paths::path_join;

#[test]
fn builder_points_at_manifest_under_package_root() {
    let dep = build_target_dep("sub", "dist/tool");
    assert_eq!(dep.manifest_path, "sub/Cargo.toml");
    assert_eq!(dep.output_path, "dist/tool");
    assert!(dep.profile.is_none());
    assert!(dep.target.is_none());
}

#[test]
fn builder_profile_defaults_to_debug() {
    let dep = build_target_dep("sub", "dist/tool");
    assert_eq!(dep.profile_name(), "debug");
}

#[test]
fn release_switches_the_profile() {
    let dep = build_target_dep("sub", "dist/tool").release();
    assert_eq!(dep.profile.as_deref(), Some("release"));
    assert_eq!(dep.profile_name(), "release");
    assert_eq!(dep.manifest_path, "sub/Cargo.toml");
}

#[test]
fn target_sets_the_triple() {
    let dep = build_target_dep("sub", "dist/tool").target("wasm32-wasi".to_string());
    assert_eq!(dep.target.as_deref(), Some("wasm32-wasi"));
    assert!(dep.profile.is_none());
}

#[test]
fn path_join_inserts_one_separator() {
    assert_eq!(path_join("a", "b"), "a/b");
    assert_eq!(path_join("a/", "b"), "a/b");
    assert_eq!(path_join("", "b"), "b");
}

#[test]
fn dir_name_encodes_separators() {
    assert_eq!(isolated_dir_name("dist/tool"), "dist__tool");
    assert_eq!(isolated_dir_name("tool"), "tool");
}

#[test]
fn dir_name_derivation_is_idempotent() {
    let a = isolated_dir_name("out/artifacts/tool");
    let b = isolated_dir_name("out/artifacts/tool");
    assert_eq!(a, b);
    let c = isolated_dir_name("out/artifacts/other");
    assert_ne!(a, c);
}

#[test]
fn invocation_plan_assembles_the_command() {
    let dep = build_target_dep("sub", "dist/tool");
    let plan = dep.invocation_plan("scratch");
    assert_eq!(plan.target_dir, "scratch/target-deps/dist__tool");
    assert_eq!(
        plan.args,
        vec![
            "build",
            "--manifest-path",
            "sub/Cargo.toml",
            "--profile",
            "debug",
            "--target-dir",
            "scratch/target-deps/dist__tool",
        ]
    );
    assert_eq!(plan.output_dir, "scratch/target-deps/dist__tool/debug");
}

#[test]
fn invocation_plan_with_release_and_target() {
    let dep = build_target_dep("sub", "dist/tool").release().target("thumbv7m-none-eabi".to_string());
    let plan = dep.invocation_plan("scratch");
    assert_eq!(
        plan.args,
        vec![
            "build",
            "--manifest-path",
            "sub/Cargo.toml",
            "--profile",
            "release",
            "--target-dir",
            "scratch/target-deps/dist__tool",
            "--target",
            "thumbv7m-none-eabi",
        ]
    );
    assert_eq!(plan.output_dir, "scratch/target-deps/dist__tool/thumbv7m-none-eabi/release");
}

#[test]
fn explicit_isolated_name_replaces_the_derived_one() {
    let dep = build_target_dep("sub", "dist/tool").isolated_name("mytool".to_string());
    let plan = dep.invocation_plan("scratch");
    assert_eq!(plan.target_dir, "scratch/target-deps/mytool");
    assert_eq!(plan.output_dir, "scratch/target-deps/mytool/debug");
}

#[test]
fn successful_build_passes() {
    assert!(check_build_status("sub/Cargo.toml", true, Some(0)).is_ok());
}

#[test]
fn failing_build_is_fatal() {
    let err = check_build_status("sub/Cargo.toml", false, Some(1)).unwrap_err();
    match err {
        BuildError::BuildFailure { manifest, code } => {
            assert_eq!(manifest, "sub/Cargo.toml");
            assert_eq!(code, Some(1));
        },
        other => panic!("wrong error: {:?}", other),
    }
}

#[test]
fn build_that_could_not_start_is_fatal() {
    let err = check_build_status("sub/Cargo.toml", false, None).unwrap_err();
    assert!(matches!(err, BuildError::BuildFailure { code: None, .. }));
}

#[test]
fn present_config_value_is_passed_through() {
    let v = require_config("CARGO", Some("/usr/bin/cargo".to_string())).unwrap();
    assert_eq!(v, "/usr/bin/cargo");
}

#[test]
fn missing_config_value_is_fatal() {
    let err = require_config("OUT_DIR", None).unwrap_err();
    match err {
        BuildError::Configuration { key } => assert_eq!(key, "OUT_DIR"),
        other => panic!("wrong error: {:?}", other),
    }
}
