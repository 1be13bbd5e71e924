use cargo_target_dep::errors::BuildError;
use cargo_target_dep::paths::file_name;
use cargo_target_dep::relocate::check_descriptors_found;
use cargo_target_dep::relocate::descriptor_content;
use cargo_target_dep::relocate::relocation_plan;
use cargo_target_dep::relocate::rerun_trigger;

#[test]
fn file_name_is_the_last_component() {
    assert_eq!(file_name("isolated/debug/tool"), "tool");
    assert_eq!(file_name("tool"), "tool");
    assert_eq!(file_name("a/"), "");
}

#[test]
fn trigger_line_has_the_fixed_prefix() {
    assert_eq!(rerun_trigger("src/main.rs"), "cargo:rerun-if-changed=src/main.rs");
}

#[test]
fn simple_success_scenario() {
    let line = "isolated/debug/tool: isolated/debug/main.rs isolated/debug/lib.rs";
    let plan = relocation_plan("isolated/debug/tool.d", line, "dist/tool", false).unwrap();
    assert_eq!(plan.source, "isolated/debug/tool");
    assert_eq!(plan.destination, "dist/tool");
    assert_eq!(
        plan.triggers,
        vec![
            "cargo:rerun-if-changed=isolated/debug/main.rs",
            "cargo:rerun-if-changed=isolated/debug/lib.rs",
        ]
    );
}

#[test]
fn directory_destination_keeps_the_artifact_name() {
    let line = "isolated/debug/tool: main.rs";
    let plan = relocation_plan("t.d", line, "dist", true).unwrap();
    assert_eq!(plan.source, "isolated/debug/tool");
    assert_eq!(plan.destination, "dist/tool");
}

#[test]
fn exact_destination_is_used_verbatim() {
    let line = "isolated/debug/tool: main.rs";
    let plan = relocation_plan("t.d", line, "dist/renamed-tool", false).unwrap();
    assert_eq!(plan.destination, "dist/renamed-tool");
}

#[test]
fn output_with_spaces_moves_under_its_own_name() {
    let line = "isolated/my\\ tool: a.rs";
    let plan = relocation_plan("t.d", line, "dist", true).unwrap();
    assert_eq!(plan.source, "isolated/my tool");
    assert_eq!(plan.destination, "dist/my tool");
}

#[test]
fn malformed_line_fails_naming_the_descriptor() {
    let err = relocation_plan("isolated/debug/tool.d", "tool a.rs", "dist/tool", false).unwrap_err();
    match err {
        BuildError::MalformedDescriptor { file } => assert_eq!(file, "isolated/debug/tool.d"),
        other => panic!("wrong error: {:?}", other),
    }
}

#[test]
fn no_descriptor_produced_is_fatal() {
    let err = check_descriptors_found("isolated/debug", 0).unwrap_err();
    match err {
        BuildError::Discovery { dir } => assert_eq!(dir, "isolated/debug"),
        other => panic!("wrong error: {:?}", other),
    }
}

#[test]
fn found_descriptors_pass_discovery() {
    assert!(check_descriptors_found("isolated/debug", 1).is_ok());
    assert!(check_descriptors_found("isolated/debug", 2).is_ok());
}

#[test]
fn readable_descriptor_content_is_passed_through() {
    let c = descriptor_content("t.d", Some("tool: a.rs".to_string())).unwrap();
    assert_eq!(c, "tool: a.rs");
}

#[test]
fn unreadable_descriptor_is_malformed() {
    let err = descriptor_content("t.d", None).unwrap_err();
    assert!(matches!(err, BuildError::MalformedDescriptor { .. }));
}
