use auto_claude::config::model::{MemoryPromptConfig, SkillPromptConfig};
use auto_claude::domain::harness::apply::{
    applied_surfaces, count_lines, normalize_edits, preview_harness_edits, supported_surface_path,
    validate_surface_content, HarnessEditFault, HarnessSurfaceEdit,
};
use auto_claude::domain::harness::snapshot::{build_harness_snapshot, HarnessSnapshot};
use auto_claude::domain::harness::{HarnessAssets, HarnessFiles, MiddlewareMessagesOverride};

fn snapshot_with(files: HarnessFiles) -> HarnessSnapshot {
    let harness = HarnessAssets::load(files).unwrap();
    build_harness_snapshot(
        &harness,
        &MemoryPromptConfig::default(),
        &SkillPromptConfig::default(),
        false,
        false,
        false,
        false,
    )
}

fn edit(key: &str, content: &str) -> HarnessSurfaceEdit {
    HarnessSurfaceEdit {
        surface_key: key.to_string(),
        content: content.to_string(),
    }
}

#[test]
fn knows_supported_surface_paths() {
    assert_eq!(
        supported_surface_path("system.base"),
        Some("harness/system/base.md")
    );
    assert!(supported_surface_path("runtime.policy.self_evolution").is_none());
}

#[test]
fn previews_supported_surface_edits_with_diff_metadata() {
    let snapshot = snapshot_with(HarnessFiles::default());
    let expected = snapshot.snapshot_id.clone();
    let preview = preview_harness_edits(
        snapshot,
        &vec![edit("system.base", "line one\nline two")],
        Some(&expected),
    )
    .unwrap();

    assert_eq!(preview.changed_surface_count, 1);
    assert_eq!(preview.surfaces.len(), 1);
    assert_eq!(preview.surfaces[0].surface_key, "system.base");
    assert!(preview.surfaces[0].changed);
    assert_eq!(preview.surfaces[0].after_lines, 2);
    assert_eq!(preview.surfaces[0].path, "harness/system/base.md");
}

#[test]
fn preview_reports_sizes_and_deltas() {
    let snapshot = snapshot_with(HarnessFiles {
        system_base: Some("a\nb\nc".to_string()),
        ..HarnessFiles::default()
    });
    let preview = preview_harness_edits(snapshot, &vec![edit(" system.base ", "  xy\n ")], None).unwrap();
    let s = &preview.surfaces[0];
    assert_eq!(s.before_bytes, 5);
    assert_eq!(s.after_bytes, 2);
    assert_eq!(s.byte_delta, -3);
    assert_eq!(s.before_lines, 3);
    assert_eq!(s.after_lines, 1);
    assert_eq!(s.line_delta, -2);
    assert_eq!(s.after_content, "xy");
    assert_eq!(s.before_content, "a\nb\nc");
    assert!(preview.expected_snapshot_id.is_none());
    let applied = applied_surfaces(&preview);
    assert_eq!(applied.len(), 1);
    assert_eq!(applied[0].bytes, 2);
    assert_eq!(applied[0].sha1, s.after_sha1);
    assert_eq!(applied[0].path, "harness/system/base.md");
}

#[test]
fn unchanged_content_is_not_counted() {
    let snapshot = snapshot_with(HarnessFiles {
        system_base: Some("same".to_string()),
        ..HarnessFiles::default()
    });
    let preview = preview_harness_edits(snapshot, &vec![edit("system.base", "same")], None).unwrap();
    assert_eq!(preview.changed_surface_count, 0);
    assert!(!preview.surfaces[0].changed);
    assert_eq!(preview.surfaces[0].before_sha1, preview.surfaces[0].after_sha1);
}

#[test]
fn snapshot_mismatch_is_refused() {
    let snapshot = snapshot_with(HarnessFiles::default());
    let current = snapshot.snapshot_id.clone();
    let err = preview_harness_edits(snapshot, &vec![edit("system.base", "x")], Some("hsnap-old"))
        .unwrap_err();
    assert_eq!(err.fault, HarnessEditFault::SnapshotMismatch);
    assert_eq!(
        err.message(),
        format!("snapshot mismatch: expected hsnap-old, current {}", current)
    );
}

#[test]
fn edits_are_checked_in_order() {
    let err = normalize_edits(&vec![edit("  ", "x")]).unwrap_err();
    assert_eq!(err.message(), "surface_key is required");
    let err = normalize_edits(&vec![edit("runtime.policy", "x")]).unwrap_err();
    assert_eq!(err.message(), "unsupported surface_key: runtime.policy");
    let err =
        normalize_edits(&vec![edit("system.base", "x"), edit(" system.base", "y")]).unwrap_err();
    assert_eq!(err.message(), "duplicate surface_key: system.base");
    let err = normalize_edits(&vec![edit("system.base", " \n ")]).unwrap_err();
    assert_eq!(err.message(), "content for system.base is empty");
    let ok = normalize_edits(&vec![edit(" system.base ", " body ")]).unwrap();
    assert_eq!(ok[0].surface_key, "system.base");
    assert_eq!(ok[0].content, "body");
}

#[test]
fn no_edits_is_refused() {
    let snapshot = snapshot_with(HarnessFiles::default());
    let err = preview_harness_edits(snapshot, &Vec::new(), None).unwrap_err();
    assert_eq!(err.fault, HarnessEditFault::NoEdits);
    assert_eq!(err.message(), "at least one supported surface edit is required");
}

#[test]
fn json_surfaces_are_validated() {
    let err = validate_surface_content("tools.descriptions", "not json").unwrap_err();
    assert_eq!(
        err.message(),
        "tools.descriptions must be a JSON object<string,string>"
    );
    let err = validate_surface_content("tools.descriptions", "{}").unwrap_err();
    assert_eq!(
        err.message(),
        "tools.descriptions must contain at least one tool description"
    );
    assert!(validate_surface_content("tools.descriptions", r#"{"read_file": "Read"}"#).is_ok());
    let err = validate_surface_content("middleware.messages", "[1").unwrap_err();
    assert_eq!(err.message(), "middleware.messages must be valid JSON");
    let err = validate_surface_content("middleware.messages", "[1]").unwrap_err();
    assert_eq!(err.message(), "middleware.messages must be a JSON object");
    assert!(validate_surface_content("middleware.messages", r#"{"inbox_ack": "ok"}"#).is_ok());
    let err = validate_surface_content("system.base", "   ").unwrap_err();
    assert_eq!(err.message(), "content for system.base must not be empty");
}

#[test]
fn counts_lines_like_str_lines() {
    assert_eq!(count_lines(""), 0);
    assert_eq!(count_lines("one"), 1);
    assert_eq!(count_lines("one\ntwo\n"), 2);
    assert_eq!(count_lines("one\r\n\ntwo"), 3);
}

#[test]
fn builds_snapshot_with_effective_surfaces_and_stable_id() {
    let files = HarnessFiles {
        system_base: Some("custom base".to_string()),
        tool_descriptions: Some(vec![("read_file".to_string(), "Custom read".to_string())]),
        middleware_messages: Some(MiddlewareMessagesOverride {
            steering_ack: Some("Custom steering".to_string()),
            ..MiddlewareMessagesOverride::default()
        }),
        ..HarnessFiles::default()
    };
    let harness = HarnessAssets::load(files).unwrap();
    let mut memory = MemoryPromptConfig::default();
    memory.maintenance_system = "custom maintenance system".to_string();
    let snapshot = build_harness_snapshot(
        &harness,
        &memory,
        &SkillPromptConfig::default(),
        true,
        false,
        false,
        false,
    );

    assert!(snapshot.memory_only_self_evolution);
    assert!(snapshot.snapshot_id.starts_with("hsnap-"));
    assert_eq!(snapshot.snapshot_id.len(), 46);
    let find = |key: &str| snapshot.surfaces.iter().find(|s| s.key == key).unwrap();
    assert_eq!(find("system.base").content, "custom base");
    assert_eq!(
        find("memory.maintenance_system").source.path.as_deref(),
        Some("harness/memory/maintenance_system.md")
    );
    assert!(find("tools.descriptions").content.contains("Custom read"));
    assert!(find("middleware.messages").content.contains("Custom steering"));

    let again = build_harness_snapshot(
        &harness,
        &memory,
        &SkillPromptConfig::default(),
        true,
        false,
        false,
        false,
    );
    assert_eq!(snapshot.snapshot_id, again.snapshot_id);
}

#[test]
fn snapshot_documents_match_serde_json() {
    let files = HarnessFiles {
        tool_descriptions: Some(vec![
            ("write_file".to_string(), "Write \"carefully\"\n".to_string()),
            ("read_file".to_string(), "Read\tall".to_string()),
        ]),
        ..HarnessFiles::default()
    };
    let harness = HarnessAssets::load(files).unwrap();
    let snapshot = build_harness_snapshot(
        &harness,
        &MemoryPromptConfig::default(),
        &SkillPromptConfig::default(),
        false,
        false,
        false,
        false,
    );
    let tools = snapshot
        .surfaces
        .iter()
        .find(|s| s.key == "tools.descriptions")
        .unwrap();
    let mut map = std::collections::BTreeMap::new();
    map.insert("write_file".to_string(), "Write \"carefully\"".to_string());
    map.insert("read_file".to_string(), "Read\tall".to_string());
    assert_eq!(tools.content, serde_json::to_string_pretty(&map).unwrap());
    assert_eq!(tools.bytes, tools.content.len());

    let messages = snapshot
        .surfaces
        .iter()
        .find(|s| s.key == "middleware.messages")
        .unwrap();
    let parsed: serde_json::Value = serde_json::from_str(&messages.content).unwrap();
    assert_eq!(parsed["steering_ack"], harness.middleware_messages.steering_ack.as_str());
    assert_eq!(
        messages.content,
        serde_json::to_string_pretty(&parsed).unwrap()
    );
}

#[test]
fn empty_tool_descriptions_render_as_empty_object() {
    let snapshot = snapshot_with(HarnessFiles::default());
    let tools = snapshot
        .surfaces
        .iter()
        .find(|s| s.key == "tools.descriptions")
        .unwrap();
    assert_eq!(tools.content, "{}");
    assert_eq!(snapshot.surfaces.len(), 11);
}
