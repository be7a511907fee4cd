use auto_claude::domain::harness::records::recent_record_files;
use auto_claude::domain::harness::{HarnessAssets, HarnessFiles};

fn names(v: &[&str]) -> Vec<String> {
    v.iter().map(|s| s.to_string()).collect()
}

#[test]
fn lists_newest_record_files_first() {
    let found = names(&["b.json", "a.json", "notes.txt", ".json", "c.json", "b.json"]);
    assert_eq!(recent_record_files(&found, 2), names(&["c.json", "b.json"]));
    assert_eq!(recent_record_files(&found, 0), names(&["c.json"]));
    assert_eq!(recent_record_files(&found, 500), names(&["c.json", "b.json", "a.json"]));
    assert!(recent_record_files(&names(&["x.JSON", "y"]), 5).is_empty());
}

#[test]
fn looks_up_tool_description_overrides() {
    let harness = HarnessAssets::load(HarnessFiles {
        tool_descriptions: Some(vec![
            ("read_file".to_string(), " Read carefully ".to_string()),
            ("  ".to_string(), "ignored".to_string()),
        ]),
        ..HarnessFiles::default()
    })
    .unwrap();
    assert_eq!(harness.tool_description("read_file").as_deref(), Some("Read carefully"));
    assert_eq!(harness.tool_description("write_file"), None);
}
