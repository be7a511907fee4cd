use auto_claude::domain::chat::models::SkillUsage;
use auto_claude::domain::skills::models::{SkillDocument, SkillScope};
use auto_claude::domain::skills::service::{
    dispatch_private_skill_update_tool, plan_private_body_write, private_body_updated,
    read_private_skill_body, render_descriptions, render_private_skill_learning_prompt,
    unique_usages, SkillBodyWrite, SkillToolStep,
};

fn doc(name: &str, description: &str, tags: &str) -> SkillDocument {
    SkillDocument {
        name: name.to_string(),
        description: description.to_string(),
        tags: tags.to_string(),
        trigger: String::new(),
        folder: String::new(),
        path: String::new(),
        body: String::new(),
        meta: Vec::new(),
        scope: SkillScope::Shared,
    }
}

#[test]
fn renders_skill_descriptions() {
    assert_eq!(render_descriptions(&vec![]), "(no skills available)");
    assert_eq!(
        render_descriptions(&vec![doc("a", "", ""), doc("b", "does b", "x,y")]),
        "  - a: No description\n  - b: does b [tags: x,y]"
    );
}

#[test]
fn keeps_each_used_skill_once() {
    let usages = vec![
        SkillUsage { name: " a ".to_string(), scope: SkillScope::Shared },
        SkillUsage { name: "".to_string(), scope: SkillScope::Shared },
        SkillUsage { name: "a".to_string(), scope: SkillScope::Private },
        SkillUsage { name: "b".to_string(), scope: SkillScope::Private },
    ];
    let unique = unique_usages(&usages);
    assert_eq!(unique.len(), 2);
    assert_eq!(unique[0].name, "a");
    assert_eq!(unique[0].scope, SkillScope::Shared);
    assert_eq!(unique[1].name, "b");
}

#[test]
fn learner_reads_before_writing() {
    let mut read = false;
    match dispatch_private_skill_update_tool(&mut read, "write_private_skill_body", "{\"content\":\"x\"}") {
        SkillToolStep::Reply { text } => {
            assert_eq!(text, "Error: Read the private skill body before writing it.")
        }
        other => panic!("unexpected {other:?}"),
    }
    assert!(matches!(
        dispatch_private_skill_update_tool(&mut read, "read_private_skill_body", "{}"),
        SkillToolStep::ReadBody
    ));
    match dispatch_private_skill_update_tool(&mut read, "write_private_skill_body", "{\"content\":\"new\"}") {
        SkillToolStep::WriteBody { content } => assert_eq!(content, "new"),
        other => panic!("unexpected {other:?}"),
    }
    match dispatch_private_skill_update_tool(&mut read, "other", "{}") {
        SkillToolStep::Reply { text } => assert_eq!(text, "Error: Unknown tool other"),
        other => panic!("unexpected {other:?}"),
    }
    assert_eq!(read_private_skill_body("  body \n"), "SKILL.md body (4 chars)\nbody");
    assert_eq!(read_private_skill_body(" "), "SKILL.md body (0 chars)\n(empty)");
}

#[test]
fn plans_private_body_writes() {
    match plan_private_body_write(" \n ", "old") {
        SkillBodyWrite::Reply { text } => assert_eq!(text, "Error: Skill body cannot be empty."),
        other => panic!("unexpected {other:?}"),
    }
    match plan_private_body_write("old\n\n", " old ") {
        SkillBodyWrite::Reply { text } => assert_eq!(text, "SKILL.md unchanged (3 chars)."),
        other => panic!("unexpected {other:?}"),
    }
    match plan_private_body_write("new\r\n\r\n\r\nline", "old") {
        SkillBodyWrite::Write { body } => assert_eq!(body, "new\n\nline"),
        other => panic!("unexpected {other:?}"),
    }
    assert_eq!(private_body_updated("abc"), "SKILL.md updated (3 chars).");
    assert_eq!(
        render_private_skill_learning_prompt(
            "{source_scope}|{skill_path}|{skill_name}|{skill_body_len}|{user_message}|{assistant_reply}",
            "shared", "/p/SKILL.md", "demo", 12, "q", "a"
        ),
        "shared|/p/SKILL.md|demo|12|q|a"
    );
}
