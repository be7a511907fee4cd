use auto_claude::domain::skills::parser::{parse_frontmatter, render_frontmatter};

fn pairs(items: &[(&str, &str)]) -> Vec<(String, String)> {
    items
        .iter()
        .map(|(k, v)| (k.to_string(), v.to_string()))
        .collect()
}

#[test]
fn parses_frontmatter_and_body() {
    let (meta, body) = parse_frontmatter(
        "---\r\nname: demo\r\ndescription:  A demo skill \r\nbroken line\r\nempty:\r\nname: again\r\n---\r\n\r\nBody text\r\n",
    );
    assert_eq!(
        meta,
        pairs(&[("description", "A demo skill"), ("name", "again")])
    );
    assert_eq!(body, "Body text");
}

#[test]
fn text_without_frontmatter_is_all_body() {
    let (meta, body) = parse_frontmatter("  just text \n");
    assert!(meta.is_empty());
    assert_eq!(body, "just text");
    let (meta, body) = parse_frontmatter("---\nname: x\nno closing line\n");
    assert!(meta.is_empty());
    assert_eq!(body, "---\nname: x\nno closing line");
}

#[test]
fn renders_sorted_metadata_and_trimmed_body() {
    let rendered = render_frontmatter(
        &pairs(&[("name", " demo "), ("blank", "  "), ("description", "d: e")]),
        "\n body \n",
    );
    assert_eq!(rendered, "---\ndescription: d: e\nname: demo\n---\n\nbody\n");
}

#[test]
fn rendered_files_parse_back() {
    let meta = pairs(&[("name", "demo"), ("tags", "a, b"), ("description", "x: y")]);
    let rendered = render_frontmatter(&meta, "Body\n\nMore");
    let (parsed, body) = parse_frontmatter(&rendered);
    assert_eq!(
        parsed,
        pairs(&[("description", "x: y"), ("name", "demo"), ("tags", "a, b")])
    );
    assert_eq!(body, "Body\n\nMore");
}

#[test]
fn rendered_frontmatter_parses_back() {
    let meta = vec![
        ("description".to_string(), "Reads PDFs".to_string()),
        ("name".to_string(), "pdf".to_string()),
        ("tags".to_string(), "docs, pdf".to_string()),
    ];
    let rendered = render_frontmatter(&meta, "\n  Use pdftotext.\nThen summarise.  \n");
    let (parsed, body) = parse_frontmatter(&rendered);
    assert_eq!(parsed, meta);
    assert_eq!(body, "Use pdftotext.\nThen summarise.");
}
