use rho_brain::form::{
    format_metadata, parse_metadata, parse_tags, plan_form_submission, tags_field, validate_input,
    DocumentFormInput, DocumentFormState,
};
use rho_brain::metadata::{MetadataOp, MetadataValue};

fn input(title: &str, content: &str, tags: Option<&str>, metadata: Option<&str>) -> DocumentFormInput {
    DocumentFormInput {
        title: title.to_string(),
        content: content.to_string(),
        tags: tags.map(|t| t.to_string()),
        metadata: metadata.map(|m| m.to_string()),
    }
}

#[test]
fn parse_tags_trims_and_drops_blanks() {
    assert_eq!(parse_tags(&Some("rust, web".to_string())), vec!["rust", "web"]);
    assert_eq!(parse_tags(&Some(" a ,, b ,  ,c".to_string())), vec!["a", "b", "c"]);
    assert_eq!(parse_tags(&Some("".to_string())), Vec::<String>::new());
    assert_eq!(parse_tags(&None), Vec::<String>::new());
}

#[test]
fn tags_field_joins_with_comma_space_and_reads_back() {
    let tags = vec!["rust".to_string(), "web dev".to_string(), "x".to_string()];
    let field = tags_field(&tags);
    assert_eq!(field, "rust, web dev, x");
    assert_eq!(parse_tags(&Some(field)), tags);
    assert_eq!(tags_field(&[]), "");
}

#[test]
fn parse_metadata_types_values() {
    let raw = Some("priority=high\nversion=2\npinned=true\noff = false\nneg=-7\nplus=+3".to_string());
    let entries = parse_metadata(&raw).unwrap();
    assert_eq!(
        entries,
        vec![
            ("priority".to_string(), MetadataValue::Text("high".to_string())),
            ("version".to_string(), MetadataValue::Int(2)),
            ("pinned".to_string(), MetadataValue::Bool(true)),
            ("off".to_string(), MetadataValue::Bool(false)),
            ("neg".to_string(), MetadataValue::Int(-7)),
            ("plus".to_string(), MetadataValue::Int(3)),
        ]
    );
}

#[test]
fn parse_metadata_keeps_text_that_is_not_an_i64() {
    let raw = Some("big=9223372036854775808\nsmall=-9223372036854775808\nTrue=True\nempty=".to_string());
    let entries = parse_metadata(&raw).unwrap();
    assert_eq!(entries[0], ("big".to_string(), MetadataValue::Text("9223372036854775808".to_string())));
    assert_eq!(entries[1], ("small".to_string(), MetadataValue::Int(i64::MIN)));
    assert_eq!(entries[2], ("True".to_string(), MetadataValue::Text("True".to_string())));
    assert_eq!(entries[3], ("empty".to_string(), MetadataValue::Text("".to_string())));
}

#[test]
fn parse_metadata_splits_at_first_equals_and_skips_blank_lines() {
    let raw = Some("\n  \r\nurl = a=b \r\n\n".to_string());
    let entries = parse_metadata(&raw).unwrap();
    assert_eq!(entries, vec![("url".to_string(), MetadataValue::Text("a=b".to_string()))]);
    assert_eq!(parse_metadata(&None).unwrap(), vec![]);
}

#[test]
fn parse_metadata_reports_missing_equals_with_line_number() {
    let err = parse_metadata(&Some("a=1\n\njustakey".to_string())).unwrap_err();
    assert_eq!(err, "line 3 is missing '=' (expected key=value): \"justakey\"");
}

#[test]
fn parse_metadata_reports_empty_key() {
    let err = parse_metadata(&Some("a=1\n = 2".to_string())).unwrap_err();
    assert_eq!(err, "line 2 has an empty key");
}

#[test]
fn validate_input_requires_title_and_content() {
    assert_eq!(
        validate_input(&input("  ", "precious draft", Some("rust"), None)).unwrap_err(),
        "Title is required."
    );
    assert_eq!(validate_input(&input("T", " \n", None, None)).unwrap_err(), "Content is required.");
}

#[test]
fn validate_input_rejects_malformed_metadata() {
    let err = validate_input(&input("T", "C", None, Some("justakey"))).unwrap_err();
    assert!(err.starts_with("Invalid metadata: "), "{err}");
    assert_eq!(err, "Invalid metadata: line 1 is missing '=' (expected key=value): \"justakey\"");
}

#[test]
fn validate_input_returns_entries() {
    let entries = validate_input(&input("T", "C", None, Some("version=3"))).unwrap();
    assert_eq!(entries, vec![("version".to_string(), MetadataValue::Int(3))]);
}

#[test]
fn format_metadata_writes_lines() {
    let pairs = vec![
        ("priority".to_string(), "high".to_string()),
        ("version".to_string(), "2".to_string()),
        ("pinned".to_string(), "true".to_string()),
    ];
    let text = format_metadata(&pairs);
    assert_eq!(text, "priority=high\nversion=2\npinned=true\n");
    assert_eq!(format_metadata(&[]), "");
}

#[test]
fn form_metadata_reads_back_what_format_wrote() {
    let pairs = vec![
        ("priority".to_string(), "high".to_string()),
        ("version".to_string(), "2".to_string()),
        ("pinned".to_string(), "true".to_string()),
    ];
    let parsed = parse_metadata(&Some(format_metadata(&pairs))).unwrap();
    assert_eq!(
        parsed,
        vec![
            ("priority".to_string(), MetadataValue::Text("high".to_string())),
            ("version".to_string(), MetadataValue::Int(2)),
            ("pinned".to_string(), MetadataValue::Bool(true)),
        ]
    );
}

#[test]
fn blank_form_state_is_empty() {
    let s = DocumentFormState::blank();
    assert_eq!(s.title, "");
    assert_eq!(s.content, "");
    assert_eq!(s.tags, "");
    assert_eq!(s.metadata, "");
    assert!(s.error.is_none());
}

#[test]
fn form_state_keeps_submitted_input() {
    let i = input("", "precious draft", Some("rust"), None);
    let s = DocumentFormState::from_input(&i, "Title is required.".to_string());
    assert_eq!(s.title, "");
    assert_eq!(s.content, "precious draft");
    assert_eq!(s.tags, "rust");
    assert_eq!(s.metadata, "");
    assert_eq!(s.error.as_deref(), Some("Title is required."));
}

#[test]
fn plan_form_submission_trims_title_and_replaces_metadata() {
    let plan = plan_form_submission(&input("  Form Doc ", "Hello **markdown**", Some("rust, web"), Some("v=1")))
        .ok()
        .unwrap();
    assert_eq!(plan.title, "Form Doc");
    assert_eq!(plan.content, "Hello **markdown**");
    assert_eq!(plan.tags, vec!["rust", "web"]);
    assert_eq!(
        plan.metadata,
        vec![MetadataOp::ClearAll, MetadataOp::Insert("v".to_string(), MetadataValue::Int(1))]
    );
    let plan = plan_form_submission(&input("T", "C", Some("rust, web, rust,web"), None)).ok().unwrap();
    assert_eq!(plan.tags, vec!["rust", "web"]);
    let err = plan_form_submission(&input("T", "C", None, Some("noequals"))).err().unwrap();
    assert!(err.starts_with("Invalid metadata"));
}
