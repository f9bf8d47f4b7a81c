use rho_brain::documents::{
    active_document, appended_content, document_response, get_or_create_decision,
    get_or_create_title, list_response, plan_create, plan_update, tags_to_add, AddTagsRequest,
    AppendRequest, CreateDocumentRequest, DocumentRecord, GetOrCreate, GetOrCreateRequest,
    ListQuery, MetadataInput, UpdateDocumentRequest,
};
use rho_brain::error::ApiError;
use rho_brain::metadata::{JsonScalar, JsonValue, MetadataOp, MetadataRow, MetadataValue};

fn doc(title: &str, content: &str, deleted: bool) -> DocumentRecord {
    DocumentRecord {
        id: 0x550e8400e29b41d4a716446655440000,
        title: title.to_string(),
        content: content.to_string(),
        created_at: 0,
        updated_at: 1_000_000_000,
        deleted_at: if deleted { Some(2_000_000_000) } else { None },
    }
}

fn strings(v: &[&str]) -> Vec<String> {
    v.iter().map(|s| s.to_string()).collect()
}

#[test]
fn missing_and_deleted_documents_are_not_found() {
    assert_eq!(active_document(None).err(), Some(ApiError::NotFound));
    assert_eq!(active_document(Some(doc("a", "b", true))).err(), Some(ApiError::NotFound));
    let d = active_document(Some(doc("a", "b", false))).ok().unwrap();
    assert_eq!(d.title, "a");
}

#[test]
fn append_joins_with_blank_line_by_default() {
    let req = AppendRequest { content: "day 2 notes".to_string(), separator: None };
    assert_eq!(appended_content("day 1", &req), "day 1\n\nday 2 notes");
}

#[test]
fn append_to_empty_stub_sets_content() {
    let req = AppendRequest { content: "first note".to_string(), separator: Some("---".to_string()) };
    assert_eq!(appended_content("", &req), "first note");
}

#[test]
fn append_uses_custom_separator() {
    let req = AppendRequest { content: "- b".to_string(), separator: Some("\n".to_string()) };
    assert_eq!(appended_content("- a", &req), "- a\n- b");
}

#[test]
fn add_tags_unions_without_duplicating() {
    let existing = strings(&["rust", "notes"]);
    let req = AddTagsRequest { tags: strings(&["notes", " llm ", "llm", "", "  ", "rust", "new"]) };
    assert_eq!(tags_to_add(&existing, &req.tags), strings(&["llm", "new"]));
}

#[test]
fn add_tags_twice_adds_nothing_the_second_time() {
    let mut existing = strings(&["rust"]);
    let req = strings(&["brand-new", "rust"]);
    let added = tags_to_add(&existing, &req);
    assert_eq!(added, strings(&["brand-new"]));
    existing.extend(added);
    assert!(tags_to_add(&existing, &req).is_empty());
}

#[test]
fn create_plan_defaults_content_and_types_metadata() {
    let req = CreateDocumentRequest {
        title: "Test Document".to_string(),
        content: None,
        tags: Some(strings(&["test", "sample"])),
        metadata: Some(MetadataInput::Object(vec![
            ("author".to_string(), JsonValue::Str("test_user".to_string())),
            ("version".to_string(), JsonValue::Int(1)),
            ("ratio".to_string(), JsonValue::Number("0.5".to_string())),
            ("flag".to_string(), JsonValue::Bool(true)),
            ("nothing".to_string(), JsonValue::Null),
            ("list".to_string(), JsonValue::Composite("[1,2]".to_string())),
        ])),
    };
    let plan = plan_create(&req);
    assert_eq!(plan.title, "Test Document");
    assert_eq!(plan.content, "");
    assert_eq!(plan.tags, strings(&["test", "sample"]));
    assert_eq!(
        plan.metadata,
        vec![
            MetadataOp::Insert("author".to_string(), MetadataValue::Text("test_user".to_string())),
            MetadataOp::Insert("version".to_string(), MetadataValue::Int(1)),
            MetadataOp::Insert("ratio".to_string(), MetadataValue::Number("0.5".to_string())),
            MetadataOp::Insert("flag".to_string(), MetadataValue::Bool(true)),
            MetadataOp::Insert("nothing".to_string(), MetadataValue::Text("null".to_string())),
            MetadataOp::Insert("list".to_string(), MetadataValue::Text("[1,2]".to_string())),
        ]
    );
}

#[test]
fn create_plan_ignores_metadata_that_is_not_an_object() {
    let req = CreateDocumentRequest {
        title: "t".to_string(),
        content: Some("c".to_string()),
        tags: None,
        metadata: Some(MetadataInput::NotObject),
    };
    let plan = plan_create(&req);
    assert_eq!(plan.content, "c");
    assert!(plan.tags.is_empty());
    assert!(plan.metadata.is_empty());
}

#[test]
fn update_plan_is_partial_for_fields_and_replaces_tags_and_metadata() {
    let current = doc("before", "original content", false);
    let req = UpdateDocumentRequest {
        title: Some("after".to_string()),
        content: None,
        tags: Some(strings(&["new", "fresh"])),
        metadata: Some(MetadataInput::Object(vec![(
            "count".to_string(),
            JsonValue::Int(2),
        )])),
    };
    let plan = plan_update(&current, &req);
    assert_eq!(plan.title.as_deref(), Some("after"));
    assert!(plan.content.is_none());
    assert_eq!(plan.index_title, "after");
    assert_eq!(plan.index_content, "original content");
    assert_eq!(plan.replace_tags, Some(strings(&["new", "fresh"])));
    assert_eq!(
        plan.metadata,
        vec![MetadataOp::ClearAll, MetadataOp::Insert("count".to_string(), MetadataValue::Int(2))]
    );
}

#[test]
fn update_plan_without_fields_changes_nothing() {
    let current = doc("t", "c", false);
    let req = UpdateDocumentRequest { title: None, content: None, tags: None, metadata: None };
    let plan = plan_update(&current, &req);
    assert!(plan.title.is_none() && plan.content.is_none() && plan.replace_tags.is_none());
    assert!(plan.metadata.is_empty());
    assert_eq!(plan.index_title, "t");
    let req = UpdateDocumentRequest {
        title: None,
        content: None,
        tags: None,
        metadata: Some(MetadataInput::NotObject),
    };
    assert_eq!(plan_update(&current, &req).metadata, vec![MetadataOp::ClearAll]);
}

#[test]
fn get_or_create_requires_a_title() {
    let req = GetOrCreateRequest { title: "   ".to_string(), content: None, tags: None };
    let err = get_or_create_title(&req).err().unwrap();
    assert_eq!(err, ApiError::BadRequest("title is required".to_string()));
    assert_eq!(err.status_code(), 400);
    let req = GetOrCreateRequest { title: " Daily Journal ".to_string(), content: None, tags: None };
    assert_eq!(get_or_create_title(&req).ok().unwrap(), "Daily Journal");
}

#[test]
fn get_or_create_reuses_an_active_document() {
    let req = GetOrCreateRequest {
        title: "Daily Journal".to_string(),
        content: Some("should be ignored".to_string()),
        tags: None,
    };
    let title = "Daily Journal".to_string();
    let outcome = get_or_create_decision(&title, &req, Some(doc("Daily Journal", "day 1", false)));
    assert_eq!(outcome.status_code(), 200);
    match outcome {
        GetOrCreate::Existing(d) => assert_eq!(d.content, "day 1"),
        GetOrCreate::Create(_) => panic!("expected the existing document"),
    }
}

#[test]
fn get_or_create_creates_when_missing_or_deleted() {
    let req = GetOrCreateRequest {
        title: "Phoenix".to_string(),
        content: None,
        tags: Some(strings(&["journal"])),
    };
    let title = "Phoenix".to_string();
    for found in [None, Some(doc("Phoenix", "old", true))] {
        let outcome = get_or_create_decision(&title, &req, found);
        assert_eq!(outcome.status_code(), 201);
        match outcome {
            GetOrCreate::Create(p) => {
                assert_eq!(p.title, "Phoenix");
                assert_eq!(p.content, "");
                assert_eq!(p.tags, strings(&["journal"]));
                assert!(p.metadata.is_empty());
            }
            GetOrCreate::Existing(_) => panic!("a deleted document must not be reused"),
        }
    }
}

#[test]
fn document_response_shows_id_times_and_metadata() {
    let rows = vec![
        MetadataRow {
            key: "author".to_string(),
            value_text: Some("test_user".to_string()),
            value_int: None,
            value_number: None,
            value_bool: None,
        },
        MetadataRow { key: "ratio".to_string(), value_text: None, value_int: None, value_number: Some("1.5".to_string()), value_bool: None },
        MetadataRow { key: "version".to_string(), value_text: None, value_int: Some(1), value_number: None, value_bool: None },
        MetadataRow { key: "pinned".to_string(), value_text: None, value_int: None, value_number: None, value_bool: Some(true) },
        MetadataRow { key: "empty".to_string(), value_text: None, value_int: None, value_number: None, value_bool: None },
    ];
    let r = document_response(&doc("Test Document", "body", false), strings(&["test"]), &rows).unwrap();
    assert_eq!(r.id, "550e8400-e29b-41d4-a716-446655440000");
    assert_eq!(r.title, "Test Document");
    assert_eq!(r.content, "body");
    assert_eq!(r.tags, strings(&["test"]));
    assert_eq!(r.created_at, "1970-01-01T00:00:00Z");
    assert_eq!(r.updated_at, "1970-01-01T00:00:01Z");
    assert_eq!(
        r.metadata,
        vec![
            ("author".to_string(), JsonScalar::Text("test_user".to_string())),
            ("ratio".to_string(), JsonScalar::Number("1.5".to_string())),
            ("version".to_string(), JsonScalar::Int(1)),
            ("pinned".to_string(), JsonScalar::Bool(true)),
            ("empty".to_string(), JsonScalar::Null),
        ]
    );
}

#[test]
fn document_response_fails_only_for_times_out_of_range() {
    let mut d = doc("t", "c", false);
    d.created_at = i128::MAX;
    assert!(document_response(&d, vec![], &vec![]).is_none());
}

#[test]
fn list_response_counts_the_page() {
    let q = ListQuery { limit: None, offset: None };
    assert_eq!(q.limit_or_default(), 50);
    assert_eq!(q.offset_or_default(), 0);
    let r = list_response(vec![], &ListQuery { limit: Some(3), offset: Some(6) });
    assert_eq!((r.total, r.limit, r.offset), (0, 3, 6));
    let d = document_response(&doc("a", "b", false), vec![], &vec![]).unwrap();
    let r = list_response(vec![d], &q);
    assert_eq!((r.total, r.limit, r.offset), (1, 50, 0));
}
