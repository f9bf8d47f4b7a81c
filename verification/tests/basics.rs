use rho_brain::db_url::{connection_url, is_new_database, sqlite_path};
use rho_brain::endpoints::{build_endpoint_list, get_endpoints, health_check};
use rho_brain::error::{store_error, ApiError};
use rho_brain::ids::parse_document_id;
use rho_brain::numbers::{bool_string, i64_text, parse_i64, usize_text};
use rho_brain::pages::{
    delete_path, detail_times, document_card, document_path, edit_path, home_filters, like_pattern,
    saved_location, tag_filter_href,
};
use rho_brain::stats::stats_response;
use rho_brain::documents::DocumentRecord;

const ID: u128 = 0x550e8400e29b41d4a716446655440000;

#[test]
fn uuid_text_round_trips() {
    assert_eq!(document_path(ID), "/documents/550e8400-e29b-41d4-a716-446655440000");
    assert_eq!(parse_document_id("550e8400-e29b-41d4-a716-446655440000").ok(), Some(ID));
    assert_eq!(parse_document_id("550E8400E29B41D4A716446655440000").ok(), Some(ID));
    assert_eq!(parse_document_id("urn:uuid:550e8400-e29b-41d4-a716-446655440000").ok(), Some(ID));
    let seven = document_path(7);
    assert_eq!(parse_document_id(&seven["/documents/".len()..]).ok(), Some(7));
    assert_eq!(parse_document_id("00000000-0000-0000-0000-000000000000").ok(), Some(0));
}

#[test]
fn malformed_ids_are_bad_requests() {
    let err = parse_document_id("not-a-uuid").err().unwrap();
    assert_eq!(err, ApiError::BadRequest("invalid document id".to_string()));
    assert_eq!(err.status_code(), 400);
    assert_eq!(parse_document_id("550e8400-e29b-41d4-a716-446655440000").ok(), Some(ID));
}

#[test]
fn store_errors_map_to_status() {
    assert_eq!(store_error(true, "x".to_string()).status_code(), 404);
    let e = store_error(false, "disk".to_string());
    assert_eq!(e.status_code(), 500);
    assert_eq!(e, ApiError::Internal("disk".to_string()));
}

#[test]
fn decimal_text() {
    let c = |s: &str| s.chars().collect::<Vec<char>>();
    assert_eq!(parse_i64(&c("9223372036854775807")), Some(i64::MAX));
    assert_eq!(parse_i64(&c("-9223372036854775808")), Some(i64::MIN));
    assert_eq!(parse_i64(&c("9223372036854775808")), None);
    assert_eq!(parse_i64(&c("+")), None);
    assert_eq!(parse_i64(&c("12a")), None);
    assert_eq!(parse_i64(&c("007")), Some(7));
    assert_eq!(i64_text(i64::MIN), "-9223372036854775808");
    assert_eq!(i64_text(0), "0");
    assert_eq!(i64_text(-42), "-42");
    assert_eq!(usize_text(1203), "1203");
    assert_eq!(bool_string(true), "true");
    assert_eq!(parse_i64(&c(&i64_text(-1234567))), Some(-1234567));
}

#[test]
fn stats_add_up() {
    let s = stats_response(&vec![], 0);
    assert_eq!((s.document_count, s.unique_tags, s.active_documents, s.deleted_documents), (0, 0, 0, 0));
    let s = stats_response(&vec![false, true, false], 4);
    assert_eq!((s.document_count, s.unique_tags, s.active_documents, s.deleted_documents), (3, 4, 2, 1));
}

#[test]
fn endpoints_list_the_known_surface() {
    let known = [
        ("GET", "/rb/health_check"),
        ("POST", "/rb/documents"),
        ("GET", "/rb/documents"),
        ("GET", "/rb/documents/{id}"),
        ("PUT", "/rb/documents/{id}"),
        ("DELETE", "/rb/documents/{id}"),
        ("POST", "/rb/documents/{id}/append"),
        ("POST", "/rb/documents/{id}/tags"),
        ("POST", "/rb/documents/{id}/metadata"),
        ("POST", "/rb/documents/get-or-create"),
        ("POST", "/rb/search"),
        ("GET", "/rb/search"),
        ("GET", "/rb/stats"),
    ];
    let list = build_endpoint_list();
    assert_eq!(list.len(), known.len());
    for (e, (m, p)) in list.iter().zip(known.iter()) {
        assert_eq!((e.method.as_str(), e.path.as_str()), (*m, *p));
        assert!(!e.description.is_empty());
    }
    let doc = get_endpoints("0.1.0");
    assert_eq!(doc.name, "rho-brain");
    assert_eq!(doc.base, "/rb");
    assert_eq!(doc.version, "0.1.0");
    assert!(doc.notes.iter().any(|n| n.contains("micro-updates")));
    assert_eq!(health_check(), "ok");
}

#[test]
fn example_bodies_are_json_objects() {
    for e in build_endpoint_list() {
        if let Some(body) = e.example_body {
            let v: serde_json::Value = serde_json::from_str(&body).unwrap();
            assert!(v.is_object(), "{body}");
        }
    }
}

#[test]
fn page_addresses() {
    assert_eq!(document_path(ID), "/documents/550e8400-e29b-41d4-a716-446655440000");
    assert_eq!(edit_path(ID), "/documents/550e8400-e29b-41d4-a716-446655440000/edit");
    assert_eq!(delete_path(ID), "/documents/550e8400-e29b-41d4-a716-446655440000/delete");
    assert_eq!(saved_location(ID), "/documents/550e8400-e29b-41d4-a716-446655440000?saved=1");
    assert_eq!(tag_filter_href("rust"), "/?tag=rust");
    assert_eq!(like_pattern("pasta"), "%pasta%");
}

#[test]
fn home_filters_drop_blank_values() {
    let f = home_filters(Some("  ".to_string()), Some(" rust".to_string()));
    assert!(f.search.is_none());
    assert_eq!(f.tag.as_deref(), Some(" rust"));
    let f = home_filters(None, Some("".to_string()));
    assert!(f.search.is_none() && f.tag.is_none());
}

#[test]
fn document_cards_show_excerpt_and_time() {
    let d = DocumentRecord {
        id: ID,
        title: "Rust notes".to_string(),
        content: "x".repeat(250),
        created_at: 0,
        updated_at: 90_000_000_000,
        deleted_at: None,
    };
    let card = document_card(&d, vec!["rust".to_string()]).unwrap();
    assert_eq!(card.id, "550e8400-e29b-41d4-a716-446655440000");
    assert_eq!(card.excerpt, format!("{}...", "x".repeat(200)));
    assert_eq!(card.updated, "1970-01-01 00:01");
    assert_eq!(card.tags, vec!["rust".to_string()]);
    let (created, updated) = detail_times(&d).unwrap();
    assert_eq!(created, "1970-01-01 00:00");
    assert_eq!(updated, "1970-01-01 00:01");
    let far = DocumentRecord { created_at: i128::MAX, ..d };
    assert!(detail_times(&far).is_none());
}

#[test]
fn new_database_detection() {
    assert_eq!(sqlite_path("sqlite:rho-brain.db").as_deref(), Some("rho-brain.db"));
    assert!(sqlite_path("postgres://x").is_none());
    assert!(is_new_database("sqlite::memory:", true));
    assert!(is_new_database("sqlite:file.db", false));
    assert!(!is_new_database("sqlite:file.db", true));
    assert!(!is_new_database("mysql://host/db", false));
    assert!(is_new_database("/path/to/db.sqlite", false));
    assert!(!is_new_database("/path/to/db.sqlite", true));
    assert!(is_new_database("rho-brain.db", false));
    assert_eq!(connection_url("/path/to/db.sqlite"), "sqlite:/path/to/db.sqlite");
    assert_eq!(connection_url("sqlite:rho-brain.db"), "sqlite:rho-brain.db");
    assert_eq!(connection_url("sqlite::memory:"), "sqlite::memory:");
    assert_eq!(connection_url("postgres://h/db"), "postgres://h/db");
}
