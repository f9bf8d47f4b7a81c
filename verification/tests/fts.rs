use rho_brain::fts::{
    backfill_entries, backfill_needed, count_index_rows, create_fts_table, index_document,
    match_query, remove_document, search_results, search_statement, select_active_documents,
    update_document_index, SqlParam, TextRow,
};

const ID: u128 = 0x550e8400e29b41d4a716446655440000;

fn row(a: Option<&str>, b: Option<&str>, c: Option<&str>) -> TextRow {
    TextRow {
        first: a.map(|s| s.to_string()),
        first_bytes: None,
        second: b.map(|s| s.to_string()),
        third: c.map(|s| s.to_string()),
    }
}

#[test]
fn match_query_makes_prefix_terms() {
    assert_eq!(match_query("rust").as_deref(), Some("rust*"));
    assert_eq!(match_query("rust async patterns").as_deref(), Some("rust* async* patterns*"));
    assert_eq!(match_query("  rust   async ").as_deref(), Some("rust* async*"));
}

#[test]
fn match_query_strips_syntax_characters() {
    assert_eq!(match_query("zzz-not-found").as_deref(), Some("zzznotfound*"));
    assert_eq!(match_query("\"quoted\" OR (x)").as_deref(), Some("quoted* OR* x*"));
    assert_eq!(match_query("!?*").as_deref(), None);
    assert_eq!(match_query("").as_deref(), None);
    assert_eq!(match_query("- -").as_deref(), None);
    assert_eq!(match_query(" \t ").as_deref(), None);
    assert_eq!(match_query("\t!").as_deref(), None);
}

#[test]
fn match_query_keeps_tabs_without_spaces() {
    assert_eq!(match_query("a\tb").as_deref(), Some("a\tb*"));
}

#[test]
fn statements_bind_id_title_and_content() {
    let s = index_document(ID, "Title", "Body");
    assert_eq!(s.sql, "INSERT INTO documents_fts (doc_id, title, content) VALUES (?1, ?2, ?3)");
    assert_eq!(
        s.params,
        vec![
            SqlParam::Text("550e8400-e29b-41d4-a716-446655440000".to_string()),
            SqlParam::Text("Title".to_string()),
            SqlParam::Text("Body".to_string()),
        ]
    );
    let u = update_document_index(ID, "T2", "B2");
    assert_eq!(u.sql, "UPDATE documents_fts SET title = ?2, content = ?3 WHERE doc_id = ?1");
    assert_eq!(u.params.len(), 3);
    let d = remove_document(ID);
    assert_eq!(d.sql, "DELETE FROM documents_fts WHERE doc_id = ?1");
    assert_eq!(d.params, vec![SqlParam::Text("550e8400-e29b-41d4-a716-446655440000".to_string())]);
    assert!(create_fts_table().sql.starts_with("CREATE VIRTUAL TABLE IF NOT EXISTS documents_fts"));
    assert_eq!(count_index_rows().sql, "SELECT COUNT(*) AS cnt FROM documents_fts");
    assert!(select_active_documents().sql.ends_with("WHERE deleted_at IS NULL"));
}

#[test]
fn search_statement_binds_query_and_page() {
    let s = search_statement("rust*", 20, 5);
    assert!(s.sql.contains("MATCH ?1 ORDER BY rank LIMIT ?2 OFFSET ?3"));
    assert_eq!(
        s.params,
        vec![SqlParam::Text("rust*".to_string()), SqlParam::Int(20), SqlParam::Int(5)]
    );
}

#[test]
fn backfill_runs_only_on_an_empty_index() {
    assert!(backfill_needed(None));
    assert!(backfill_needed(Some(0)));
    assert!(!backfill_needed(Some(3)));
}

#[test]
fn rows_with_text_fields_and_valid_ids_are_read() {
    let rows = vec![
        row(Some("550e8400-e29b-41d4-a716-446655440000"), Some("Pre-FTS document"), Some("content")),
        row(Some("not-a-uuid"), Some("t"), Some("c")),
        row(Some("550E8400E29B41D4A716446655440000"), None, Some("c")),
        row(Some("{550e8400-e29b-41d4-a716-446655440000}"), Some("braced"), Some("c2")),
    ];
    let entries = backfill_entries(&rows);
    assert_eq!(entries.len(), 2);
    assert_eq!(entries[0].doc_id, ID);
    assert_eq!(entries[0].title, "Pre-FTS document");
    assert_eq!(entries[1].title, "braced");
    let hits = search_results(&rows);
    assert_eq!(hits.len(), 2);
    assert_eq!(hits[1].snippet, "c2");
}

#[test]
fn backfill_reads_ids_stored_as_bytes() {
    let blob = |bytes: Vec<u8>, title: &str| TextRow {
        first: None,
        first_bytes: Some(bytes),
        second: Some(title.to_string()),
        third: Some("content".to_string()),
    };
    let rows = vec![
        blob(ID.to_be_bytes().to_vec(), "blob id"),
        blob(vec![1, 2, 3], "short blob"),
        blob(7u128.to_be_bytes().to_vec(), "seven"),
    ];
    let entries = backfill_entries(&rows);
    assert_eq!(entries.len(), 2);
    assert_eq!(entries[0].doc_id, ID);
    assert_eq!(entries[0].title, "blob id");
    assert_eq!(entries[1].doc_id, 7);
}
