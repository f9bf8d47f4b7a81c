use rho_brain::error::ApiError;
use rho_brain::fts::FtsResult;
use rho_brain::search::{
    empty_response, excerpt, search_response, tag_filter_of, CandidateDocument, SearchCandidate,
    SearchRequest, TagFilter,
};

const ID_A: u128 = 0x11111111_2222_3333_4444_555555555555;
const ID_B: u128 = 0xaaaaaaaa_bbbb_cccc_dddd_eeeeeeeeeeee;

fn request(query: &str) -> SearchRequest {
    SearchRequest { query: query.to_string(), tags: None, limit: None, offset: None }
}

fn candidate(id: u128, title: &str, snippet: &str, doc: Option<(bool, &str, Vec<i64>, Vec<&str>)>) -> SearchCandidate {
    SearchCandidate {
        hit: FtsResult { doc_id: id, title: title.to_string(), snippet: snippet.to_string() },
        document: doc.map(|(deleted, content, tag_ids, names)| CandidateDocument {
            deleted,
            content: content.to_string(),
            tag_ids,
            tag_names: names.into_iter().map(|n| n.to_string()).collect(),
        }),
    }
}

#[test]
fn search_defaults_and_trimming() {
    let r = request("  rust  ");
    assert_eq!(r.limit_or_default(), 20);
    assert_eq!(r.offset_or_default(), 0);
    assert_eq!(r.trimmed_query(), "rust");
    let e = empty_response(&r);
    assert!(e.results.is_empty());
    assert_eq!(e.query, "  rust  ");
}

#[test]
fn get_search_requires_query_parameter() {
    let err = SearchRequest::from_query_params(None, None, None).err().unwrap();
    assert_eq!(err, ApiError::BadRequest("missing query parameter 'q'".to_string()));
    let ok = SearchRequest::from_query_params(Some("Rust".to_string()), Some(5), None).ok().unwrap();
    assert_eq!(ok.query, "Rust");
    assert_eq!(ok.limit_or_default(), 5);
    assert!(ok.tags.is_none());
}

#[test]
fn empty_tag_list_is_no_filter() {
    let mut r = request("x");
    assert!(r.tag_filter().is_none());
    r.tags = Some(vec![]);
    assert!(r.tag_filter().is_none());
    r.tags = Some(vec!["cooking".to_string()]);
    assert_eq!(r.tag_filter(), Some(vec!["cooking".to_string()]));
}

#[test]
fn excerpt_cuts_long_content_at_two_hundred_characters() {
    let short = "é".repeat(200);
    assert_eq!(excerpt(&short), short);
    let long = "é".repeat(201);
    assert_eq!(excerpt(&long), format!("{}...", "é".repeat(200)));
}

#[test]
fn results_skip_deleted_and_missing_documents_and_fall_back_to_excerpt() {
    let candidates = vec![
        candidate(ID_A, "Rust patterns", "", Some((false, "Ownership and borrowing", vec![1], vec!["rust", "programming"]))),
        candidate(ID_B, "Gone", "<mark>x</mark>", Some((true, "deleted", vec![], vec![]))),
        candidate(ID_B, "Missing", "<mark>x</mark>", None),
    ];
    let r = search_response(&request("ownership"), &candidates, &TagFilter::Unfiltered);
    assert_eq!(r.results.len(), 1);
    let hit = &r.results[0];
    assert_eq!(hit.id, "11111111-2222-3333-4444-555555555555");
    assert_eq!(hit.title, "Rust patterns");
    assert_eq!(hit.excerpt, "Ownership and borrowing");
    assert_eq!(hit.tags, vec!["rust".to_string(), "programming".to_string()]);
}

#[test]
fn tag_filter_keeps_documents_with_any_tag() {
    let candidates = vec![
        candidate(ID_A, "Rust patterns", "<mark>a</mark>", Some((false, "c", vec![1, 2], vec!["rust"]))),
        candidate(ID_B, "Cooking pasta", "<mark>b</mark>", Some((false, "c", vec![3], vec!["cooking"]))),
    ];
    let filter = tag_filter_of(true, vec![3]);
    let r = search_response(&request("a"), &candidates, &filter);
    assert_eq!(r.results.len(), 1);
    assert_eq!(r.results[0].title, "Cooking pasta");
    assert_eq!(r.results[0].excerpt, "<mark>b</mark>");
}

#[test]
fn unknown_tags_match_nothing() {
    let candidates = vec![candidate(ID_A, "t", "s", Some((false, "c", vec![1], vec!["rust"])))];
    let filter = tag_filter_of(true, vec![]);
    assert!(matches!(filter, TagFilter::NoSuchTags));
    let r = search_response(&request("t"), &candidates, &filter);
    assert!(r.results.is_empty());
    assert!(matches!(tag_filter_of(false, vec![1]), TagFilter::Unfiltered));
}
