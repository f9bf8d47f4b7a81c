//! The full-text index of documents: the statements that keep the SQLite
//! FTS5 table `documents_fts` in step with the documents, the match
//! expression a search query becomes, and the reading of index rows.
use vstd::prelude::*;

use crate::ids::{bytes_be, parse_uuid, uuid_from_bytes, uuid_parse_spec, uuid_text};
use crate::text::{has_char, unicode_alphanumeric, unicode_whitespace, views, words};

verus! {

// ── Statements ─────────────────────────────────────────────────────

/// A value bound to a statement parameter.
#[derive(Debug, PartialEq, Eq)]
pub enum SqlParam {
    Text(String),
    Int(i64),
}

/// The mathematical value of a [`SqlParam`].
pub enum SqlParamView {
    Text(Seq<char>),
    Int(i64),
}

impl View for SqlParam {
    type V = SqlParamView;

    open spec fn view(&self) -> SqlParamView {
        match self {
            SqlParam::Text(s) => SqlParamView::Text(s@),
            SqlParam::Int(i) => SqlParamView::Int(*i),
        }
    }
}

/// An SQL statement with the values of its numbered parameters, in order.
pub struct Statement {
    pub sql: String,
    pub params: Vec<SqlParam>,
}

/// The views of a list of parameters.
pub open spec fn params_view(ps: Seq<SqlParam>) -> Seq<SqlParamView> {
    ps.map_values(|p: SqlParam| p@)
}

/// The statement that creates the index table when it does not exist.
pub open spec fn create_table_sql() -> Seq<char> {
    "CREATE VIRTUAL TABLE IF NOT EXISTS documents_fts USING fts5(doc_id, title, content)"@
}

/// The statement that adds a document to the index.
pub open spec fn insert_sql() -> Seq<char> {
    "INSERT INTO documents_fts (doc_id, title, content) VALUES (?1, ?2, ?3)"@
}

/// The statement that replaces a document's title and content in the index.
pub open spec fn update_sql() -> Seq<char> {
    "UPDATE documents_fts SET title = ?2, content = ?3 WHERE doc_id = ?1"@
}

/// The statement that removes a document from the index.
pub open spec fn delete_sql() -> Seq<char> {
    "DELETE FROM documents_fts WHERE doc_id = ?1"@
}

/// The statement that counts the rows of the index.
pub open spec fn count_sql() -> Seq<char> {
    "SELECT COUNT(*) AS cnt FROM documents_fts"@
}

/// The statement that reads every active document, for filling the index.
pub open spec fn active_documents_sql() -> Seq<char> {
    "SELECT id, title, content FROM documents WHERE deleted_at IS NULL"@
}

/// The search statement: matches ranked by relevance, with a content
/// snippet that marks the matched terms, a page of them at a time.
pub open spec fn search_sql() -> Seq<char> {
    "SELECT doc_id, title, snippet(documents_fts, 2, '<mark>', '</mark>', '...', 32) AS snippet FROM documents_fts WHERE documents_fts MATCH ?1 ORDER BY rank LIMIT ?2 OFFSET ?3"@
}

/// Creates the index table if it does not exist.
pub fn create_fts_table() -> (res: Statement)
    ensures
        res.sql@ == create_table_sql(),
        res.params@.len() == 0,
{
    Statement {
        sql: crate::text::string_from(
            "CREATE VIRTUAL TABLE IF NOT EXISTS documents_fts USING fts5(doc_id, title, content)",
        ),
        params: Vec::new(),
    }
}

/// Adds a document's id, title and content to the index.
pub fn index_document(doc_id: u128, title: &str, content: &str) -> (res: Statement)
    ensures
        res.sql@ == insert_sql(),
        params_view(res.params@) == seq![
            SqlParamView::Text(uuid_text(doc_id as nat)),
            SqlParamView::Text(title@),
            SqlParamView::Text(content@),
        ],
{
    let params = vec![
        SqlParam::Text(crate::ids::uuid_string(doc_id)),
        SqlParam::Text(crate::text::string_from(title)),
        SqlParam::Text(crate::text::string_from(content)),
    ];
    assert(params_view(params@) =~= seq![
        SqlParamView::Text(uuid_text(doc_id as nat)),
        SqlParamView::Text(title@),
        SqlParamView::Text(content@),
    ]);
    Statement {
        sql: crate::text::string_from(
            "INSERT INTO documents_fts (doc_id, title, content) VALUES (?1, ?2, ?3)",
        ),
        params,
    }
}

/// Replaces a document's title and content in the index.
pub fn update_document_index(doc_id: u128, title: &str, content: &str) -> (res: Statement)
    ensures
        res.sql@ == update_sql(),
        params_view(res.params@) == seq![
            SqlParamView::Text(uuid_text(doc_id as nat)),
            SqlParamView::Text(title@),
            SqlParamView::Text(content@),
        ],
{
    let params = vec![
        SqlParam::Text(crate::ids::uuid_string(doc_id)),
        SqlParam::Text(crate::text::string_from(title)),
        SqlParam::Text(crate::text::string_from(content)),
    ];
    assert(params_view(params@) =~= seq![
        SqlParamView::Text(uuid_text(doc_id as nat)),
        SqlParamView::Text(title@),
        SqlParamView::Text(content@),
    ]);
    Statement {
        sql: crate::text::string_from(
            "UPDATE documents_fts SET title = ?2, content = ?3 WHERE doc_id = ?1",
        ),
        params,
    }
}

/// Removes a document from the index.
pub fn remove_document(doc_id: u128) -> (res: Statement)
    ensures
        res.sql@ == delete_sql(),
        params_view(res.params@) == seq![SqlParamView::Text(uuid_text(doc_id as nat))],
{
    let params = vec![SqlParam::Text(crate::ids::uuid_string(doc_id))];
    assert(params_view(params@) =~= seq![SqlParamView::Text(uuid_text(doc_id as nat))]);
    Statement {
        sql: crate::text::string_from("DELETE FROM documents_fts WHERE doc_id = ?1"),
        params,
    }
}

/// Counts the rows of the index.
pub fn count_index_rows() -> (res: Statement)
    ensures
        res.sql@ == count_sql(),
        res.params@.len() == 0,
{
    Statement {
        sql: crate::text::string_from("SELECT COUNT(*) AS cnt FROM documents_fts"),
        params: Vec::new(),
    }
}

/// Reads every active document, for filling the index.
pub fn select_active_documents() -> (res: Statement)
    ensures
        res.sql@ == active_documents_sql(),
        res.params@.len() == 0,
{
    Statement {
        sql: crate::text::string_from(
            "SELECT id, title, content FROM documents WHERE deleted_at IS NULL",
        ),
        params: Vec::new(),
    }
}

/// The search statement for a match expression and a page.
pub fn search_statement(match_query: &str, limit: usize, offset: usize) -> (res: Statement)
    ensures
        res.sql@ == search_sql(),
        params_view(res.params@) == seq![
            SqlParamView::Text(match_query@),
            SqlParamView::Int(limit as i64),
            SqlParamView::Int(offset as i64),
        ],
{
    let params = vec![
        SqlParam::Text(crate::text::string_from(match_query)),
        SqlParam::Int(limit as i64),
        SqlParam::Int(offset as i64),
    ];
    assert(params_view(params@) =~= seq![
        SqlParamView::Text(match_query@),
        SqlParamView::Int(limit as i64),
        SqlParamView::Int(offset as i64),
    ]);
    Statement {
        sql: crate::text::string_from(
            "SELECT doc_id, title, snippet(documents_fts, 2, '<mark>', '</mark>', '...', 32) AS snippet FROM documents_fts WHERE documents_fts MATCH ?1 ORDER BY rank LIMIT ?2 OFFSET ?3",
        ),
        params,
    }
}

// ── Filling the index ──────────────────────────────────────────────

/// Whether the index must be filled: unless the count of its rows reads as
/// a positive number.
pub open spec fn backfill_needed_spec(count: Option<i64>) -> bool {
    match count {
        Some(c) => c <= 0,
        None => true,
    }
}

/// Decides, from the row count read from the index (if it could be read),
/// whether the index must be filled from the documents.
pub fn backfill_needed(count: Option<i64>) -> (res: bool)
    ensures
        res == backfill_needed_spec(count),
{
    match count {
        Some(c) => c <= 0,
        None => true,
    }
}

/// A row read from the store: its first three fields where they are text,
/// and its first field where it is a blob (the store keeps a document's
/// UUID id as sixteen bytes).
pub struct TextRow {
    pub first: Option<String>,
    pub first_bytes: Option<Vec<u8>>,
    pub second: Option<String>,
    pub third: Option<String>,
}

/// A document to add to the index: id, title and content.
pub struct IndexEntry {
    pub doc_id: u128,
    pub title: String,
    pub content: String,
}

/// The id a row's first field holds: a text that reads as a UUID, or
/// sixteen bytes, the UUID in big-endian order.
pub open spec fn row_id(r: TextRow) -> Option<int> {
    match r.first {
        Some(a) => uuid_parse_spec(a@),
        None => match r.first_bytes {
            Some(b) => if b@.len() == 16 {
                Some(bytes_be(b@))
            } else {
                None
            },
            None => None,
        },
    }
}

/// What a row gives: an entry when its first field holds an id and its
/// second and third are text.
pub open spec fn row_entry(r: TextRow) -> Option<(int, Seq<char>, Seq<char>)> {
    match (row_id(r), r.second, r.third) {
        (Some(id), Some(b), Some(c)) => Some((id, b@, c@)),
        _ => None,
    }
}

/// Reads the id a row's first field holds.
fn id_of_row(r: &TextRow) -> (res: Option<u128>)
    ensures
        match res {
            Some(v) => row_id(*r) == Some(v as int),
            None => row_id(*r) is None,
        },
{
    match &r.first {
        Some(a) => parse_uuid(a.as_str()),
        None => match &r.first_bytes {
            Some(b) => uuid_from_bytes(b.as_slice()),
            None => None,
        },
    }
}

/// Reads one row into an entry, if it holds one.
fn entry_of_row(r: &TextRow) -> (res: Option<IndexEntry>)
    ensures
        match res {
            Some(e) => row_entry(*r) == Some((e.doc_id as int, e.title@, e.content@)),
            None => row_entry(*r) is None,
        },
{
    match (id_of_row(r), &r.second, &r.third) {
        (Some(id), Some(b), Some(c)) => Some(
            IndexEntry {
                doc_id: id,
                title: crate::text::string_from(b.as_str()),
                content: crate::text::string_from(c.as_str()),
            },
        ),
        _ => None,
    }
}

/// The view of a list of index entries.
pub open spec fn index_entries_view(v: Seq<IndexEntry>) -> Seq<(int, Seq<char>, Seq<char>)> {
    v.map_values(|e: IndexEntry| (e.doc_id as int, e.title@, e.content@))
}

/// The documents to add to the index from the rows of active documents:
/// the rows that hold an id (as UUID text or as sixteen bytes), a title
/// and a content, in order; rows with another shape or a malformed id are
/// skipped.
pub fn backfill_entries(rows: &Vec<TextRow>) -> (res: Vec<IndexEntry>)
    ensures
        index_entries_view(res@) == rows@.filter_map(|r: TextRow| row_entry(r)),
{
    let mut res: Vec<IndexEntry> = Vec::new();
    let n = rows.len();
    let mut i: usize = 0;
    while i < n
        invariant
            n == rows@.len(),
            i <= n,
            index_entries_view(res@) == rows@.take(i as int).filter_map(|r: TextRow| row_entry(r)),
        decreases n - i,
    {
        assert(rows@.take(i + 1).drop_last() =~= rows@.take(i as int));
        assert(rows@.take(i + 1).last() == rows@[i as int]);
        match entry_of_row(&rows[i]) {
            Some(e) => {
                let ghost before = res@;
                res.push(e);
                assert(index_entries_view(res@) =~= index_entries_view(before) + seq![
                    (e.doc_id as int, e.title@, e.content@),
                ]);
            },
            None => {},
        }
        i += 1;
    }
    assert(rows@.take(n as int) =~= rows@);
    res
}

// ── Searching ──────────────────────────────────────────────────────

/// A match found by the index.
pub struct FtsResult {
    pub doc_id: u128,
    pub title: String,
    /// HTML snippet from the content with `<mark>` around matched terms.
    pub snippet: String,
}

/// The view of a list of matches.
pub open spec fn fts_results_view(v: Seq<FtsResult>) -> Seq<(int, Seq<char>, Seq<char>)> {
    v.map_values(|r: FtsResult| (r.doc_id as int, r.title@, r.snippet@))
}

/// Reads the rows the search statement returns into matches: rows that
/// hold an id, a title and a snippet, in order; others are skipped.
pub fn search_results(rows: &Vec<TextRow>) -> (res: Vec<FtsResult>)
    ensures
        fts_results_view(res@) == rows@.filter_map(|r: TextRow| row_entry(r)),
{
    let entries = backfill_entries(rows);
    let mut res: Vec<FtsResult> = Vec::new();
    let n = entries.len();
    let mut i: usize = 0;
    while i < n
        invariant
            n == entries@.len(),
            i <= n,
            fts_results_view(res@) == index_entries_view(entries@).take(i as int),
        decreases n - i,
    {
        let e = &entries[i];
        let ghost before = res@;
        let r = FtsResult {
            doc_id: e.doc_id,
            title: crate::text::string_from(e.title.as_str()),
            snippet: crate::text::string_from(e.content.as_str()),
        };
        assert((r.doc_id as int, r.title@, r.snippet@) == index_entries_view(entries@)[i as int]);
        res.push(r);
        assert(fts_results_view(res@) =~= fts_results_view(before).push(
            (r.doc_id as int, r.title@, r.snippet@),
        ));
        assert(index_entries_view(entries@).take(i + 1) =~= index_entries_view(entries@).take(
            i as int,
        ).push(index_entries_view(entries@)[i as int]));
        i += 1;
    }
    assert(index_entries_view(entries@).take(n as int) =~= index_entries_view(entries@));
    res
}

/// The characters a search query keeps: letters, digits and whitespace.
pub open spec fn query_char_kept(c: char) -> bool {
    unicode_alphanumeric(c) || unicode_whitespace(c)
}

/// The query with every other character removed.
pub open spec fn clean_query(q: Seq<char>) -> Seq<char> {
    q.filter(|c: char| query_char_kept(c))
}

/// A word followed by the prefix operator `*`.
pub open spec fn prefix_term(w: Seq<char>) -> Seq<char> {
    w.push('*')
}

/// Whether a text holds a letter or a digit.
pub open spec fn has_alphanumeric(s: Seq<char>) -> bool {
    exists|i: int| 0 <= i < s.len() && unicode_alphanumeric(#[trigger] s[i])
}

/// The match expression of a query: `None` when the cleaned query holds no
/// letter or digit (nothing is left to search for); when the cleaned query holds a space, each of its
/// words as a prefix term, joined by single spaces; else the cleaned query
/// as one prefix term.
pub open spec fn match_expression(q: Seq<char>) -> Option<Seq<char>> {
    let clean = clean_query(q);
    if !has_alphanumeric(clean) {
        None
    } else if has_char(clean, ' ') {
        Some(
            crate::form::join(
                words(clean).map_values(|w: Seq<char>| prefix_term(w)),
                seq![' '],
            ),
        )
    } else {
        Some(prefix_term(clean))
    }
}

/// Turns a search query into an FTS5 match expression: characters other
/// than letters, digits and whitespace are dropped and each word becomes a prefix match (`word*`).
/// `None` when no letter or digit is left to search for.
pub fn match_query(query: &str) -> (res: Option<String>)
    ensures
        match res {
            Some(s) => match_expression(query@) == Some(s@),
            None => match_expression(query@) is None,
        },
{
    let q = crate::text::chars_of(query);
    let mut clean: Vec<char> = Vec::new();
    let mut found: bool = false;
    let n = q.len();
    let mut i: usize = 0;
    while i < n
        invariant
            n == q@.len(),
            i <= n,
            clean@ == q@.take(i as int).filter(|c: char| query_char_kept(c)),
            found == has_alphanumeric(clean@),
        decreases n - i,
    {
        let c = q[i];
        proof {
            reveal(Seq::filter);
            assert(q@.take(i + 1).drop_last() =~= q@.take(i as int));
        }
        let alnum = crate::text::is_alphanumeric(c);
        if alnum || crate::text::is_whitespace(c) {
            let ghost before = clean@;
            clean.push(c);
            proof {
                if has_alphanumeric(before) {
                    let j = choose|j: int| 0 <= j < before.len() && unicode_alphanumeric(
                        #[trigger] before[j],
                    );
                    assert(clean@[j] == before[j]);
                }
                if alnum {
                    assert(clean@[before.len() as int] == c);
                }
                if has_alphanumeric(clean@) && !has_alphanumeric(before) {
                    let j = choose|j: int| 0 <= j < clean@.len() && unicode_alphanumeric(
                        #[trigger] clean@[j],
                    );
                    if j < before.len() {
                        assert(before[j] == clean@[j]);
                    }
                }
            }
            found = found || alnum;
        }
        i += 1;
    }
    assert(q@.take(n as int) =~= q@);
    if !found {
        return None;
    }
    match crate::text::find_char(clean.as_slice(), ' ') {
        None => {
            clean.push('*');
            Some(crate::text::string_of(clean.as_slice()))
        },
        Some(_) => {
            let ws = crate::text::words_of(clean.as_slice());
            let ghost terms = words(clean@).map_values(|w: Seq<char>| prefix_term(w));
            let mut out = String::new();
            let m = ws.len();
            let mut k: usize = 0;
            while k < m
                invariant
                    m == ws@.len(),
                    k <= m,
                    views(ws@) == words(clean@),
                    terms == words(clean@).map_values(|w: Seq<char>| prefix_term(w)),
                    out@ == crate::form::join(terms.take(k as int), seq![' ']),
                decreases m - k,
            {
                if k > 0 {
                    push_char_space(&mut out);
                }
                let w = &ws[k];
                crate::text::push_all(&mut out, crate::text::string_of(w.as_slice()).as_str());
                crate::text::push_char(&mut out, '*');
                proof {
                    let t = terms.take(k + 1);
                    assert(views(ws@)[k as int] == w@);
                    assert(t.drop_last() =~= terms.take(k as int));
                    assert(t.last() == prefix_term(w@));
                    if k == 0 {
                        assert(out@ =~= t[0]);
                    } else {
                        assert(out@ =~= crate::form::join(t.drop_last(), seq![' ']) + seq![' ']
                            + t.last());
                    }
                }
                k += 1;
            }
            assert(terms.take(m as int) =~= terms);
            Some(out)
        },
    }
}

fn push_char_space(s: &mut String)
    ensures
        final(s)@ == old(s)@ + seq![' '],
{
    crate::text::push_char(s, ' ');
    assert(old(s)@.push(' ') =~= old(s)@ + seq![' ']);
}

} // verus!

verus! {

/// A character a match expression may hold: a letter, a digit, whitespace
/// or the prefix operator.
pub open spec fn match_char(c: char) -> bool {
    query_char_kept(c) || c == '*'
}

/// The characters of a search: every character of the match expression a
/// query becomes is a letter, a digit, whitespace or the prefix operator
/// `*`, so no quote, bracket, column filter or other punctuation of the
/// user's reaches FTS5. (Words such as `OR` are kept as words.)
pub proof fn lemma_match_expression_is_plain(q: Seq<char>)
    ensures
        match_expression(q) matches Some(e) ==> forall|j: int|
            0 <= j < e.len() ==> match_char(#[trigger] e[j]),
{
    let clean = clean_query(q);
    broadcast use vstd::seq_lib::group_filter_ensures;

    assert forall|j: int| 0 <= j < clean.len() implies query_char_kept(#[trigger] clean[j]) by {
        q.lemma_filter_pred(|c: char| query_char_kept(c), j);
    }
    if clean.len() > 0 {
        if has_char(clean, ' ') {
            let ws = words(clean);
            let terms = ws.map_values(|w: Seq<char>| prefix_term(w));
            crate::text::lemma_words_chars(clean);
            assert forall|k: int, j: int|
                0 <= k < terms.len() && 0 <= j < terms[k].len() implies match_char(
                #[trigger] terms[k][j],
            ) by {
                assert(terms[k] == ws[k].push('*'));
                if j < ws[k].len() {
                    assert(terms[k][j] == ws[k][j]);
                    assert(clean.contains(ws[k][j]));
                }
            }
            assert(query_char_kept(' '));
            crate::form::lemma_join_chars(terms, seq![' '], |c: char| match_char(c));
        } else {
            let e = prefix_term(clean);
            assert forall|j: int| 0 <= j < e.len() implies match_char(#[trigger] e[j]) by {
                if j < clean.len() {
                    assert(e[j] == clean[j]);
                }
            }
        }
    }
}

/// Searching keeps every letter and digit the user typed: a query holding
/// a letter or a digit (such as `2024` or `python3`) always gives a match
/// expression, and each of its letters and digits appears in that
/// expression; a query with none gives nothing to search for. (Letters and
/// digits are never whitespace; for ASCII that is shown here, and the
/// Unicode clause names the condition.)
pub proof fn lemma_match_keeps_letters_and_digits(q: Seq<char>)
    ensures
        match_expression(q) is Some <==> exists|i: int|
            0 <= i < q.len() && unicode_alphanumeric(#[trigger] q[i]),
        forall|i: int|
            0 <= i < q.len() && (('0' <= #[trigger] q[i] && q[i] <= '9') || ('a' <= q[i] && q[i]
                <= 'z') || ('A' <= q[i] && q[i] <= 'Z')) ==> (match_expression(q) matches Some(e)
                && e.contains(q[i])),
        forall|i: int|
            0 <= i < q.len() && unicode_alphanumeric(#[trigger] q[i]) && !unicode_whitespace(q[i])
                ==> (match_expression(q) matches Some(e) && e.contains(q[i])),
{
    broadcast use vstd::seq_lib::group_filter_ensures;

    let kept = |c: char| query_char_kept(c);
    let clean = clean_query(q);
    assert(clean == q.filter(kept));
    if has_alphanumeric(clean) {
        let j = choose|j: int| 0 <= j < clean.len() && unicode_alphanumeric(#[trigger] clean[j]);
        assert(clean.contains(clean[j]));
        q.lemma_filter_contains_rev(kept, clean[j]);
        let i = choose|i: int| 0 <= i < q.len() && q[i] == clean[j];
        assert(unicode_alphanumeric(q[i]));
    }
    assert forall|i: int|
        0 <= i < q.len() && unicode_alphanumeric(#[trigger] q[i]) && !unicode_whitespace(
            q[i],
        ) implies (match_expression(q) matches Some(e) && e.contains(q[i])) by {
        lemma_match_contains(q, i);
    }
    assert forall|i: int|
        0 <= i < q.len() && (('0' <= #[trigger] q[i] && q[i] <= '9') || ('a' <= q[i] && q[i]
            <= 'z') || ('A' <= q[i] && q[i] <= 'Z')) implies (match_expression(q) matches Some(e)
        && e.contains(q[i])) by {
        assert(unicode_alphanumeric(q[i]));
        assert(!unicode_whitespace(q[i]));
        lemma_match_contains(q, i);
    }
    assert forall|i: int| 0 <= i < q.len() && unicode_alphanumeric(#[trigger] q[i]) implies match_expression(
        q,
    ) is Some by {
        q.lemma_filter_contains(kept, i);
        let j = choose|j: int| 0 <= j < clean.len() && clean[j] == q[i];
        assert(unicode_alphanumeric(clean[j]));
    }
}

proof fn lemma_match_contains(q: Seq<char>, i: int)
    requires
        0 <= i < q.len(),
        unicode_alphanumeric(q[i]),
        !unicode_whitespace(q[i]),
    ensures
        match_expression(q) matches Some(e) && e.contains(q[i]),
{
    broadcast use vstd::seq_lib::group_filter_ensures;

    let kept = |c: char| query_char_kept(c);
    let clean = clean_query(q);
    let c = q[i];
    q.lemma_filter_contains(kept, i);
    assert(clean.contains(c));
    let j = choose|j: int| 0 <= j < clean.len() && clean[j] == c;
    assert(unicode_alphanumeric(clean[j]));
    assert(has_alphanumeric(clean));
    if has_char(clean, ' ') {
        let ws = words(clean);
        let terms = ws.map_values(|w: Seq<char>| prefix_term(w));
        crate::text::lemma_words_cover(clean, c);
        let k = choose|k: int| 0 <= k < ws.len() && (#[trigger] ws[k]).contains(c);
        let m = choose|m: int| 0 <= m < ws[k].len() && ws[k][m] == c;
        assert(terms[k] == ws[k].push('*'));
        assert(terms[k][m] == c);
        crate::form::lemma_join_contains(terms, seq![' '], k, c);
    } else {
        let e = prefix_term(clean);
        assert(e[j] == c);
    }
}

} // verus!
