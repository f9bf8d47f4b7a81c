//! Documents: the rules of the JSON document routes. Each route reads what
//! it needs from the store, asks these functions what to write and what to
//! answer, and writes it. A document is soft-deleted: it stays stored with
//! a deletion time and is then treated as missing.
use vstd::prelude::*;

use crate::error::{ApiError, ApiErrorView};
use crate::form::strings_view;
use crate::metadata::{
    apply_ops, insert_ops, json_entries_view, merge_ops, ops_view, JsonEntry, JsonScalar,
    MetadataOp, MetadataOpView, MetadataRow,
};
use crate::text::{is_trimmed, trim};

verus! {

// ── Stored documents ───────────────────────────────────────────────

/// A stored document. Times are nanoseconds since the Unix epoch; a
/// document with a deletion time is soft-deleted.
pub struct DocumentRecord {
    pub id: u128,
    pub title: String,
    pub content: String,
    pub created_at: i128,
    pub updated_at: i128,
    pub deleted_at: Option<i128>,
}

/// A document that is stored and not deleted.
pub open spec fn is_active(d: DocumentRecord) -> bool {
    d.deleted_at is None
}

/// The document a route works on: a missing or deleted document is not
/// found.
pub fn active_document(found: Option<DocumentRecord>) -> (res: Result<DocumentRecord, ApiError>)
    ensures
        match found {
            Some(d) => if is_active(d) {
                res == Ok::<DocumentRecord, ApiError>(d)
            } else {
                res matches Err(e) && e@ == ApiErrorView::NotFound
            },
            None => res matches Err(e) && e@ == ApiErrorView::NotFound,
        },
{
    match found {
        Some(d) => {
            if d.deleted_at.is_some() {
                Err(ApiError::NotFound)
            } else {
                Ok(d)
            }
        },
        None => Err(ApiError::NotFound),
    }
}

// ── Requests ───────────────────────────────────────────────────────

/// The metadata given in a request: a JSON object (its entries), or any
/// other JSON value.
#[derive(Debug, PartialEq, Eq)]
pub enum MetadataInput {
    Object(Vec<JsonEntry>),
    NotObject,
}

/// A request to create a document.
pub struct CreateDocumentRequest {
    pub title: String,
    /// Optional so agents can create a title-only stub and append later.
    pub content: Option<String>,
    pub tags: Option<Vec<String>>,
    pub metadata: Option<MetadataInput>,
}

/// A request to update a document: absent fields are left as they are.
pub struct UpdateDocumentRequest {
    pub title: Option<String>,
    pub content: Option<String>,
    pub tags: Option<Vec<String>>,
    pub metadata: Option<MetadataInput>,
}

/// A request to append text to a document's content.
pub struct AppendRequest {
    pub content: String,
    /// Joiner between the existing and appended text (default: blank line).
    pub separator: Option<String>,
}

/// A request to add tags to a document.
pub struct AddTagsRequest {
    pub tags: Vec<String>,
}

/// A request to find the active document with a title, or create it.
pub struct GetOrCreateRequest {
    pub title: String,
    /// Used only when creating; ignored when the title already exists.
    pub content: Option<String>,
    /// Used only when creating; ignored when the title already exists.
    pub tags: Option<Vec<String>>,
}

/// The paging of the document list.
pub struct ListQuery {
    pub limit: Option<usize>,
    pub offset: Option<usize>,
}

impl ListQuery {
    /// The page size: 50 unless given.
    pub fn limit_or_default(&self) -> (res: usize)
        ensures
            res == match self.limit {
                Some(l) => l,
                None => 50,
            },
    {
        match self.limit {
            Some(l) => l,
            None => 50,
        }
    }

    /// The number of documents skipped: none unless given.
    pub fn offset_or_default(&self) -> (res: usize)
        ensures
            res == match self.offset {
                Some(o) => o,
                None => 0,
            },
    {
        match self.offset {
            Some(o) => o,
            None => 0,
        }
    }
}

/// The text of an optional field, empty when absent.
pub open spec fn text_or_empty(o: Option<String>) -> Seq<char> {
    match o {
        Some(s) => s@,
        None => Seq::empty(),
    }
}

/// The strings of an optional list, none when absent.
pub open spec fn list_or_empty(o: Option<Vec<String>>) -> Seq<Seq<char>> {
    match o {
        Some(v) => strings_view(v@),
        None => Seq::empty(),
    }
}

/// The metadata changes of a create: one row per entry of an object; no
/// row for any other value.
pub open spec fn create_metadata_ops(m: Option<MetadataInput>) -> Seq<MetadataOpView> {
    match m {
        Some(MetadataInput::Object(es)) => insert_ops(json_entries_view(es@)),
        _ => Seq::empty(),
    }
}

/// The metadata changes of a full update: when metadata is given, remove
/// every row, then add one row per entry if it is an object; nothing when
/// it is absent.
pub open spec fn replace_metadata_ops(m: Option<MetadataInput>) -> Seq<MetadataOpView> {
    match m {
        Some(MetadataInput::Object(es)) => seq![MetadataOpView::ClearAll] + insert_ops(
            json_entries_view(es@),
        ),
        Some(MetadataInput::NotObject) => seq![MetadataOpView::ClearAll],
        None => Seq::empty(),
    }
}

fn copy_strings(v: &Vec<String>) -> (res: Vec<String>)
    ensures
        strings_view(res@) == strings_view(v@),
{
    let mut res: Vec<String> = Vec::new();
    let n = v.len();
    let mut i: usize = 0;
    while i < n
        invariant
            n == v@.len(),
            i <= n,
            strings_view(res@) == strings_view(v@).take(i as int),
        decreases n - i,
    {
        let s = crate::text::string_from(v[i].as_str());
        let ghost before = res@;
        res.push(s);
        assert(strings_view(res@) =~= strings_view(before).push(s@));
        assert(strings_view(v@).take(i + 1) =~= strings_view(v@).take(i as int).push(v@[i as int]@));
        i += 1;
    }
    assert(strings_view(v@).take(n as int) =~= strings_view(v@));
    res
}

fn copy_optional(o: &Option<String>) -> (res: String)
    ensures
        res@ == text_or_empty(*o),
{
    match o {
        Some(s) => crate::text::string_from(s.as_str()),
        None => String::new(),
    }
}

// ── Create ─────────────────────────────────────────────────────────

/// What a create writes: the document's title and content, the tags to
/// attach in order, and the metadata changes.
pub struct CreatePlan {
    pub title: String,
    pub content: String,
    pub tags: Vec<String>,
    pub metadata: Vec<MetadataOp>,
}

/// What creating a document writes: the title, the content (empty when
/// absent), each listed tag, and one typed metadata row per key when the
/// metadata is an object.
pub fn plan_create(req: &CreateDocumentRequest) -> (res: CreatePlan)
    ensures
        res.title@ == req.title@,
        res.content@ == text_or_empty(req.content),
        strings_view(res.tags@) == list_or_empty(req.tags),
        ops_view(res.metadata@) == create_metadata_ops(req.metadata),
{
    let tags = match &req.tags {
        Some(v) => copy_strings(v),
        None => Vec::new(),
    };
    let metadata = match &req.metadata {
        Some(MetadataInput::Object(es)) => crate::metadata::insert_metadata_ops(es),
        _ => Vec::new(),
    };
    assert(ops_view(metadata@) == create_metadata_ops(req.metadata));
    CreatePlan {
        title: crate::text::string_from(req.title.as_str()),
        content: copy_optional(&req.content),
        tags,
        metadata,
    }
}

// ── Update ─────────────────────────────────────────────────────────

/// What an update writes.
pub struct UpdatePlan {
    /// The new title, when given.
    pub title: Option<String>,
    /// The new content, when given.
    pub content: Option<String>,
    /// The title the index gets: the new one, or the current one.
    pub index_title: String,
    /// The content the index gets: the new one, or the current one.
    pub index_content: String,
    /// The tags that replace all of the document's tags, when given.
    pub replace_tags: Option<Vec<String>>,
    /// The metadata changes.
    pub metadata: Vec<MetadataOp>,
}

/// An optional text's view.
pub open spec fn opt_view(o: Option<String>) -> Option<Seq<char>> {
    match o {
        Some(s) => Some(s@),
        None => None,
    }
}

/// What updating the document `doc` writes: title and content only when
/// given; the full tag list replaced when tags are given; the metadata
/// replaced as a whole when given; and the index brought to the resulting
/// title and content.
pub fn plan_update(doc: &DocumentRecord, req: &UpdateDocumentRequest) -> (res: UpdatePlan)
    ensures
        opt_view(res.title) == opt_view(req.title),
        opt_view(res.content) == opt_view(req.content),
        res.index_title@ == match req.title {
            Some(t) => t@,
            None => doc.title@,
        },
        res.index_content@ == match req.content {
            Some(c) => c@,
            None => doc.content@,
        },
        match req.tags {
            Some(ts) => res.replace_tags matches Some(r) && strings_view(r@) == strings_view(ts@),
            None => res.replace_tags is None,
        },
        ops_view(res.metadata@) == replace_metadata_ops(req.metadata),
{
    let title = match &req.title {
        Some(t) => Some(crate::text::string_from(t.as_str())),
        None => None,
    };
    let content = match &req.content {
        Some(c) => Some(crate::text::string_from(c.as_str())),
        None => None,
    };
    let index_title = match &req.title {
        Some(t) => crate::text::string_from(t.as_str()),
        None => crate::text::string_from(doc.title.as_str()),
    };
    let index_content = match &req.content {
        Some(c) => crate::text::string_from(c.as_str()),
        None => crate::text::string_from(doc.content.as_str()),
    };
    let replace_tags = match &req.tags {
        Some(ts) => Some(copy_strings(ts)),
        None => None,
    };
    let metadata = match &req.metadata {
        Some(MetadataInput::Object(es)) => {
            let inserts = crate::metadata::insert_metadata_ops(es);
            let mut ops: Vec<MetadataOp> = vec![MetadataOp::ClearAll];
            let mut rest = inserts;
            let ghost first = ops@;
            let ghost tail = rest@;
            ops.append(&mut rest);
            assert(ops@ == first + tail);
            assert(ops_view(ops@) =~= seq![MetadataOpView::ClearAll] + ops_view(tail));
            ops
        },
        Some(MetadataInput::NotObject) => {
            let ops = vec![MetadataOp::ClearAll];
            assert(ops_view(ops@) =~= seq![MetadataOpView::ClearAll]);
            ops
        },
        None => {
            let ops: Vec<MetadataOp> = Vec::new();
            assert(ops_view(ops@) =~= Seq::<MetadataOpView>::empty());
            ops
        },
    };
    UpdatePlan { title, content, index_title, index_content, replace_tags, metadata }
}

// ── Append ─────────────────────────────────────────────────────────

/// The content after appending: the appended text alone when the content
/// is empty, else the content, the separator (a blank line unless given)
/// and the appended text.
pub open spec fn appended_content_spec(
    existing: Seq<char>,
    addition: Seq<char>,
    separator: Option<Seq<char>>,
) -> Seq<char> {
    if existing.len() == 0 {
        addition
    } else {
        existing + match separator {
            Some(s) => s,
            None => "\n\n"@,
        } + addition
    }
}

/// Appends text to a document's content without read-modify-write on the
/// client: an empty (stub) document gets the text directly, with no
/// separator.
pub fn appended_content(existing: &str, req: &AppendRequest) -> (res: String)
    ensures
        res@ == appended_content_spec(existing@, req.content@, opt_view(req.separator)),
{
    if existing.is_empty() {
        return crate::text::string_from(req.content.as_str());
    }
    let mut out = crate::text::string_from(existing);
    match &req.separator {
        Some(s) => crate::text::push_all(&mut out, s.as_str()),
        None => crate::text::push_all(&mut out, "\n\n"),
    }
    crate::text::push_all(&mut out, req.content.as_str());
    out
}

} // verus!

verus! {

// ── Adding tags ────────────────────────────────────────────────────

/// The tag names a request lists: trimmed, blank ones dropped, in order.
pub open spec fn request_tag_names(req: Seq<Seq<char>>) -> Seq<Seq<char>> {
    req.map_values(|t: Seq<char>| trim(t)).filter(|t: Seq<char>| t.len() > 0)
}

/// The names to attach, going through `names` in order: each one that is
/// neither attached already nor met before.
pub open spec fn new_tags(existing: Seq<Seq<char>>, names: Seq<Seq<char>>) -> Seq<Seq<char>>
    decreases names.len(),
{
    if names.len() == 0 {
        Seq::empty()
    } else {
        let acc = new_tags(existing, names.drop_last());
        let n = names.last();
        if existing.contains(n) || acc.contains(n) {
            acc
        } else {
            acc.push(n)
        }
    }
}

/// Whether `v` holds a string equal to `s`.
pub fn contains_string(v: &Vec<String>, s: &String) -> (res: bool)
    ensures
        res == strings_view(v@).contains(s@),
{
    let n = v.len();
    let mut i: usize = 0;
    while i < n
        invariant
            n == v@.len(),
            i <= n,
            forall|k: int| 0 <= k < i ==> strings_view(v@)[k] != s@,
        decreases n - i,
    {
        if v[i] == *s {
            assert(strings_view(v@)[i as int] == s@);
            return true;
        }
        i += 1;
    }
    false
}

/// The tags to attach when adding `requested` to a document that has the
/// tags `existing`: the requested names, trimmed, blank ones dropped, each
/// once, in request order, leaving out those already attached.
pub fn tags_to_add(existing: &Vec<String>, requested: &Vec<String>) -> (res: Vec<String>)
    ensures
        strings_view(res@) == new_tags(strings_view(existing@), request_tag_names(strings_view(requested@))),
{
    let ghost e = strings_view(existing@);
    let ghost r = strings_view(requested@);
    let mut res: Vec<String> = Vec::new();
    let n = requested.len();
    let mut i: usize = 0;
    while i < n
        invariant
            n == requested@.len(),
            i <= n,
            e == strings_view(existing@),
            r == strings_view(requested@),
            strings_view(res@) == new_tags(e, request_tag_names(r.take(i as int))),
        decreases n - i,
    {
        let t = crate::text::trim_str(requested[i].as_str());
        proof {
            reveal(Seq::filter);
            let p = r.take(i as int);
            let q = r.take(i + 1);
            assert(q.drop_last() =~= p);
            assert(q.last() == requested@[i as int]@);
            let mp = p.map_values(|t: Seq<char>| trim(t));
            let mq = q.map_values(|t: Seq<char>| trim(t));
            assert(mq =~= mp.push(t@));
            assert(mq.drop_last() =~= mp);
        }
        if !t.as_str().is_empty() {
            let ghost names = request_tag_names(r.take(i + 1));
            assert(names.drop_last() =~= request_tag_names(r.take(i as int)));
            assert(names.last() == t@);
            if !contains_string(existing, &t) && !contains_string(&res, &t) {
                let ghost before = res@;
                res.push(t);
                assert(strings_view(res@) =~= strings_view(before).push(t@));
            }
        } else {
            assert(request_tag_names(r.take(i + 1)) == request_tag_names(r.take(i as int)));
        }
        i += 1;
    }
    assert(r.take(n as int) =~= r);
    res
}

proof fn lemma_new_tags(existing: Seq<Seq<char>>, names: Seq<Seq<char>>)
    ensures
        forall|x: Seq<char>| #[trigger]
            new_tags(existing, names).contains(x) <==> (names.contains(x) && !existing.contains(
                x,
            )),
        new_tags(existing, names).no_duplicates(),
    decreases names.len(),
{
    if names.len() > 0 {
        let init = names.drop_last();
        lemma_new_tags(existing, init);
        let acc = new_tags(existing, init);
        let n = names.last();
        assert(names =~= init.push(n));
        assert forall|x: Seq<char>| names.contains(x) <==> (init.contains(x) || x == n) by {
            if names.contains(x) {
                let k = choose|k: int| 0 <= k < names.len() && names[k] == x;
                if k < init.len() {
                    assert(init[k] == x);
                }
            }
            if init.contains(x) {
                let k = choose|k: int| 0 <= k < init.len() && init[k] == x;
                assert(names[k] == x);
            }
            if x == n {
                assert(names[names.len() - 1] == x);
            }
        }
        if !(existing.contains(n) || acc.contains(n)) {
            let a2 = acc.push(n);
            assert forall|x: Seq<char>| a2.contains(x) <==> (acc.contains(x) || x == n) by {
                if a2.contains(x) {
                    let k = choose|k: int| 0 <= k < a2.len() && a2[k] == x;
                    if k < acc.len() {
                        assert(acc[k] == x);
                    }
                }
                if acc.contains(x) {
                    let k = choose|k: int| 0 <= k < acc.len() && acc[k] == x;
                    assert(a2[k] == x);
                }
                if x == n {
                    assert(a2[a2.len() - 1] == x);
                }
            }
            assert(a2.no_duplicates()) by {
                assert forall|i: int, j: int| 0 <= i < a2.len() && 0 <= j < a2.len() && i != j
                    implies a2[i] != a2[j] by {
                    if i < acc.len() && j < acc.len() {
                        assert(a2[i] == acc[i] && a2[j] == acc[j]);
                    } else if i < acc.len() {
                        assert(a2[i] == acc[i]);
                        assert(acc.contains(acc[i]));
                    } else if j < acc.len() {
                        assert(a2[j] == acc[j]);
                        assert(acc.contains(acc[j]));
                    }
                }
            }
        }
    }
}

/// Adding tags takes the union: the tags attached after the addition are
/// those attached before together with the requested names (trimmed,
/// blank ones dropped); the tags attached are new, none twice, none
/// already attached; so a document whose tags were distinct still has
/// distinct tags.
pub proof fn lemma_add_tags_is_union(existing: Seq<Seq<char>>, requested: Seq<Seq<char>>)
    ensures
        (existing + new_tags(existing, request_tag_names(requested))).to_set() == existing.to_set()
            + request_tag_names(requested).to_set(),
        new_tags(existing, request_tag_names(requested)).no_duplicates(),
        forall|x: Seq<char>| #[trigger]
            new_tags(existing, request_tag_names(requested)).contains(x) ==> !existing.contains(x),
        existing.no_duplicates() ==> (existing + new_tags(
            existing,
            request_tag_names(requested),
        )).no_duplicates(),
{
    let names = request_tag_names(requested);
    let add = new_tags(existing, names);
    lemma_new_tags(existing, names);
    assert forall|x: Seq<char>| (existing + add).contains(x) <==> (existing.contains(x)
        || add.contains(x)) by {
        if (existing + add).contains(x) {
            let k = choose|k: int| 0 <= k < (existing + add).len() && (existing + add)[k] == x;
            if k < existing.len() {
                assert(existing[k] == x);
            } else {
                assert(add[k - existing.len()] == x);
            }
        }
        if existing.contains(x) {
            let k = choose|k: int| 0 <= k < existing.len() && existing[k] == x;
            assert((existing + add)[k] == x);
        }
        if add.contains(x) {
            let k = choose|k: int| 0 <= k < add.len() && add[k] == x;
            assert((existing + add)[k + existing.len()] == x);
        }
    }
    assert((existing + add).to_set() =~= existing.to_set() + names.to_set());
    if existing.no_duplicates() {
        let all = existing + add;
        assert forall|i: int, j: int| 0 <= i < all.len() && 0 <= j < all.len() && i != j implies all[i]
            != all[j] by {
            if i < existing.len() && j >= existing.len() {
                assert(add[j - existing.len()] == all[j]);
                assert(add.contains(all[j]));
                assert(existing[i] == all[i]);
            } else if j < existing.len() && i >= existing.len() {
                assert(add[i - existing.len()] == all[i]);
                assert(add.contains(all[i]));
                assert(existing[j] == all[j]);
            } else if i >= existing.len() && j >= existing.len() {
                assert(add[i - existing.len()] == all[i]);
                assert(add[j - existing.len()] == all[j]);
            }
        }
    }
}

proof fn lemma_new_tags_all_known(existing: Seq<Seq<char>>, names: Seq<Seq<char>>)
    requires
        forall|x: Seq<char>| #[trigger] names.contains(x) ==> existing.contains(x),
    ensures
        new_tags(existing, names) == Seq::<Seq<char>>::empty(),
    decreases names.len(),
{
    if names.len() > 0 {
        let init = names.drop_last();
        assert forall|x: Seq<char>| #[trigger] init.contains(x) implies existing.contains(x) by {
            let k = choose|k: int| 0 <= k < init.len() && init[k] == x;
            assert(names[k] == x);
            assert(names.contains(x));
        }
        lemma_new_tags_all_known(existing, init);
        assert(names[names.len() - 1] == names.last());
        assert(names.contains(names.last()));
    }
}

/// Adding the same tags a second time attaches nothing: once the tags of
/// an addition are attached, the same request finds every name attached.
pub proof fn lemma_add_tags_idempotent(existing: Seq<Seq<char>>, requested: Seq<Seq<char>>)
    ensures
        new_tags(
            existing + new_tags(existing, request_tag_names(requested)),
            request_tag_names(requested),
        ) == Seq::<Seq<char>>::empty(),
{
    let names = request_tag_names(requested);
    let add = new_tags(existing, names);
    lemma_add_tags_is_union(existing, requested);
    assert forall|x: Seq<char>| #[trigger] names.contains(x) implies (existing + add).contains(
        x,
    ) by {
        assert(names.to_set().contains(x));
        assert((existing + add).to_set().contains(x));
    }
    lemma_new_tags_all_known(existing + add, names);
}

} // verus!

verus! {

// ── Get or create ──────────────────────────────────────────────────

/// The title a get-or-create works with: the given one, trimmed; a blank
/// title is a bad request.
pub fn get_or_create_title(req: &GetOrCreateRequest) -> (res: Result<String, ApiError>)
    ensures
        match res {
            Ok(t) => t@ == trim(req.title@) && t@.len() > 0,
            Err(e) => trim(req.title@).len() == 0 && e@ == ApiErrorView::BadRequest(
                "title is required"@,
            ),
        },
{
    let t = crate::text::trim_str(req.title.as_str());
    if t.as_str().is_empty() {
        Err(ApiError::BadRequest(crate::text::string_from("title is required")))
    } else {
        Ok(t)
    }
}

/// What a get-or-create does: answer with the active document found under
/// the title, or create one.
pub enum GetOrCreate {
    Existing(DocumentRecord),
    Create(CreatePlan),
}

/// Decides a get-or-create for the trimmed `title`, given the document the
/// store found under it (if any): an active one is answered unchanged;
/// otherwise a document is created with the title, the content (empty
/// unless given) and the tags given, and no metadata.
pub fn get_or_create_decision(
    title: &String,
    req: &GetOrCreateRequest,
    found: Option<DocumentRecord>,
) -> (res: GetOrCreate)
    ensures
        match found {
            Some(d) if is_active(d) => res == GetOrCreate::Existing(d),
            _ => res matches GetOrCreate::Create(p) && p.title@ == title@ && p.content@
                == text_or_empty(req.content) && strings_view(p.tags@) == list_or_empty(req.tags)
                && p.metadata@.len() == 0,
        },
{
    match found {
        Some(d) => {
            if d.deleted_at.is_none() {
                return GetOrCreate::Existing(d);
            }
        },
        None => {},
    }
    let tags = match &req.tags {
        Some(v) => copy_strings(v),
        None => Vec::new(),
    };
    GetOrCreate::Create(
        CreatePlan {
            title: crate::text::string_from(title.as_str()),
            content: copy_optional(&req.content),
            tags,
            metadata: Vec::new(),
        },
    )
}

impl GetOrCreate {
    /// The answer's status: 200 for an existing document, 201 for a new one.
    pub fn status_code(&self) -> (res: u16)
        ensures
            res == match self {
                GetOrCreate::Existing(_) => 200u16,
                GetOrCreate::Create(_) => 201u16,
            },
    {
        match self {
            GetOrCreate::Existing(_) => 200,
            GetOrCreate::Create(_) => 201,
        }
    }
}

// ── Answers ────────────────────────────────────────────────────────

/// A document as the JSON routes answer with it.
pub struct DocumentResponse {
    pub id: String,
    pub title: String,
    pub content: String,
    pub tags: Vec<String>,
    pub metadata: Vec<(String, JsonScalar)>,
    pub created_at: String,
    pub updated_at: String,
}

/// The answer for a document, its tag names and its metadata rows: the id
/// as hyphenated text, title, content, tags in order, each row's key with
/// its value, and both times as `jiff` shows them. `None` only when a time
/// is outside the range `jiff` can show.
pub fn document_response(
    doc: &DocumentRecord,
    tags: Vec<String>,
    rows: &Vec<MetadataRow>,
) -> (res: Option<DocumentResponse>)
    ensures
        match res {
            Some(r) => {
                &&& r.id@ == crate::ids::uuid_text(doc.id as nat)
                &&& r.title@ == doc.title@
                &&& r.content@ == doc.content@
                &&& strings_view(r.tags@) == strings_view(tags@)
                &&& crate::metadata::json_scalars_view(r.metadata@) == rows@.map_values(
                    |m: MetadataRow| (m.key@, crate::metadata::row_json(m)),
                )
                &&& crate::time::timestamp_display(doc.created_at as int) == Some(r.created_at@)
                &&& crate::time::timestamp_display(doc.updated_at as int) == Some(r.updated_at@)
            },
            None => crate::time::timestamp_display(doc.created_at as int) is None
                || crate::time::timestamp_display(doc.updated_at as int) is None,
        },
{
    let created_at = match crate::time::timestamp_text(doc.created_at) {
        Some(t) => t,
        None => return None,
    };
    let updated_at = match crate::time::timestamp_text(doc.updated_at) {
        Some(t) => t,
        None => return None,
    };
    Some(
        DocumentResponse {
            id: crate::ids::uuid_string(doc.id),
            title: crate::text::string_from(doc.title.as_str()),
            content: crate::text::string_from(doc.content.as_str()),
            tags,
            metadata: crate::metadata::metadata_json(rows),
            created_at,
            updated_at,
        },
    )
}

/// The answer for a page of documents.
pub struct DocumentListResponse {
    pub documents: Vec<DocumentResponse>,
    pub total: usize,
    pub limit: usize,
    pub offset: usize,
}

/// The answer for a page of active documents: `total` counts the documents
/// of the page.
pub fn list_response(documents: Vec<DocumentResponse>, query: &ListQuery) -> (res:
    DocumentListResponse)
    ensures
        res.documents@ == documents@,
        res.total == documents@.len(),
        res.limit == match query.limit {
            Some(l) => l,
            None => 50,
        },
        res.offset == match query.offset {
            Some(o) => o,
            None => 0,
        },
{
    let total = documents.len();
    DocumentListResponse {
        documents,
        total,
        limit: query.limit_or_default(),
        offset: query.offset_or_default(),
    }
}

} // verus!

verus! {

// ── Laws of the document routes ────────────────────────────────────

/// A full update that gives metadata replaces the whole metadata: whatever
/// rows the document had, afterwards it has exactly one typed row per
/// entry of the given object, in order (none for any other value); an
/// update without metadata leaves the rows as they were.
pub proof fn lemma_update_replaces_metadata(rows: crate::metadata::Rows, m: Option<MetadataInput>)
    ensures
        apply_ops(rows, replace_metadata_ops(m)) == match m {
            Some(MetadataInput::Object(es)) => crate::metadata::stored_rows(json_entries_view(es@)),
            Some(MetadataInput::NotObject) => Seq::<(Seq<char>, crate::metadata::MetaVal)>::empty(),
            None => rows,
        },
{
    match m {
        Some(MetadataInput::Object(es)) => {
            let entries = json_entries_view(es@);
            let ops = replace_metadata_ops(m);
            lemma_apply_ops_after_clear(rows, insert_ops(entries));
            crate::metadata::lemma_insert_ops_append(Seq::empty(), entries);
            assert(Seq::<(Seq<char>, crate::metadata::MetaVal)>::empty()
                + crate::metadata::stored_rows(entries) =~= crate::metadata::stored_rows(entries));
        },
        Some(MetadataInput::NotObject) => {
            let ops = replace_metadata_ops(m);
            assert(ops.drop_last() =~= Seq::<MetadataOpView>::empty());
        },
        None => {},
    }
}

proof fn lemma_apply_ops_after_clear(rows: crate::metadata::Rows, ops: Seq<MetadataOpView>)
    ensures
        apply_ops(rows, seq![MetadataOpView::ClearAll] + ops) == apply_ops(Seq::empty(), ops),
    decreases ops.len(),
{
    let all = seq![MetadataOpView::ClearAll] + ops;
    if ops.len() == 0 {
        assert(all.drop_last() =~= Seq::<MetadataOpView>::empty());
    } else {
        lemma_apply_ops_after_clear(rows, ops.drop_last());
        assert(all.drop_last() =~= seq![MetadataOpView::ClearAll] + ops.drop_last());
        assert(all.last() == ops.last());
    }
}

/// Creating a document stores one typed row per key of the given metadata
/// object, in order; no row for any other value.
pub proof fn lemma_create_stores_metadata(m: Option<MetadataInput>)
    ensures
        apply_ops(Seq::empty(), create_metadata_ops(m)) == match m {
            Some(MetadataInput::Object(es)) => crate::metadata::stored_rows(json_entries_view(es@)),
            _ => Seq::<(Seq<char>, crate::metadata::MetaVal)>::empty(),
        },
{
    match m {
        Some(MetadataInput::Object(es)) => {
            let entries = json_entries_view(es@);
            crate::metadata::lemma_insert_ops_append(Seq::empty(), entries);
            assert(Seq::<(Seq<char>, crate::metadata::MetaVal)>::empty()
                + crate::metadata::stored_rows(entries) =~= crate::metadata::stored_rows(entries));
        },
        _ => {},
    }
}

/// Appending keeps what was there: the new content starts with the old
/// content and ends with the appended text, and only an empty content is
/// replaced by the text alone.
pub proof fn lemma_append_keeps_content(
    existing: Seq<char>,
    addition: Seq<char>,
    separator: Option<Seq<char>>,
)
    ensures
        existing.is_prefix_of(appended_content_spec(existing, addition, separator)),
        addition.is_suffix_of(appended_content_spec(existing, addition, separator)),
{
    let r = appended_content_spec(existing, addition, separator);
    if existing.len() == 0 {
        assert(r == addition);
        assert(addition.is_suffix_of(r)) by {
            assert(r.subrange(0, r.len() as int) =~= addition);
        }
    } else {
        let sep = match separator {
            Some(s) => s,
            None => "\n\n"@,
        };
        assert(r =~= existing + sep + addition);
        assert(r.subrange(0, existing.len() as int) =~= existing);
        assert(r.subrange(r.len() - addition.len(), r.len() as int) =~= addition);
    }
}

/// What an append writes: onto a document with content, the old content,
/// then exactly the separator given (whatever its length; a blank line,
/// two line feeds, when none is given), then the appended text; onto an
/// empty document, the appended text alone.
pub proof fn lemma_append_uses_given_separator(
    existing: Seq<char>,
    addition: Seq<char>,
    separator: Option<Seq<char>>,
)
    ensures
        existing.len() > 0 ==> appended_content_spec(existing, addition, separator) == existing
            + match separator {
            Some(s) => s,
            None => seq!['\n', '\n'],
        } + addition,
        existing.len() > 0 ==> appended_content_spec(existing, addition, separator).len()
            == existing.len() + match separator {
            Some(s) => s.len(),
            None => 2,
        } + addition.len(),
        existing.len() == 0 ==> appended_content_spec(existing, addition, separator) == addition,
{
    reveal_strlit("\n\n");
    assert("\n\n"@ =~= seq!['\n', '\n']);
}

/// Adding tags attaches every name the request gives: each requested
/// name, trimmed, that is not blank is among the document's tags afterwards
/// (attached before or now), whatever characters it holds; and every tag
/// the request attaches is one of the requested names, trimmed and not
/// blank.
pub proof fn lemma_add_tags_attaches_every_name(existing: Seq<Seq<char>>, requested: Seq<Seq<char>>)
    ensures
        forall|i: int|
            0 <= i < requested.len() && trim(#[trigger] requested[i]).len() > 0 ==> (existing
                + new_tags(existing, request_tag_names(requested))).contains(trim(requested[i])),
        forall|x: Seq<char>| #[trigger]
            new_tags(existing, request_tag_names(requested)).contains(x) ==> exists|i: int|
                0 <= i < requested.len() && x == trim(requested[i]) && x.len() > 0,
{
    broadcast use vstd::seq_lib::group_filter_ensures;

    let m = requested.map_values(|t: Seq<char>| trim(t));
    let pred = |t: Seq<char>| t.len() > 0;
    let names = request_tag_names(requested);
    let add = new_tags(existing, names);
    assert(names == m.filter(pred));
    lemma_add_tags_is_union(existing, requested);
    lemma_new_tags(existing, names);
    assert forall|i: int|
        0 <= i < requested.len() && trim(#[trigger] requested[i]).len() > 0 implies (existing
        + add).contains(trim(requested[i])) by {
        assert(m[i] == trim(requested[i]));
        m.lemma_filter_contains(pred, i);
        assert(names.contains(trim(requested[i])));
        assert(names.to_set().contains(trim(requested[i])));
        assert((existing + add).to_set().contains(trim(requested[i])));
    }
    assert forall|x: Seq<char>| #[trigger] add.contains(x) implies exists|i: int|
        0 <= i < requested.len() && x == trim(requested[i]) && x.len() > 0 by {
        assert(names.contains(x));
        m.lemma_filter_contains_rev(pred, x);
        let k = choose|k: int| 0 <= k < names.len() && names[k] == x;
        m.lemma_filter_pred(pred, k);
        let j = choose|j: int| 0 <= j < m.len() && m[j] == x;
        assert(x == trim(requested[j]));
    }
}

} // verus!
