//! Searching documents: the search request and its defaults, the tag
//! filter, and the assembling of the answer from the index matches and the
//! documents they point at.
use vstd::prelude::*;

use crate::error::{ApiError, ApiErrorView};
use crate::form::strings_view;
use crate::fts::{fts_results_view, FtsResult};
use crate::ids::uuid_text;
use crate::text::trim;

verus! {

/// A search request.
pub struct SearchRequest {
    pub query: String,
    pub tags: Option<Vec<String>>,
    pub limit: Option<usize>,
    pub offset: Option<usize>,
}

/// One search hit.
pub struct SearchResult {
    pub id: String,
    pub title: String,
    pub excerpt: String,
    pub tags: Vec<String>,
}

/// The answer to a search.
pub struct SearchResponse {
    pub results: Vec<SearchResult>,
    pub query: String,
    pub limit: usize,
    pub offset: usize,
}

/// The page size of a search: 20 unless given.
pub open spec fn search_limit(limit: Option<usize>) -> usize {
    match limit {
        Some(l) => l,
        None => 20,
    }
}

/// The hits a search skips: none unless given.
pub open spec fn search_offset(offset: Option<usize>) -> usize {
    match offset {
        Some(o) => o,
        None => 0,
    }
}

impl SearchRequest {
    /// A search given by query parameters: the query `q` is required.
    pub fn from_query_params(q: Option<String>, limit: Option<usize>, offset: Option<usize>) -> (res:
        Result<SearchRequest, ApiError>)
        ensures
            match q {
                Some(s) => res matches Ok(r) && r.query@ == s@ && r.tags is None && r.limit == limit
                    && r.offset == offset,
                None => res matches Err(e) && e@ == ApiErrorView::BadRequest(
                    "missing query parameter 'q'"@,
                ),
            },
    {
        match q {
            Some(s) => Ok(SearchRequest { query: s, tags: None, limit, offset }),
            None => Err(ApiError::BadRequest(crate::text::string_from("missing query parameter 'q'"))),
        }
    }

    /// The page size: 20 unless given.
    pub fn limit_or_default(&self) -> (res: usize)
        ensures
            res == match self.limit {
                Some(l) => l,
                None => 20,
            },
    {
        match self.limit {
            Some(l) => l,
            None => 20,
        }
    }

    /// The number of hits skipped: none unless given.
    pub fn offset_or_default(&self) -> (res: usize)
        ensures
            res == match self.offset {
                Some(o) => o,
                None => 0,
            },
    {
        match self.offset {
            Some(o) => o,
            None => 0,
        }
    }

    /// The query the index is searched with: the given one, trimmed.
    pub fn trimmed_query(&self) -> (res: String)
        ensures
            res@ == trim(self.query@),
    {
        crate::text::trim_str(self.query.as_str())
    }

    /// The tag names to filter by: none when no tags, or an empty list, are
    /// given.
    pub fn tag_filter(&self) -> (res: Option<Vec<String>>)
        ensures
            match self.tags {
                Some(ts) if ts@.len() > 0 => res matches Some(r) && strings_view(r@) == strings_view(
                    ts@,
                ),
                _ => res is None,
            },
    {
        match &self.tags {
            Some(ts) => {
                if ts.len() == 0 {
                    None
                } else {
                    let mut out: Vec<String> = Vec::new();
                    let n = ts.len();
                    let mut i: usize = 0;
                    while i < n
                        invariant
                            n == ts@.len(),
                            i <= n,
                            strings_view(out@) == strings_view(ts@).take(i as int),
                        decreases n - i,
                    {
                        let ghost before = out@;
                        let s = crate::text::string_from(ts[i].as_str());
                        out.push(s);
                        assert(strings_view(out@) =~= strings_view(before).push(s@));
                        assert(strings_view(ts@).take(i + 1) =~= strings_view(ts@).take(
                            i as int,
                        ).push(ts@[i as int]@));
                        i += 1;
                    }
                    assert(strings_view(ts@).take(n as int) =~= strings_view(ts@));
                    Some(out)
                }
            },
            None => None,
        }
    }
}

/// The answer with no hits: the request's query as given, and its page.
pub fn empty_response(req: &SearchRequest) -> (res: SearchResponse)
    ensures
        res.results@.len() == 0,
        res.query@ == req.query@,
        res.limit == search_limit(req.limit),
        res.offset == search_offset(req.offset),
{
    SearchResponse {
        results: Vec::new(),
        query: crate::text::string_from(req.query.as_str()),
        limit: req.limit_or_default(),
        offset: req.offset_or_default(),
    }
}

// ── Excerpts ───────────────────────────────────────────────────────

/// The excerpt of a content: its first 200 characters followed by `...`
/// when it is longer, else the whole content.
pub open spec fn excerpt_spec(content: Seq<char>) -> Seq<char> {
    if content.len() > 200 {
        content.take(200) + "..."@
    } else {
        content
    }
}

/// The excerpt of a document's content for a result list.
pub fn excerpt(content: &str) -> (res: String)
    ensures
        res@ == excerpt_spec(content@),
{
    let cs = crate::text::chars_of(content);
    if cs.len() > 200 {
        let head = crate::text::slice_chars(cs.as_slice(), 0, 200);
        let mut out = crate::text::string_of(head.as_slice());
        crate::text::push_all(&mut out, "...");
        assert(head@ =~= content@.take(200));
        out
    } else {
        crate::text::string_from(content)
    }
}

// ── Assembling the answer ──────────────────────────────────────────

/// What the store holds for the document an index match points at.
pub struct CandidateDocument {
    /// Whether the document is soft-deleted.
    pub deleted: bool,
    pub content: String,
    /// The ids of the tags attached to the document.
    pub tag_ids: Vec<i64>,
    /// The names of the tags attached to the document, in order.
    pub tag_names: Vec<String>,
}

/// An index match together with its document, if the store still has it.
pub struct SearchCandidate {
    pub hit: FtsResult,
    pub document: Option<CandidateDocument>,
}

/// The tag filter of a search, once its names are looked up.
pub enum TagFilter {
    /// No tag filter was given.
    Unfiltered,
    /// Tags were given but none of them exists: nothing matches.
    NoSuchTags,
    /// Keep documents that have at least one of these tags.
    AnyOf(Vec<i64>),
}

/// The tag filter, from whether tag names were given and the ids of the
/// stored tags that bear them.
pub fn tag_filter_of(requested: bool, matching_ids: Vec<i64>) -> (res: TagFilter)
    ensures
        !requested ==> res is Unfiltered,
        requested && matching_ids@.len() == 0 ==> res is NoSuchTags,
        requested && matching_ids@.len() > 0 ==> (res matches TagFilter::AnyOf(ids) && ids@
            == matching_ids@),
{
    if !requested {
        TagFilter::Unfiltered
    } else if matching_ids.len() == 0 {
        TagFilter::NoSuchTags
    } else {
        TagFilter::AnyOf(matching_ids)
    }
}

/// Whether the candidate is answered: its document exists and is not
/// deleted, and, under a filter, has at least one of the filter's tags.
pub open spec fn is_kept(c: SearchCandidate, filter: Seq<i64>, filtered: bool) -> bool {
    match c.document {
        Some(d) => !d.deleted && (!filtered || exists|i: int|
            0 <= i < d.tag_ids@.len() && filter.contains(#[trigger] d.tag_ids@[i])),
        None => false,
    }
}

/// The view of one hit.
pub open spec fn result_view(r: SearchResult) -> (Seq<char>, Seq<char>, Seq<char>, Seq<Seq<char>>) {
    (r.id@, r.title@, r.excerpt@, strings_view(r.tags@))
}

/// The hit a kept candidate gives: the document's id, the matched title,
/// the index snippet (or, when the index gave none, an excerpt of the
/// content) and the document's tags.
pub open spec fn candidate_result(c: SearchCandidate) -> (
    Seq<char>,
    Seq<char>,
    Seq<char>,
    Seq<Seq<char>>,
) {
    let d = c.document.unwrap();
    (
        uuid_text(c.hit.doc_id as nat),
        c.hit.title@,
        if c.hit.snippet@.len() == 0 {
            excerpt_spec(d.content@)
        } else {
            c.hit.snippet@
        },
        strings_view(d.tag_names@),
    )
}

/// The hits of the kept candidates, in index order.
pub open spec fn search_hits(cs: Seq<SearchCandidate>, filter: Seq<i64>, filtered: bool) -> Seq<
    (Seq<char>, Seq<char>, Seq<char>, Seq<Seq<char>>),
> {
    cs.filter_map(
        |c: SearchCandidate|
            if is_kept(c, filter, filtered) {
                Some(candidate_result(c))
            } else {
                None
            },
    )
}

fn has_any_tag(tag_ids: &Vec<i64>, filter: &Vec<i64>) -> (res: bool)
    ensures
        res == exists|i: int| 0 <= i < tag_ids@.len() && filter@.contains(#[trigger] tag_ids@[i]),
{
    let n = tag_ids.len();
    let mut i: usize = 0;
    while i < n
        invariant
            n == tag_ids@.len(),
            i <= n,
            forall|k: int| 0 <= k < i ==> !filter@.contains(#[trigger] tag_ids@[k]),
        decreases n - i,
    {
        let t = tag_ids[i];
        let m = filter.len();
        let mut j: usize = 0;
        while j < m
            invariant
                m == filter@.len(),
                j <= m,
                n == tag_ids@.len(),
                i < n,
                t == tag_ids@[i as int],
                forall|k: int| 0 <= k < j ==> filter@[k] != t,
            decreases m - j,
        {
            if filter[j] == t {
                assert(filter@[j as int] == tag_ids@[i as int]);
                assert(filter@.contains(tag_ids@[i as int]));
                return true;
            }
            j += 1;
        }
        assert(!filter@.contains(t));
        i += 1;
    }
    false
}

fn copy_tags(v: &Vec<String>) -> (res: Vec<String>)
    ensures
        strings_view(res@) == strings_view(v@),
{
    let mut out: Vec<String> = Vec::new();
    let n = v.len();
    let mut i: usize = 0;
    while i < n
        invariant
            n == v@.len(),
            i <= n,
            strings_view(out@) == strings_view(v@).take(i as int),
        decreases n - i,
    {
        let ghost before = out@;
        let s = crate::text::string_from(v[i].as_str());
        out.push(s);
        assert(strings_view(out@) =~= strings_view(before).push(s@));
        assert(strings_view(v@).take(i + 1) =~= strings_view(v@).take(i as int).push(v@[i as int]@));
        i += 1;
    }
    assert(strings_view(v@).take(n as int) =~= strings_view(v@));
    out
}

/// The hit of one candidate, when it is kept.
fn candidate_hit(c: &SearchCandidate, filter: &Vec<i64>, filtered: bool) -> (res: Option<
    SearchResult,
>)
    ensures
        match res {
            Some(r) => is_kept(*c, filter@, filtered) && result_view(r) == candidate_result(*c),
            None => !is_kept(*c, filter@, filtered),
        },
{
    match &c.document {
        None => None,
        Some(d) => {
            if d.deleted {
                return None;
            }
            if filtered && !has_any_tag(&d.tag_ids, filter) {
                return None;
            }
            let excerpt_text = if c.hit.snippet.as_str().is_empty() {
                excerpt(d.content.as_str())
            } else {
                crate::text::string_from(c.hit.snippet.as_str())
            };
            Some(
                SearchResult {
                    id: crate::ids::uuid_string(c.hit.doc_id),
                    title: crate::text::string_from(c.hit.title.as_str()),
                    excerpt: excerpt_text,
                    tags: copy_tags(&d.tag_names),
                },
            )
        },
    }
}

/// The answer to a search from the index matches, in rank order, each
/// with its document: under a tag filter only documents with at least one
/// of the filter's tags; documents deleted since they were indexed (or
/// gone) are skipped; each hit shows the index snippet, or an excerpt of
/// the content when the index gave none. A filter on tags that do not
/// exist matches nothing.
pub fn search_response(req: &SearchRequest, candidates: &Vec<SearchCandidate>, filter: &TagFilter) -> (res:
    SearchResponse)
    ensures
        res.query@ == req.query@,
        res.limit == search_limit(req.limit),
        res.offset == search_offset(req.offset),
        match filter {
            TagFilter::NoSuchTags => res.results@.len() == 0,
            TagFilter::Unfiltered => res.results@.map_values(|r: SearchResult| result_view(r))
                == search_hits(candidates@, Seq::empty(), false),
            TagFilter::AnyOf(ids) => res.results@.map_values(|r: SearchResult| result_view(r))
                == search_hits(candidates@, ids@, true),
        },
{
    let (ids, filtered): (Vec<i64>, bool) = match filter {
        TagFilter::NoSuchTags => {
            return empty_response(req);
        },
        TagFilter::Unfiltered => (Vec::new(), false),
        TagFilter::AnyOf(ids) => {
            let mut copy: Vec<i64> = Vec::new();
            let m = ids.len();
            let mut j: usize = 0;
            while j < m
                invariant
                    m == ids@.len(),
                    j <= m,
                    copy@ == ids@.take(j as int),
                decreases m - j,
            {
                copy.push(ids[j]);
                assert(ids@.take(j + 1) =~= ids@.take(j as int).push(ids@[j as int]));
                j += 1;
            }
            assert(ids@.take(m as int) =~= ids@);
            (copy, true)
        },
    };
    let ghost f = ids@;
    assert(filter matches TagFilter::Unfiltered ==> f =~= Seq::<i64>::empty() && !filtered);
    let mut results: Vec<SearchResult> = Vec::new();
    let n = candidates.len();
    let mut i: usize = 0;
    while i < n
        invariant
            n == candidates@.len(),
            i <= n,
            f == ids@,
            results@.map_values(|r: SearchResult| result_view(r)) == search_hits(
                candidates@.take(i as int),
                f,
                filtered,
            ),
        decreases n - i,
    {
        let ghost t = candidates@.take(i + 1);
        assert(t.drop_last() =~= candidates@.take(i as int));
        assert(t.last() == candidates@[i as int]);
        match candidate_hit(&candidates[i], &ids, filtered) {
            Some(r) => {
                let ghost before = results@;
                results.push(r);
                assert(results@.map_values(|r: SearchResult| result_view(r)) =~= before.map_values(
                    |r: SearchResult| result_view(r),
                ) + seq![result_view(r)]);
            },
            None => {},
        }
        i += 1;
    }
    assert(candidates@.take(n as int) =~= candidates@);
    SearchResponse {
        results,
        query: crate::text::string_from(req.query.as_str()),
        limit: req.limit_or_default(),
        offset: req.offset_or_default(),
    }
}

/// A search never answers with a deleted or missing document, and under a
/// tag filter only with documents that carry one of the filter's tags.
pub proof fn lemma_search_hits_are_active(
    cs: Seq<SearchCandidate>,
    filter: Seq<i64>,
    filtered: bool,
    k: int,
)
    requires
        0 <= k < search_hits(cs, filter, filtered).len(),
    ensures
        exists|i: int|
            0 <= i < cs.len() && is_kept(#[trigger] cs[i], filter, filtered) && candidate_result(
                cs[i],
            ) == search_hits(cs, filter, filtered)[k],
    decreases cs.len(),
{
    let init = cs.drop_last();
    let h = search_hits(init, filter, filtered);
    if k < h.len() {
        lemma_search_hits_are_active(init, filter, filtered, k);
        let i = choose|i: int|
            0 <= i < init.len() && is_kept(#[trigger] init[i], filter, filtered)
                && candidate_result(init[i]) == h[k];
        assert(cs[i] == init[i]);
    } else {
        assert(cs[cs.len() - 1] == cs.last());
    }
}

/// A matched document that exists, is not deleted, and carries at least
/// one of the filter's tags, at any position of its tag list.
pub open spec fn carries_filter_tag(c: SearchCandidate, filter: Seq<i64>) -> bool {
    match c.document {
        Some(d) => !d.deleted && exists|j: int|
            0 <= j < d.tag_ids@.len() && filter.contains(#[trigger] d.tag_ids@[j]),
        None => false,
    }
}

/// Under a tag filter, a search answers exactly for the documents that
/// carry at least one of the filter's tags, at any position of their tag
/// list: every such matched document gives its hit, and every hit comes
/// from such a document.
pub proof fn lemma_tag_filter_keeps_any_matching_tag(cs: Seq<SearchCandidate>, filter: Seq<i64>)
    ensures
        forall|k: int|
            0 <= k < cs.len() && carries_filter_tag(#[trigger] cs[k], filter) ==> search_hits(
                cs,
                filter,
                true,
            ).contains(candidate_result(cs[k])),
        forall|h| #[trigger]
            search_hits(cs, filter, true).contains(h) ==> exists|k: int|
                0 <= k < cs.len() && carries_filter_tag(cs[k], filter) && candidate_result(cs[k])
                    == h,
{
    let f = |c: SearchCandidate|
        if is_kept(c, filter, true) {
            Some(candidate_result(c))
        } else {
            None
        };
    assert forall|k: int| 0 <= k < cs.len() && carries_filter_tag(#[trigger] cs[k], filter) implies search_hits(
        cs,
        filter,
        true,
    ).contains(candidate_result(cs[k])) by {
        lemma_hits_contain(cs, filter, k);
    }
    assert forall|h| #[trigger] search_hits(cs, filter, true).contains(h) implies exists|k: int|
        0 <= k < cs.len() && carries_filter_tag(cs[k], filter) && candidate_result(cs[k]) == h by {
        cs.lemma_filter_map_contains(f, h);
        let t = choose|t: SearchCandidate| #[trigger] cs.contains(t) && f(t) == Some(h);
        let k = choose|k: int| 0 <= k < cs.len() && cs[k] == t;
        assert(cs[k] == t);
    }
}

proof fn lemma_hits_contain(cs: Seq<SearchCandidate>, filter: Seq<i64>, k: int)
    requires
        0 <= k < cs.len(),
        carries_filter_tag(cs[k], filter),
    ensures
        search_hits(cs, filter, true).contains(candidate_result(cs[k])),
    decreases cs.len(),
{
    let h = search_hits(cs, filter, true);
    let init = cs.drop_last();
    if k == cs.len() - 1 {
        assert(cs.last() == cs[k]);
        assert(h == search_hits(init, filter, true) + seq![candidate_result(cs[k])]);
        assert(h[h.len() - 1] == candidate_result(cs[k]));
    } else {
        assert(init[k] == cs[k]);
        lemma_hits_contain(init, filter, k);
        let hi = search_hits(init, filter, true);
        let j = choose|j: int| 0 <= j < hi.len() && hi[j] == candidate_result(cs[k]);
        if is_kept(cs.last(), filter, true) {
            assert(h == hi + seq![candidate_result(cs.last())]);
        } else {
            assert(h == hi);
        }
        assert(h[j] == hi[j]);
    }
}

} // verus!
