//! The rules of the HTML pages: the addresses of a document's pages, the
//! home page's filters and document cards.
use vstd::prelude::*;

use crate::documents::DocumentRecord;
use crate::form::strings_view;
use crate::ids::uuid_text;
use crate::search::excerpt_spec;
use crate::text::is_blank;

verus! {

// ── Addresses ──────────────────────────────────────────────────────

/// The address of a document's page.
pub open spec fn document_path_spec(id: u128) -> Seq<char> {
    "/documents/"@ + uuid_text(id as nat)
}

/// The address of a document's page.
pub fn document_path(id: u128) -> (res: String)
    ensures
        res@ == document_path_spec(id),
{
    let mut p = crate::text::string_from("/documents/");
    let idt = crate::ids::uuid_string(id);
    crate::text::push_all(&mut p, idt.as_str());
    p
}

/// The address of a document's edit form.
pub fn edit_path(id: u128) -> (res: String)
    ensures
        res@ == document_path_spec(id) + "/edit"@,
{
    let mut p = document_path(id);
    crate::text::push_all(&mut p, "/edit");
    p
}

/// The address the delete button posts to.
pub fn delete_path(id: u128) -> (res: String)
    ensures
        res@ == document_path_spec(id) + "/delete"@,
{
    let mut p = document_path(id);
    crate::text::push_all(&mut p, "/delete");
    p
}

/// Where a saved form redirects: the document's page, asking it to show
/// that the document was saved.
pub fn saved_location(id: u128) -> (res: String)
    ensures
        res@ == document_path_spec(id) + "?saved=1"@,
{
    let mut p = document_path(id);
    crate::text::push_all(&mut p, "?saved=1");
    p
}

/// The address of the home page filtered by a tag.
pub fn tag_filter_href(tag: &str) -> (res: String)
    ensures
        res@ == "/?tag="@ + tag@,
{
    let mut p = crate::text::string_from("/?tag=");
    crate::text::push_all(&mut p, tag);
    p
}

// ── Home page ──────────────────────────────────────────────────────

/// The filters of the home page: a text search and a tag.
pub struct HomeFilters {
    pub search: Option<String>,
    pub tag: Option<String>,
}

/// A filter value that is given and not blank, as given.
pub open spec fn non_blank(o: Option<String>) -> Option<Seq<char>> {
    match o {
        Some(s) => if is_blank(s@) {
            None
        } else {
            Some(s@)
        },
        None => None,
    }
}

fn keep_non_blank(o: Option<String>) -> (res: Option<String>)
    ensures
        match res {
            Some(s) => non_blank(o) == Some(s@),
            None => non_blank(o) is None,
        },
{
    match o {
        Some(s) => {
            if crate::text::is_blank_str(s.as_str()) {
                None
            } else {
                Some(s)
            }
        },
        None => None,
    }
}

/// The home page's filters from its query parameters: a blank search or
/// tag counts as none.
pub fn home_filters(q: Option<String>, tag: Option<String>) -> (res: HomeFilters)
    ensures
        match res.search {
            Some(s) => non_blank(q) == Some(s@),
            None => non_blank(q) is None,
        },
        match res.tag {
            Some(t) => non_blank(tag) == Some(t@),
            None => non_blank(tag) is None,
        },
{
    HomeFilters { search: keep_non_blank(q), tag: keep_non_blank(tag) }
}

/// The `LIKE` pattern that matches a title or content containing the
/// search text.
pub fn like_pattern(search: &str) -> (res: String)
    ensures
        res@ == "%"@ + search@ + "%"@,
{
    let mut p = crate::text::string_from("%");
    crate::text::push_all(&mut p, search);
    crate::text::push_all(&mut p, "%");
    p
}

/// The number of documents the home page lists at most.
pub const HOME_PAGE_SIZE: usize = 50;

/// A document as the home page lists it.
pub struct DocumentCard {
    pub id: String,
    pub title: String,
    pub excerpt: String,
    pub updated: String,
    pub tags: Vec<String>,
}

/// The card of a document with its tags: id, title, an excerpt of the
/// content (its first 200 characters and `...` when longer), the update
/// time to the minute, and the tags. `None` only when the update time is
/// outside the range `jiff` can show.
pub fn document_card(doc: &DocumentRecord, tags: Vec<String>) -> (res: Option<DocumentCard>)
    ensures
        match res {
            Some(c) => {
                &&& c.id@ == uuid_text(doc.id as nat)
                &&& c.title@ == doc.title@
                &&& c.excerpt@ == excerpt_spec(doc.content@)
                &&& crate::time::timestamp_minutes(doc.updated_at as int) == Some(c.updated@)
                &&& strings_view(c.tags@) == strings_view(tags@)
            },
            None => crate::time::timestamp_minutes(doc.updated_at as int) is None,
        },
{
    let updated = match crate::time::timestamp_minutes_text(doc.updated_at) {
        Some(t) => t,
        None => return None,
    };
    Some(
        DocumentCard {
            id: crate::ids::uuid_string(doc.id),
            title: crate::text::string_from(doc.title.as_str()),
            excerpt: crate::search::excerpt(doc.content.as_str()),
            updated,
            tags,
        },
    )
}

/// The creation and update times a document's page shows, each to the
/// minute. `None` only when one of them is outside the range `jiff` can
/// show.
pub fn detail_times(doc: &DocumentRecord) -> (res: Option<(String, String)>)
    ensures
        match res {
            Some((c, u)) => {
                &&& crate::time::timestamp_minutes(doc.created_at as int) == Some(c@)
                &&& crate::time::timestamp_minutes(doc.updated_at as int) == Some(u@)
            },
            None => crate::time::timestamp_minutes(doc.created_at as int) is None
                || crate::time::timestamp_minutes(doc.updated_at as int) is None,
        },
{
    let created = match crate::time::timestamp_minutes_text(doc.created_at) {
        Some(t) => t,
        None => return None,
    };
    let updated = match crate::time::timestamp_minutes_text(doc.updated_at) {
        Some(t) => t,
        None => return None,
    };
    Some((created, updated))
}

} // verus!
