//! The discovery document: a machine-readable description of every API
//! endpoint, so clients can find and use the knowledge base without
//! out-of-band documentation. The list is kept by hand.
use vstd::prelude::*;

use crate::text::string_from;

verus! {

/// One parameter of an endpoint.
pub struct ParameterDescription {
    /// Parameter name.
    pub name: String,
    /// JSON type or location hint (e.g. "string", "number", "array<string>", "query").
    pub param_type: String,
    /// Whether the parameter is required.
    pub required: bool,
    /// Human-readable description.
    pub description: String,
}

/// One endpoint.
pub struct EndpointDescription {
    /// HTTP method (GET, POST, PUT, DELETE).
    pub method: String,
    /// URL path.
    pub path: String,
    /// Human-readable description of what the endpoint does.
    pub description: String,
    /// Each parameter (body fields for POST/PUT, query params for GET).
    pub parameters: Vec<ParameterDescription>,
    /// An example request body, as JSON text (for POST/PUT endpoints).
    pub example_body: Option<String>,
}

/// The discovery document.
pub struct EndpointsResponse {
    /// API name.
    pub name: String,
    /// API version string.
    pub version: String,
    /// Base URL all paths are relative to.
    pub base: String,
    /// Usage conventions that hold across endpoints.
    pub notes: Vec<String>,
    /// The available endpoints.
    pub endpoints: Vec<EndpointDescription>,
}

/// The methods and paths of the API, in the order the discovery document
/// lists them.
pub open spec fn api_surface() -> Seq<(Seq<char>, Seq<char>)> {
    seq![
        ("GET"@, "/rb/health_check"@),
        ("POST"@, "/rb/documents"@),
        ("GET"@, "/rb/documents"@),
        ("GET"@, "/rb/documents/{id}"@),
        ("PUT"@, "/rb/documents/{id}"@),
        ("DELETE"@, "/rb/documents/{id}"@),
        ("POST"@, "/rb/documents/{id}/append"@),
        ("POST"@, "/rb/documents/{id}/tags"@),
        ("POST"@, "/rb/documents/{id}/metadata"@),
        ("POST"@, "/rb/documents/get-or-create"@),
        ("POST"@, "/rb/search"@),
        ("GET"@, "/rb/search"@),
        ("GET"@, "/rb/stats"@),
    ]
}

/// What an endpoint description says: method, path, description, each
/// parameter's name, type, requiredness and description, and the example
/// body.
pub type EndpointView = (
    Seq<char>,
    Seq<char>,
    Seq<char>,
    Seq<(Seq<char>, Seq<char>, bool, Seq<char>)>,
    Option<Seq<char>>,
);

/// The view of one parameter description.
pub open spec fn parameter_view(p: ParameterDescription) -> (Seq<char>, Seq<char>, bool, Seq<char>) {
    (p.name@, p.param_type@, p.required, p.description@)
}

/// The view of one endpoint description.
pub open spec fn endpoint_view(e: EndpointDescription) -> EndpointView {
    (
        e.method@,
        e.path@,
        e.description@,
        e.parameters@.map_values(|p: ParameterDescription| parameter_view(p)),
        match e.example_body {
            Some(b) => Some(b@),
            None => None,
        },
    )
}

/// The discovery document's endpoints, in order.
pub open spec fn api_endpoints() -> Seq<EndpointView> {
    seq![
        (
            "GET"@,
            "/rb/health_check"@,
            "Health check — confirms the API service is running."@,
            Seq::empty(),
            None,
        ),
        (
            "POST"@,
            "/rb/documents"@,
            "Create a new document."@,
            seq![
                ("title"@, "string"@, true, "Document title."@),
                ("content"@, "string"@, false, "Document body text (optional — create a title-only stub and append later)."@),
                ("tags"@, "array<string>"@, false, "Optional tags for organisation."@),
                ("metadata"@, "object"@, false, "Optional arbitrary JSON metadata (string, number, and boolean values are preserved)."@),
            ],
            Some("{\"title\":\"Example document\",\"content\":\"The body of the document.\",\"tags\":[\"example\",\"demo\"],\"metadata\":{\"source\":\"manual\"}}"@),
        ),
        (
            "GET"@,
            "/rb/documents"@,
            "List all non-deleted documents with pagination."@,
            seq![
                ("limit"@, "query (number)"@, false, "Max results to return (default 50)."@),
                ("offset"@, "query (number)"@, false, "Number of results to skip (default 0)."@),
            ],
            None,
        ),
        (
            "GET"@,
            "/rb/documents/{id}"@,
            "Get a single document by UUID."@,
            seq![
                ("id"@, "path (UUID)"@, true, "The document UUID."@),
            ],
            None,
        ),
        (
            "PUT"@,
            "/rb/documents/{id}"@,
            "Update an existing document. Only supplied fields are changed."@,
            seq![
                ("id"@, "path (UUID)"@, true, "The document UUID."@),
                ("title"@, "string"@, false, "New title."@),
                ("content"@, "string"@, false, "New content."@),
                ("tags"@, "array<string>"@, false, "Replace tags."@),
                ("metadata"@, "object"@, false, "Replace metadata."@),
            ],
            Some("{\"title\":\"Updated title\"}"@),
        ),
        (
            "DELETE"@,
            "/rb/documents/{id}"@,
            "Soft-delete a document."@,
            seq![
                ("id"@, "path (UUID)"@, true, "The document UUID."@),
            ],
            None,
        ),
        (
            "POST"@,
            "/rb/documents/{id}/append"@,
            "Micro-update: append text to a document's content without read-modify-write. Joins with a blank line by default; sets content directly on an empty document. Returns the full updated document."@,
            seq![
                ("id"@, "path (UUID)"@, true, "The document UUID."@),
                ("content"@, "string"@, true, "Text to append."@),
                ("separator"@, "string"@, false, "Joiner between existing and appended text (default: blank line)."@),
            ],
            Some("{\"content\":\"Follow-up: measurements are in.\"}"@),
        ),
        (
            "POST"@,
            "/rb/documents/{id}/tags"@,
            "Micro-update: add tags (set union). Duplicates are no-ops; existing tags are untouched. Removing tags is a full-list PUT. Returns the full updated document."@,
            seq![
                ("id"@, "path (UUID)"@, true, "The document UUID."@),
                ("tags"@, "array<string>"@, true, "Tag names to add."@),
            ],
            Some("{\"tags\":[\"follow-up\",\"measurements\"]}"@),
        ),
        (
            "POST"@,
            "/rb/documents/{id}/metadata"@,
            "Micro-update: merge metadata keys. Listed keys are set (typed like create: booleans and integers preserved), null deletes a key, unlisted keys are left alone. Returns the full updated document."@,
            seq![
                ("id"@, "path (UUID)"@, true, "The document UUID."@),
                ("(body)"@, "object"@, true, "Keys to set or delete (value null deletes)."@),
            ],
            Some("{\"priority\":\"high\",\"pinned\":true,\"stale-key\":null}"@),
        ),
        (
            "POST"@,
            "/rb/documents/get-or-create"@,
            "Find the active document with this exact title or create it. 200 returns the existing document unchanged; 201 creates a stub (empty content unless supplied) with optional tags. The idempotent entry point for per-topic working documents."@,
            seq![
                ("title"@, "string"@, true, "Exact title to match or create under."@),
                ("content"@, "string"@, false, "Initial content (create path only; ignored when the document exists)."@),
                ("tags"@, "array<string>"@, false, "Initial tags (create path only; ignored when the document exists)."@),
            ],
            Some("{\"title\":\"Daily Journal\",\"tags\":[\"journal\"]}"@),
        ),
        (
            "POST"@,
            "/rb/search"@,
            "Full-text search (SQLite FTS5) across documents, returning ranked results with excerpts."@,
            seq![
                ("query"@, "string"@, true, "Search query."@),
                ("tags"@, "array<string>"@, false, "Filter to documents with any of these tags."@),
                ("limit"@, "number"@, false, "Max results (default 20)."@),
                ("offset"@, "number"@, false, "Results to skip (default 0)."@),
            ],
            Some("{\"query\":\"rust async patterns\",\"tags\":[\"rust\"],\"limit\":10}"@),
        ),
        (
            "GET"@,
            "/rb/search"@,
            "Search via GET query parameters (simpler but without tag filtering)."@,
            seq![
                ("q"@, "query (string)"@, true, "Search query."@),
                ("limit"@, "query (number)"@, false, "Max results."@),
                ("offset"@, "query (number)"@, false, "Results to skip."@),
            ],
            None,
        ),
        (
            "GET"@,
            "/rb/stats"@,
            "Get knowledge base statistics (document counts, unique tags)."@,
            Seq::empty(),
            None,
        ),
    ]
}

/// Whether an endpoint gives an example body: exactly those that take a
/// JSON body (POST and PUT).
pub open spec fn takes_body(method: Seq<char>) -> bool {
    method == "POST"@ || method == "PUT"@
}

/// The method and path of each listed endpoint.
pub open spec fn surface_of(eps: Seq<EndpointDescription>) -> Seq<(Seq<char>, Seq<char>)> {
    eps.map_values(|e: EndpointDescription| (e.method@, e.path@))
}

fn param(name: &str, param_type: &str, required: bool, description: &str) -> (res:
    ParameterDescription)
    ensures
        res.name@ == name@,
        res.param_type@ == param_type@,
        res.required == required,
        res.description@ == description@,
{
    ParameterDescription {
        name: string_from(name),
        param_type: string_from(param_type),
        required,
        description: string_from(description),
    }
}

fn endpoint(
    method: &str,
    path: &str,
    description: &str,
    parameters: Vec<ParameterDescription>,
    example_body: Option<&str>,
) -> (res: EndpointDescription)
    ensures
        res.method@ == method@,
        res.path@ == path@,
        res.description@ == description@,
        res.parameters@ == parameters@,
        match example_body {
            Some(b) => res.example_body matches Some(t) && t@ == b@,
            None => res.example_body is None,
        },
{
    let example_body = match example_body {
        Some(b) => Some(string_from(b)),
        None => None,
    };
    EndpointDescription {
        method: string_from(method),
        path: string_from(path),
        description: string_from(description),
        parameters,
        example_body,
    }
}

/// The endpoints of the API: health check, the document routes (create,
/// list, get, update, delete, append, add tags, merge metadata,
/// get-or-create), search by POST and GET, and statistics, with their
/// parameters and example bodies.
pub fn build_endpoint_list() -> (res: Vec<EndpointDescription>)
    ensures
        surface_of(res@) == api_surface(),
        res@.map_values(|e: EndpointDescription| endpoint_view(e)) == api_endpoints(),
        forall|k: int|
            0 <= k < res@.len() ==> {
                &&& (#[trigger] res@[k]).description@.len() > 0
                &&& (res@[k].example_body is Some <==> takes_body(res@[k].method@))
            },
{
    let mut eps: Vec<EndpointDescription> = Vec::new();
    proof {
        reveal_strlit("GET");
        reveal_strlit("POST");
        reveal_strlit("PUT");
        reveal_strlit("DELETE");
        assert("GET"@ != "POST"@ && "GET"@ != "PUT"@) by {
            assert("GET"@[0] != "PUT"@[0]);
        }
        assert("DELETE"@ != "POST"@ && "DELETE"@ != "PUT"@) by {
            assert("DELETE"@.len() == 6);
        }
    }
    eps.push(
        endpoint(
            "GET",
            "/rb/health_check",
            "Health check — confirms the API service is running.",
            Vec::new(),
            None,
        ),
    );
    proof {
        reveal_strlit("Health check — confirms the API service is running.");
        assert(endpoint_view(eps@[0]) =~= api_endpoints()[0]);
        assert(eps@[0].example_body is Some <==> takes_body(eps@[0].method@));
    }
    eps.push(
        endpoint(
            "POST",
            "/rb/documents",
            "Create a new document.",
            vec![
                param("title", "string", true, "Document title."),
                param("content", "string", false, "Document body text (optional — create a title-only stub and append later)."),
                param("tags", "array<string>", false, "Optional tags for organisation."),
                param("metadata", "object", false, "Optional arbitrary JSON metadata (string, number, and boolean values are preserved)."),
            ],
            Some("{\"title\":\"Example document\",\"content\":\"The body of the document.\",\"tags\":[\"example\",\"demo\"],\"metadata\":{\"source\":\"manual\"}}"),
        ),
    );
    proof {
        reveal_strlit("Create a new document.");
        assert(endpoint_view(eps@[1]) =~= api_endpoints()[1]);
        assert(eps@[1].example_body is Some <==> takes_body(eps@[1].method@));
    }
    eps.push(
        endpoint(
            "GET",
            "/rb/documents",
            "List all non-deleted documents with pagination.",
            vec![
                param("limit", "query (number)", false, "Max results to return (default 50)."),
                param("offset", "query (number)", false, "Number of results to skip (default 0)."),
            ],
            None,
        ),
    );
    proof {
        reveal_strlit("List all non-deleted documents with pagination.");
        assert(endpoint_view(eps@[2]) =~= api_endpoints()[2]);
        assert(eps@[2].example_body is Some <==> takes_body(eps@[2].method@));
    }
    eps.push(
        endpoint(
            "GET",
            "/rb/documents/{id}",
            "Get a single document by UUID.",
            vec![
                param("id", "path (UUID)", true, "The document UUID."),
            ],
            None,
        ),
    );
    proof {
        reveal_strlit("Get a single document by UUID.");
        assert(endpoint_view(eps@[3]) =~= api_endpoints()[3]);
        assert(eps@[3].example_body is Some <==> takes_body(eps@[3].method@));
    }
    eps.push(
        endpoint(
            "PUT",
            "/rb/documents/{id}",
            "Update an existing document. Only supplied fields are changed.",
            vec![
                param("id", "path (UUID)", true, "The document UUID."),
                param("title", "string", false, "New title."),
                param("content", "string", false, "New content."),
                param("tags", "array<string>", false, "Replace tags."),
                param("metadata", "object", false, "Replace metadata."),
            ],
            Some("{\"title\":\"Updated title\"}"),
        ),
    );
    proof {
        reveal_strlit("Update an existing document. Only supplied fields are changed.");
        assert(endpoint_view(eps@[4]) =~= api_endpoints()[4]);
        assert(eps@[4].example_body is Some <==> takes_body(eps@[4].method@));
    }
    eps.push(
        endpoint(
            "DELETE",
            "/rb/documents/{id}",
            "Soft-delete a document.",
            vec![
                param("id", "path (UUID)", true, "The document UUID."),
            ],
            None,
        ),
    );
    proof {
        reveal_strlit("Soft-delete a document.");
        assert(endpoint_view(eps@[5]) =~= api_endpoints()[5]);
        assert(eps@[5].example_body is Some <==> takes_body(eps@[5].method@));
    }
    eps.push(
        endpoint(
            "POST",
            "/rb/documents/{id}/append",
            "Micro-update: append text to a document's content without read-modify-write. Joins with a blank line by default; sets content directly on an empty document. Returns the full updated document.",
            vec![
                param("id", "path (UUID)", true, "The document UUID."),
                param("content", "string", true, "Text to append."),
                param("separator", "string", false, "Joiner between existing and appended text (default: blank line)."),
            ],
            Some("{\"content\":\"Follow-up: measurements are in.\"}"),
        ),
    );
    proof {
        reveal_strlit("Micro-update: append text to a document's content without read-modify-write. Joins with a blank line by default; sets content directly on an empty document. Returns the full updated document.");
        assert(endpoint_view(eps@[6]) =~= api_endpoints()[6]);
        assert(eps@[6].example_body is Some <==> takes_body(eps@[6].method@));
    }
    eps.push(
        endpoint(
            "POST",
            "/rb/documents/{id}/tags",
            "Micro-update: add tags (set union). Duplicates are no-ops; existing tags are untouched. Removing tags is a full-list PUT. Returns the full updated document.",
            vec![
                param("id", "path (UUID)", true, "The document UUID."),
                param("tags", "array<string>", true, "Tag names to add."),
            ],
            Some("{\"tags\":[\"follow-up\",\"measurements\"]}"),
        ),
    );
    proof {
        reveal_strlit("Micro-update: add tags (set union). Duplicates are no-ops; existing tags are untouched. Removing tags is a full-list PUT. Returns the full updated document.");
        assert(endpoint_view(eps@[7]) =~= api_endpoints()[7]);
        assert(eps@[7].example_body is Some <==> takes_body(eps@[7].method@));
    }
    eps.push(
        endpoint(
            "POST",
            "/rb/documents/{id}/metadata",
            "Micro-update: merge metadata keys. Listed keys are set (typed like create: booleans and integers preserved), null deletes a key, unlisted keys are left alone. Returns the full updated document.",
            vec![
                param("id", "path (UUID)", true, "The document UUID."),
                param("(body)", "object", true, "Keys to set or delete (value null deletes)."),
            ],
            Some("{\"priority\":\"high\",\"pinned\":true,\"stale-key\":null}"),
        ),
    );
    proof {
        reveal_strlit("Micro-update: merge metadata keys. Listed keys are set (typed like create: booleans and integers preserved), null deletes a key, unlisted keys are left alone. Returns the full updated document.");
        assert(endpoint_view(eps@[8]) =~= api_endpoints()[8]);
        assert(eps@[8].example_body is Some <==> takes_body(eps@[8].method@));
    }
    eps.push(
        endpoint(
            "POST",
            "/rb/documents/get-or-create",
            "Find the active document with this exact title or create it. 200 returns the existing document unchanged; 201 creates a stub (empty content unless supplied) with optional tags. The idempotent entry point for per-topic working documents.",
            vec![
                param("title", "string", true, "Exact title to match or create under."),
                param("content", "string", false, "Initial content (create path only; ignored when the document exists)."),
                param("tags", "array<string>", false, "Initial tags (create path only; ignored when the document exists)."),
            ],
            Some("{\"title\":\"Daily Journal\",\"tags\":[\"journal\"]}"),
        ),
    );
    proof {
        reveal_strlit("Find the active document with this exact title or create it. 200 returns the existing document unchanged; 201 creates a stub (empty content unless supplied) with optional tags. The idempotent entry point for per-topic working documents.");
        assert(endpoint_view(eps@[9]) =~= api_endpoints()[9]);
        assert(eps@[9].example_body is Some <==> takes_body(eps@[9].method@));
    }
    eps.push(
        endpoint(
            "POST",
            "/rb/search",
            "Full-text search (SQLite FTS5) across documents, returning ranked results with excerpts.",
            vec![
                param("query", "string", true, "Search query."),
                param("tags", "array<string>", false, "Filter to documents with any of these tags."),
                param("limit", "number", false, "Max results (default 20)."),
                param("offset", "number", false, "Results to skip (default 0)."),
            ],
            Some("{\"query\":\"rust async patterns\",\"tags\":[\"rust\"],\"limit\":10}"),
        ),
    );
    proof {
        reveal_strlit("Full-text search (SQLite FTS5) across documents, returning ranked results with excerpts.");
        assert(endpoint_view(eps@[10]) =~= api_endpoints()[10]);
        assert(eps@[10].example_body is Some <==> takes_body(eps@[10].method@));
    }
    eps.push(
        endpoint(
            "GET",
            "/rb/search",
            "Search via GET query parameters (simpler but without tag filtering).",
            vec![
                param("q", "query (string)", true, "Search query."),
                param("limit", "query (number)", false, "Max results."),
                param("offset", "query (number)", false, "Results to skip."),
            ],
            None,
        ),
    );
    proof {
        reveal_strlit("Search via GET query parameters (simpler but without tag filtering).");
        assert(endpoint_view(eps@[11]) =~= api_endpoints()[11]);
        assert(eps@[11].example_body is Some <==> takes_body(eps@[11].method@));
    }
    eps.push(
        endpoint(
            "GET",
            "/rb/stats",
            "Get knowledge base statistics (document counts, unique tags).",
            Vec::new(),
            None,
        ),
    );
    proof {
        reveal_strlit("Get knowledge base statistics (document counts, unique tags).");
        assert(endpoint_view(eps@[12]) =~= api_endpoints()[12]);
        assert(eps@[12].example_body is Some <==> takes_body(eps@[12].method@));
    }
    assert(surface_of(eps@) =~= api_surface());
    assert(eps@.map_values(|e: EndpointDescription| endpoint_view(e)) =~= api_endpoints());
    eps
}

/// The usage notes, in order.
pub open spec fn api_notes_spec() -> Seq<Seq<char>> {
    seq![
        "Document ids are UUIDs; malformed ids are rejected with 400, unknown or deleted ids with 404."@,
        "Every mutating endpoint returns the full updated document, so operations can chain without a follow-up GET."@,
        "PUT /rb/documents/{id} is partial for title/content (absent = unchanged) but REPLACES the whole tag list and metadata map when supplied."@,
        "For micro-updates prefer the append / tags / metadata routes: they touch only what they name and never require read-modify-write."@,
        "POST /rb/documents/get-or-create is the entry point for per-topic working documents: same title returns the existing document (200), otherwise creates a stub (201)."@,
        "content is optional everywhere (empty string when omitted) — start with a title stub and append into it."@,
        "Search and content are synced through SQLite FTS5: appended text is searchable immediately."@,
    ]
}

/// The usage notes of the discovery document, written for agents that
/// find the API through it.
pub fn api_notes() -> (res: Vec<String>)
    ensures
        crate::form::strings_view(res@) == api_notes_spec(),
{
    vec![
        string_from("Document ids are UUIDs; malformed ids are rejected with 400, unknown or deleted ids with 404."),
        string_from("Every mutating endpoint returns the full updated document, so operations can chain without a follow-up GET."),
        string_from("PUT /rb/documents/{id} is partial for title/content (absent = unchanged) but REPLACES the whole tag list and metadata map when supplied."),
        string_from("For micro-updates prefer the append / tags / metadata routes: they touch only what they name and never require read-modify-write."),
        string_from("POST /rb/documents/get-or-create is the entry point for per-topic working documents: same title returns the existing document (200), otherwise creates a stub (201)."),
        string_from("content is optional everywhere (empty string when omitted) — start with a title stub and append into it."),
        string_from("Search and content are synced through SQLite FTS5: appended text is searchable immediately."),
    ]
}

/// The answer of the health check: the service is running.
pub fn health_check() -> (res: String)
    ensures
        res@ == "ok"@,
{
    string_from("ok")
}

/// The discovery document for the API at version `version`: named
/// `rho-brain`, based at `/rb`, with its usage notes and its endpoints.
pub fn get_endpoints(version: &str) -> (res: EndpointsResponse)
    ensures
        res.name@ == "rho-brain"@,
        res.version@ == version@,
        res.base@ == "/rb"@,
        crate::form::strings_view(res.notes@) == api_notes_spec(),
        surface_of(res.endpoints@) == api_surface(),
        res.endpoints@.map_values(|e: EndpointDescription| endpoint_view(e)) == api_endpoints(),
        forall|k: int|
            0 <= k < res.endpoints@.len() ==> {
                &&& (#[trigger] res.endpoints@[k]).description@.len() > 0
                &&& (res.endpoints@[k].example_body is Some <==> takes_body(
                    res.endpoints@[k].method@,
                ))
            },
{
    EndpointsResponse {
        name: string_from("rho-brain"),
        version: string_from(version),
        base: string_from("/rb"),
        notes: api_notes(),
        endpoints: build_endpoint_list(),
    }
}

} // verus!
