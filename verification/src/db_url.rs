//! The database location: the URL a configured location is connected
//! with (a plain file path is an SQLite file), and whether the database is
//! new and needs its schema created.
use vstd::prelude::*;

use crate::text::first_index;

verus! {

/// A character a URL scheme may hold after its first letter.
pub open spec fn is_scheme_char(c: char) -> bool {
    ('a' <= c && c <= 'z') || ('A' <= c && c <= 'Z') || ('0' <= c && c <= '9') || c == '+' || c
        == '-' || c == '.'
}

/// Whether a location starts with a URL scheme: a letter, then letters,
/// digits, `+`, `-` or `.`, up to the first `:`.
pub open spec fn has_scheme(url: Seq<char>) -> bool {
    match first_index(url, ':') {
        Some(i) => i > 0 && (('a' <= url[0] && url[0] <= 'z') || ('A' <= url[0] && url[0] <= 'Z'))
            && forall|k: int| 0 <= k < i ==> is_scheme_char(#[trigger] url[k]),
        None => false,
    }
}

/// The URL a configured database location is connected with: a location
/// with a scheme as it is; a plain file path (such as `/path/to/db.sqlite`)
/// names an SQLite file, `sqlite:` followed by the path.
pub open spec fn connection_url_spec(url: Seq<char>) -> Seq<char> {
    if has_scheme(url) {
        url
    } else {
        "sqlite:"@ + url
    }
}

/// The URL to connect with for a configured database location.
pub fn connection_url(url: &str) -> (res: String)
    ensures
        res@ == connection_url_spec(url@),
{
    let cs = crate::text::chars_of(url);
    let scheme = match crate::text::find_char(cs.as_slice(), ':') {
        Some(i) => {
            if i == 0 {
                false
            } else {
                let c0 = cs[0];
                let mut ok: bool = ('a' <= c0 && c0 <= 'z') || ('A' <= c0 && c0 <= 'Z');
                let mut k: usize = 0;
                while k < i
                    invariant
                        i < cs@.len(),
                        k <= i,
                        cs@ == url@,
                        ok == ((('a' <= cs@[0] && cs@[0] <= 'z') || ('A' <= cs@[0] && cs@[0]
                            <= 'Z')) && forall|j: int| 0 <= j < k ==> is_scheme_char(
                            #[trigger] cs@[j],
                        )),
                    decreases i - k,
                {
                    let c = cs[k];
                    ok = ok && (('a' <= c && c <= 'z') || ('A' <= c && c <= 'Z') || ('0' <= c
                        && c <= '9') || c == '+' || c == '-' || c == '.');
                    k += 1;
                }
                ok
            }
        },
        None => false,
    };
    if scheme {
        crate::text::string_from(url)
    } else {
        let mut res = crate::text::string_from("sqlite:");
        crate::text::push_all(&mut res, url);
        res
    }
}

/// The path of an SQLite URL (`sqlite:<path>`), if the URL is one.
pub open spec fn sqlite_path_spec(url: Seq<char>) -> Option<Seq<char>> {
    if url.len() >= 7 && url.take(7) == "sqlite:"@ {
        Some(url.skip(7))
    } else {
        None
    }
}

/// The path of an SQLite URL (`sqlite:<path>`), if the URL is one.
pub fn sqlite_path(url: &str) -> (res: Option<String>)
    ensures
        match res {
            Some(p) => sqlite_path_spec(url@) == Some(p@),
            None => sqlite_path_spec(url@) is None,
        },
{
    let cs = crate::text::chars_of(url);
    let prefix = crate::text::chars_of("sqlite:");
    proof {
        reveal_strlit("sqlite:");
    }
    if cs.len() < 7 {
        return None;
    }
    let head = crate::text::slice_chars(cs.as_slice(), 0, 7);
    assert(head@ =~= url@.take(7));
    if !crate::metadata::chars_eq(head.as_slice(), prefix.as_slice()) {
        return None;
    }
    let rest = crate::text::slice_chars(cs.as_slice(), 7, cs.len());
    assert(rest@ =~= url@.skip(7));
    Some(crate::text::string_of(rest.as_slice()))
}

/// Whether the database at the configured location `url` is new: an
/// in-memory SQLite database always is, an SQLite file (given as
/// `sqlite:<path>` or as a plain path) is when it does not exist yet, and
/// any other URL never is. `file_exists` tells whether the SQLite path
/// names an existing file.
pub open spec fn is_new_database_spec(url: Seq<char>, file_exists: bool) -> bool {
    match sqlite_path_spec(connection_url_spec(url)) {
        Some(p) => p == ":memory:"@ || !file_exists,
        None => false,
    }
}

/// Decides whether the schema must be created for the database at `url`.
pub fn is_new_database(url: &str, file_exists: bool) -> (res: bool)
    ensures
        res == is_new_database_spec(url@, file_exists),
{
    let full = connection_url(url);
    match sqlite_path(full.as_str()) {
        Some(p) => {
            let pc = crate::text::chars_of(p.as_str());
            let mem = crate::text::chars_of(":memory:");
            crate::metadata::chars_eq(pc.as_slice(), mem.as_slice()) || !file_exists
        },
        None => false,
    }
}

} // verus!
