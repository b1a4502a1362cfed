//! The paged session listing of the endpoint (`/api/session`): page queries,
//! the cursor walk, and the sessions that its items stand for.
//!
//! The listing of every session, whatever the server's working directory, is
//! fetched page by page: each page names the cursor of the next one, and the
//! walk ends when there is none, or after `SESSION_PAGE_CAP` pages.

use vstd::prelude::*;
use crate::opencode::models::{Session, V2Cursor, V2NewSessionItem, V2SessionItem};
use crate::text::{push_str, string_of};

verus! {

broadcast use vstd::string::group_string_axioms;

/// Sessions asked for per page.
pub const SESSION_PAGE_LIMIT: usize = 100;

/// Most pages fetched in one listing.
pub const SESSION_PAGE_CAP: usize = 1000;

// ---------------------------------------------------------------------------
// Pages
// ---------------------------------------------------------------------------

/// Address of the session listing; a page is asked for with the query of
/// `session_page_query`.
pub fn session_list_url(base: &str) -> (r: String)
    ensures
        r@ == base@ + "/api/session"@,
{
    let mut r = string_of(base);
    push_str(&mut r, "/api/session");
    r
}

/// The query of a page of the session listing, as name and value pairs (the
/// HTTP client encodes them): the page size, and for a later page the cursor
/// that the page before named.
pub open spec fn session_page_query_of(cursor: Option<Seq<char>>) -> Seq<(Seq<char>, Seq<char>)> {
    match cursor {
        Some(c) => seq![("limit"@, "100"@), ("cursor"@, c)],
        None => seq![("limit"@, "100"@)],
    }
}

pub fn session_page_query(cursor: Option<&str>) -> (r: Vec<(String, String)>)
    ensures
        r@.map_values(|p: (String, String)| (p.0@, p.1@)) == session_page_query_of(
            match cursor {
                Some(c) => Some(c@),
                None => None,
            },
        ),
{
    let mut r: Vec<(String, String)> = Vec::new();
    r.push((string_of("limit"), string_of("100")));
    match cursor {
        Some(c) => {
            r.push((string_of("cursor"), string_of(c)));
        },
        None => {},
    }
    proof {
        reveal_strlit("limit");
        reveal_strlit("100");
        reveal_strlit("cursor");
    }
    assert(r@.map_values(|p: (String, String)| (p.0@, p.1@)) =~= session_page_query_of(
        match cursor {
            Some(c) => Some(c@),
            None => None,
        },
    ));
    r
}

/// The cursor of the page to fetch after `pages` pages, the last of which
/// named `cursor`; `None` ends the walk (no next page, or the cap reached).
pub open spec fn next_page_of(pages: usize, cursor: V2Cursor) -> Option<Seq<char>> {
    if pages >= SESSION_PAGE_CAP {
        None
    } else {
        match cursor.next {
            Some(c) => Some(c@),
            None => None,
        }
    }
}

pub fn next_page(pages: usize, cursor: &V2Cursor) -> (r: Option<String>)
    ensures
        match r {
            Some(c) => next_page_of(pages, *cursor) == Some(c@),
            None => next_page_of(pages, *cursor) is None,
        },
{
    if pages >= SESSION_PAGE_CAP {
        return None;
    }
    match &cursor.next {
        Some(c) => Some(c.clone()),
        None => None,
    }
}

// ---------------------------------------------------------------------------
// Items
// ---------------------------------------------------------------------------

/// The directory of an item of the older listing: its path below the root,
/// with the leading `/` put back (`/` for an empty path).
pub open spec fn item_directory(path: Seq<char>) -> Seq<char> {
    "/"@ + path
}

/// The session that an item of the older listing (relative `path`) stands for.
pub fn session_of_item(item: V2SessionItem) -> (r: Session)
    ensures
        r.id == item.id,
        r.project_id == item.project_id,
        r.directory@ == item_directory(item.path@),
        r.title == item.title,
        r.version@.len() == 0,
        r.time == item.time,
        r.parent_id is None,
{
    let mut directory = string_of("/");
    push_str(&mut directory, item.path.as_str());
    Session {
        id: item.id,
        project_id: item.project_id,
        directory,
        title: item.title,
        version: String::new(),
        time: item.time,
        parent_id: None,
    }
}

/// The session that an item of the newer listing (absolute directory) stands for.
pub fn session_of_new_item(item: V2NewSessionItem) -> (r: Session)
    ensures
        r.id == item.id,
        r.project_id == item.project_id,
        r.directory == item.location.directory,
        r.title == item.title,
        r.version@.len() == 0,
        r.time == item.time,
        r.parent_id is None,
{
    Session {
        id: item.id,
        project_id: item.project_id,
        directory: item.location.directory,
        title: item.title,
        version: String::new(),
        time: item.time,
        parent_id: None,
    }
}

} // verus!
