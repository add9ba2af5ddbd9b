//! Request dispatch: crawler detection, and the resolution of a path to a
//! redirect, a preview document, or the fixed fallback.

use vstd::prelude::*;

use crate::db::{
    bump_hits, find_by_path, incr_effect, lemma_find_characterized, store_wf, StoreV,
    Store,
};
use crate::error::{Error, ErrorKind};
use crate::models::{html_of, Url, UrlV};
use crate::text::{contains_str, has_substring};

verus! {

/// The identity fragment that the link-preview crawler of the chat
/// platform declares; a cheap heuristic, kept behind this one predicate so
/// it can be swapped without touching the dispatch logic.
pub open spec fn lark_signature() -> Seq<char> {
    "Chrome/91.0.4450.0"@
}

/// Where a path with no mapping is sent.
pub open spec fn fallback_url() -> Seq<char> {
    "https://www.bilibili.com/video/BV1MX4y1N75X"@
}

/// The content type of the preview document.
pub open spec fn html_content_type() -> Seq<char> {
    "text/html; charset=utf-8"@
}

/// Classify a client-identity string: does it declare the link-preview
/// crawler?
pub fn is_lark_bot_ua(ua: &str) -> (r: bool)
    ensures
        r == has_substring(ua@, lark_signature()),
{
    contains_str(ua, "Chrome/91.0.4450.0")
}

/// What a handler answers: a status code, an optional redirect target, an
/// optional content type, and a body.
#[derive(Debug)]
pub struct Response {
    pub status: u16,
    pub location: Option<String>,
    pub content_type: Option<String>,
    pub body: String,
}

/// A temporary redirect to `url`.
pub fn redirect(url: &str) -> (r: Response)
    ensures
        r.status == 307,
        r.location matches Some(l) && l@ == url@,
        r.content_type is None,
        r.body@ == Seq::<char>::empty(),
{
    Response {
        status: 307,
        location: Some(String::from_str(url)),
        content_type: None,
        body: String::new(),
    }
}

/// The answer for the fixed favicon path: an empty success.
pub fn empty() -> (r: Response)
    ensures
        r.status == 200,
        r.location is None,
        r.content_type is None,
        r.body@ == Seq::<char>::empty(),
{
    Response { status: 200, location: None, content_type: None, body: String::new() }
}

/// What a resolution decides: the response to send, and the id whose hit
/// count is to be raised afterwards, detached from the response.
#[derive(Debug)]
pub struct Outcome {
    pub response: Response,
    pub increment: Option<i64>,
}

/// Resolve a request. A missing client identity is a client error. A path
/// with no mapping answers with a temporary redirect to the fixed
/// fallback, whatever the client is. A mapped path answers the crawler
/// with the preview document and no hit, and the end user with a
/// temporary redirect to the mapping's destination plus a detached hit
/// increment on the mapping's id.
pub fn handle_request(path: &str, user_agent: Option<&str>, store: &Store) -> (r: Result<
    Outcome,
    Error,
>)
    requires
        store.wf(),
    ensures
        user_agent is None ==> (r matches Err(e) && e.kind == ErrorKind::ClientInput && e.code
            == 400),
        user_agent matches Some(ua) ==> match find_by_path(store@.records, path@) {
            None => r matches Ok(o) && {
                &&& o.response.status == 307
                &&& o.response.location matches Some(l) && l@ == fallback_url()
                &&& o.increment is None
            },
            Some(u) => r matches Ok(o) && if has_substring(ua@, lark_signature()) {
                &&& o.response.status == 200
                &&& o.response.content_type matches Some(c) && c@ == html_content_type()
                &&& o.response.body@ == html_of(u.icon, u.title, u.body)
                &&& o.response.location is None
                &&& o.increment is None
            } else {
                &&& o.response.status == 307
                &&& o.response.location matches Some(l) && l@ == u.redirect
                &&& o.increment matches Some(id) && id as int == u.id
            },
        },
{
    let ua = match user_agent {
        Some(ua) => ua,
        None => {
            return Err(Error::new(ErrorKind::ClientInput, "missing User-Agent header"));
        },
    };
    let found = Url::from_path(path, store);
    let url = match found {
        Some(url) => url,
        None => {
            return Ok(
                Outcome {
                    response: redirect("https://www.bilibili.com/video/BV1MX4y1N75X"),
                    increment: None,
                },
            );
        },
    };
    if is_lark_bot_ua(ua) {
        let body = url.html();
        let response = Response {
            status: 200,
            location: None,
            content_type: Some(String::from_str("text/html; charset=utf-8")),
            body,
        };
        Ok(Outcome { response, increment: None })
    } else {
        let response = redirect(url.redirect.as_str());
        Ok(Outcome { response, increment: Some(url.id) })
    }
}

/// An end-user resolution counts one hit: when a path resolves to a
/// record (so the dispatcher directs a detached increment of its id) and
/// that increment later reaches the store, exactly that record's count
/// has risen by one — provided the counter has room at its width.
pub proof fn lemma_end_user_hit_counted(pre: StoreV, post: StoreV, path: Seq<char>, u: UrlV)
    requires
        store_wf(pre),
        find_by_path(pre.records, path) == Some(u),
        incr_effect(pre, post, u.id),
        u.hits < u64::MAX,
    ensures
        bump_hits(u).hits == u.hits + 1,
        exists|i: int|
            {
                &&& 0 <= i < pre.records.len()
                &&& #[trigger] pre.records[i] == u
                &&& post.records == pre.records.update(i, bump_hits(u))
            },
{
    lemma_find_characterized(pre.records, path);
    let i = choose|i: int|
        {
            &&& 0 <= i < pre.records.len()
            &&& #[trigger] pre.records[i] == u
            &&& pre.records[i].path == path
            &&& forall|j: int| 0 <= j < i ==> (#[trigger] pre.records[j]).path != path
        };
    assert(pre.records[i].id == u.id);
    assert(post.records == pre.records.update(i, bump_hits(pre.records[i])));
}

} // verus!
