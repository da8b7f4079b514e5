//! The HTTP side of the bridge: what a request asks for, and the responses
//! that go back.

use crate::query::{grouped, parse_query_string, query_pairs, ParamsView, QueryParams};
use crate::text::{
    chars_of, find_from, first_index_of, first_index_of_is, str_eq, trim_start, trim_start_is,
};
use vstd::prelude::*;
use vstd::string::{StrSliceExecFns, StringExecFns};

verus! {

/// The address on which the bridge listens.
pub const ADDRESS: &'static str = "127.0.0.1";

/// The port on which the bridge listens.
pub const PORT: u16 = 19633;

/// The path, without its slash, that asks for the version of the bridge.
pub const VERSION_PATH: &'static str = "serverVersion";

/// The body that answers a request for the version: protocol version 1.
pub const VERSION_BODY: &'static str = "{\"version\":1}";

/// The method of an HTTP request.
#[derive(Clone, Copy, PartialEq, Eq, Debug, Structural)]
pub enum Method {
    Get,
    Head,
    Post,
    Put,
    Delete,
    Connect,
    Options,
    Trace,
    Patch,
    /// Any method that is none of the above.
    NonStandard,
}

/// An HTTP request as the bridge looks at it.
#[derive(Debug, PartialEq, Eq)]
pub struct Request {
    pub method: Method,
    /// The request target: a path and, behind a `?`, a query string.
    pub url: String,
    pub body: Vec<u8>,
}

/// The model of a [`Request`].
pub struct RequestView {
    pub method: Method,
    pub url: Seq<char>,
    pub body: Seq<u8>,
}

impl View for Request {
    type V = RequestView;

    open spec fn view(&self) -> RequestView {
        RequestView { method: self.method, url: self.url@, body: self.body@ }
    }
}

/// One header of a response.
#[derive(Debug, PartialEq, Eq)]
pub struct Header {
    pub name: String,
    pub value: String,
}

impl View for Header {
    type V = (Seq<char>, Seq<char>);

    open spec fn view(&self) -> (Seq<char>, Seq<char>) {
        (self.name@, self.value@)
    }
}

/// An HTTP response.
#[derive(Debug, PartialEq, Eq)]
pub struct HttpResponse {
    pub status: u16,
    pub headers: Vec<Header>,
    pub body: String,
}

/// The model of an [`HttpResponse`].
pub struct ResponseView {
    pub status: u16,
    pub headers: Seq<(Seq<char>, Seq<char>)>,
    pub body: Seq<char>,
}

impl View for HttpResponse {
    type V = ResponseView;

    open spec fn view(&self) -> ResponseView {
        ResponseView {
            status: self.status,
            headers: Seq::new(self.headers@.len(), |i: int| self.headers@[i]@),
            body: self.body@,
        }
    }
}

/// The headers that every response carries: the content type that fits the
/// body, leave for any origin to read the response, and no caching.
pub open spec fn response_headers(has_body: bool) -> Seq<(Seq<char>, Seq<char>)> {
    seq![
        (
            "Content-Type"@,
            if has_body {
                "application/json"@
            } else {
                "text/plain"@
            },
        ),
        ("Access-Control-Allow-Origin"@, "*"@),
        ("Cache-Control"@, "no-store, no-cache, must-revalidate"@),
    ]
}

/// The response with the given status and JSON body, or with no body.
pub open spec fn response_view(body: Option<Seq<char>>, status: u16) -> ResponseView {
    ResponseView {
        status,
        headers: response_headers(body is Some),
        body: match body {
            Some(json) => json,
            None => Seq::empty(),
        },
    }
}

/// The answer to a request for the version of the bridge.
pub open spec fn version_response() -> ResponseView {
    response_view(Some(VERSION_BODY@), 200)
}

/// The path of a request target: what stands before its first `?`.
pub open spec fn url_path(url: Seq<char>) -> Seq<char> {
    url.take(first_index_of(url, '?'))
}

/// The query string of a request target: what stands behind its first `?`.
pub open spec fn url_query(url: Seq<char>) -> Seq<char> {
    let at = first_index_of(url, '?');
    if at < url.len() {
        url.skip(at + 1)
    } else {
        Seq::empty()
    }
}

/// The action that a request target names: its path without the slashes
/// that it starts with.
pub open spec fn action_of(url: Seq<char>) -> Seq<char> {
    trim_start(url_path(url), '/')
}

/// Whether an action is answered by the bridge itself.
pub open spec fn is_reserved(action: Seq<char>) -> bool {
    action.len() == 0 || action == VERSION_PATH@
}

/// What is to be done about a request.
#[derive(Debug, PartialEq, Eq)]
pub enum Route {
    /// Answer with the version of the bridge; the host is not asked.
    Version,
    /// Refuse the request; the host is not asked.
    Reject,
    /// Hand the action and its parameters to the host.
    Forward { action: String, params: QueryParams },
}

/// The model of a [`Route`].
pub enum RouteView {
    Version,
    Reject,
    Forward { action: Seq<char>, params: ParamsView },
}

impl View for Route {
    type V = RouteView;

    open spec fn view(&self) -> RouteView {
        match self {
            Route::Version => RouteView::Version,
            Route::Reject => RouteView::Reject,
            Route::Forward { action, params } => RouteView::Forward {
                action: action@,
                params: params@,
            },
        }
    }
}

/// Where a request goes. The two reserved actions are answered locally
/// whatever the method; every other action is forwarded if it was posted and
/// refused if not.
pub open spec fn routed(method: Method, url: Seq<char>) -> RouteView {
    let action = action_of(url);
    if is_reserved(action) {
        RouteView::Version
    } else if method != Method::Post {
        RouteView::Reject
    } else {
        RouteView::Forward { action, params: grouped(query_pairs(url_query(url))) }
    }
}

/// Builds a response: `status`, the JSON text `body` if there is one, and
/// the headers that every response carries.
pub fn response(body: Option<String>, status: u16) -> (response: HttpResponse)
    ensures
        response@ == response_view(
            match body {
                Some(json) => Some(json@),
                None => None,
            },
            status,
        ),
{
    let content_type = if body.is_some() {
        "application/json"
    } else {
        "text/plain"
    };
    let mut headers: Vec<Header> = Vec::new();
    headers.push(
        Header { name: String::from_str("Content-Type"), value: String::from_str(content_type) },
    );
    headers.push(
        Header {
            name: String::from_str("Access-Control-Allow-Origin"),
            value: String::from_str("*"),
        },
    );
    headers.push(
        Header {
            name: String::from_str("Cache-Control"),
            value: String::from_str("no-store, no-cache, must-revalidate"),
        },
    );
    let ghost has_body = body is Some;
    let text = match body {
        Some(json) => json,
        None => String::new(),
    };
    let response = HttpResponse { status, headers, body: text };
    assert(response@.headers =~= response_headers(has_body));
    response
}

/// Decides where a request goes from its method and its target.
pub fn route(method: Method, url: &str) -> (route: Route)
    ensures
        route@ == routed(method, url@),
{
    let chars = chars_of(url);
    let length = chars.len();
    let path_end = find_from(&chars, 0, '?');
    let mut action_start: usize = 0;
    while action_start < path_end && chars[action_start] == '/'
        invariant
            action_start <= path_end <= chars@.len(),
            forall|i: int| 0 <= i < action_start ==> chars@[i] == '/',
        decreases path_end - action_start,
    {
        action_start += 1;
    }
    let action = url.substring_char(action_start, path_end);
    proof {
        first_index_of_is(url@, '?', path_end as int);
        trim_start_is(url_path(url@), '/', action_start as int);
        assert(action@ =~= action_of(url@));
    }
    if action_start == path_end || str_eq(action, VERSION_PATH) {
        return Route::Version;
    }
    if !matches!(method, Method::Post) {
        return Route::Reject;
    }
    let query = if path_end < length {
        url.substring_char(path_end + 1, length)
    } else {
        url.substring_char(length, length)
    };
    assert(query@ =~= url_query(url@));
    Route::Forward { action: String::from_str(action), params: parse_query_string(query) }
}

} // verus!
