//! The execution context handed to the application for one request.
use vstd::prelude::*;
use vstd::string::*;
use crate::text::{eq_ignore_case, equals_ignore_case};

verus! {

/// The scheme under which the gateway is reached.
#[derive(Debug, Clone, Copy, PartialEq, Eq, Structural)]
pub enum UrlScheme {
    HTTP,
    HTTPS,
}

/// The version of the protocol a request was sent with.
#[derive(Debug, Clone, Copy, PartialEq, Eq, Structural)]
pub enum HttpVersion {
    Http09,
    Http10,
    Http11,
    Http2,
    Http3,
}

/// The text by which a protocol version is written on the wire.
pub open spec fn version_text(v: HttpVersion) -> Seq<char> {
    match v {
        HttpVersion::Http09 => "HTTP/0.9"@,
        HttpVersion::Http10 => "HTTP/1.0"@,
        HttpVersion::Http11 => "HTTP/1.1"@,
        HttpVersion::Http2 => "HTTP/2.0"@,
        HttpVersion::Http3 => "HTTP/3.0"@,
    }
}

impl HttpVersion {
    /// The version as written on the wire, such as `HTTP/1.1`.
    pub fn as_str(&self) -> (r: &'static str)
        ensures
            r@ == version_text(*self),
    {
        match self {
            HttpVersion::Http09 => "HTTP/0.9",
            HttpVersion::Http10 => "HTTP/1.0",
            HttpVersion::Http11 => "HTTP/1.1",
            HttpVersion::Http2 => "HTTP/2.0",
            HttpVersion::Http3 => "HTTP/3.0",
        }
    }
}

/// One header of a request. `value` is `None` where the transport could not
/// read the value as visible text.
#[derive(Clone, Debug, PartialEq, Eq)]
pub struct Header {
    pub name: String,
    pub value: Option<String>,
}

/// A request as the transport hands it over: method, path (decoded, without
/// the query), query if any, headers in order, and protocol version.
#[derive(Clone, Debug, PartialEq, Eq)]
pub struct Request {
    pub method: String,
    pub path: String,
    pub query: Option<String>,
    pub headers: Vec<Header>,
    pub version: HttpVersion,
}

/// How the gateway itself is reached.
#[derive(Clone, Debug, PartialEq, Eq)]
pub struct Gateway {
    pub server_name: String,
    pub server_port: String,
    pub url_scheme: UrlScheme,
}

/// The text of an optional string, empty when absent.
pub open spec fn text_or_empty(s: Option<String>) -> Seq<char> {
    match s {
        Some(t) => t@,
        None => Seq::empty(),
    }
}

/// The header variables of a request: every header, in order, by name, with
/// an unreadable value given as empty text.
pub open spec fn header_variables(hs: Seq<Header>) -> Seq<(Seq<char>, Seq<char>)> {
    hs.map_values(|h: Header| (h.name@, text_or_empty(h.value)))
}

/// The model of a list of string pairs.
pub open spec fn pairs_view(v: Seq<(String, String)>) -> Seq<(Seq<char>, Seq<char>)> {
    v.map_values(|p: (String, String)| (p.0@, p.1@))
}

/// The value of the first variable at index `i` or later whose name is
/// `name` regardless of ASCII case; empty if there is none.
pub open spec fn lookup_from(vars: Seq<(Seq<char>, Seq<char>)>, name: Seq<char>, i: int) -> Seq<char>
    decreases vars.len() - i,
{
    if i < 0 || i >= vars.len() {
        Seq::empty()
    } else if eq_ignore_case(vars[i].0, name) {
        vars[i].1
    } else {
        lookup_from(vars, name, i + 1)
    }
}

/// The value of the first variable named `name` regardless of ASCII case,
/// or empty text.
pub open spec fn lookup(vars: Seq<(Seq<char>, Seq<char>)>, name: Seq<char>) -> Seq<char> {
    lookup_from(vars, name, 0)
}

/// What `lookup_from` finds: the value of the first name match from `i`
/// on, or empty text when there is none.
pub proof fn lemma_lookup_from(vars: Seq<(Seq<char>, Seq<char>)>, name: Seq<char>, i: int, k: int)
    requires
        0 <= i <= k <= vars.len(),
        forall|l: int| i <= l < k ==> !eq_ignore_case(#[trigger] vars[l].0, name),
    ensures
        k < vars.len() && eq_ignore_case(vars[k].0, name) ==> lookup_from(vars, name, i) == vars[k].1,
        k == vars.len() ==> lookup_from(vars, name, i) == Seq::<char>::empty(),
    decreases k - i,
{
    if i < k {
        lemma_lookup_from(vars, name, i + 1, k);
    }
}

/// The execution context passed to the application for one request.
#[derive(Debug)]
pub struct Environ {
    /// The request method, such as `GET`.
    pub request_method: String,
    /// The part of the path that names the application's mount point.
    pub script_name: String,
    /// The rest of the path, within the application.
    pub path_info: String,
    /// The part of the URL after `?`, empty if there is none.
    pub query_string: String,
    /// The Content-Type header, empty if absent.
    pub content_type: String,
    /// The Content-Length header, empty if absent.
    pub content_length: String,
    pub server_name: String,
    pub server_port: String,
    /// The protocol version the client used.
    pub server_protocol: HttpVersion,
    /// Every header of the request, by name, in order.
    pub http_variables: Vec<(String, String)>,
    /// The version of the gateway interface, (1, 0).
    pub wsgi_version: (u32, u32),
    /// The scheme under which the application is invoked.
    pub wsgi_url_scheme: UrlScheme,
    /// Whether the application may run on several threads at once.
    pub wsgi_multithread: bool,
    /// Whether the application may run in several processes at once.
    pub wsgi_multiprocess: bool,
    /// Whether the application is expected to run only once.
    pub wsgi_run_once: bool,
}

/// `e` is the context built for request `req` at gateway `g`.
pub open spec fn built_from(e: Environ, req: Request, g: Gateway) -> bool {
    &&& e.request_method@ == req.method@
    &&& e.script_name@ == Seq::<char>::empty()
    &&& e.path_info@ == req.path@
    &&& e.query_string@ == text_or_empty(req.query)
    &&& e.content_type@ == lookup(header_variables(req.headers@), "content-type"@)
    &&& e.content_length@ == lookup(header_variables(req.headers@), "content-length"@)
    &&& e.server_name@ == g.server_name@
    &&& e.server_port@ == g.server_port@
    &&& e.server_protocol == req.version
    &&& pairs_view(e.http_variables@) == header_variables(req.headers@)
    &&& e.wsgi_version == (1u32, 0u32)
    &&& e.wsgi_url_scheme == g.url_scheme
    &&& !e.wsgi_multithread
    &&& !e.wsgi_multiprocess
    &&& !e.wsgi_run_once
}

/// The value of the first variable of `vars` named `name` regardless of
/// ASCII case, or an empty string.
pub fn lookup_variable(vars: &Vec<(String, String)>, name: &str) -> (r: String)
    ensures
        r@ == lookup(pairs_view(vars@), name@),
{
    let ghost vv = pairs_view(vars@);
    let mut i: usize = 0;
    while i < vars.len()
        invariant
            vv == pairs_view(vars@),
            i <= vars@.len(),
            lookup(vv, name@) == lookup_from(vv, name@, i as int),
        decreases vars@.len() - i,
    {
        assert(vv[i as int] == (vars@[i as int].0@, vars@[i as int].1@));
        if equals_ignore_case(vars[i].0.as_str(), name) {
            return vars[i].1.clone();
        }
        i = i + 1;
    }
    String::new()
}

/// The header variables of `headers`: each name with its value, or with an
/// empty string where the value could not be read.
pub fn collect_variables(headers: &Vec<Header>) -> (r: Vec<(String, String)>)
    ensures
        pairs_view(r@) == header_variables(headers@),
{
    let mut vars: Vec<(String, String)> = Vec::new();
    let mut i: usize = 0;
    while i < headers.len()
        invariant
            i <= headers@.len(),
            pairs_view(vars@) == header_variables(headers@.subrange(0, i as int)),
        decreases headers@.len() - i,
    {
        let h = &headers[i];
        let value = match &h.value {
            Some(v) => v.clone(),
            None => String::new(),
        };
        let ghost before = pairs_view(vars@);
        vars.push((h.name.clone(), value));
        assert(headers@.subrange(0, i as int + 1) =~= headers@.subrange(0, i as int).push(*h));
        assert(pairs_view(vars@) =~= before.push((h.name@, text_or_empty(h.value))));
        assert(header_variables(headers@.subrange(0, i as int + 1)) =~= header_variables(
            headers@.subrange(0, i as int),
        ).push((h.name@, text_or_empty(h.value))));
        i = i + 1;
    }
    assert(headers@.subrange(0, i as int) =~= headers@);
    vars
}

impl Environ {
    /// A context with the given request values, no header variables, the
    /// HTTPS scheme and all capability flags off.
    pub fn new(
        request_method: String,
        script_name: String,
        path_info: String,
        query_string: String,
        content_type: String,
        content_length: String,
        server_name: String,
        server_port: String,
        server_protocol: HttpVersion,
    ) -> (r: Environ)
        ensures
            r.request_method == request_method,
            r.script_name == script_name,
            r.path_info == path_info,
            r.query_string == query_string,
            r.content_type == content_type,
            r.content_length == content_length,
            r.server_name == server_name,
            r.server_port == server_port,
            r.server_protocol == server_protocol,
            r.http_variables@.len() == 0,
            r.wsgi_version == (1u32, 0u32),
            r.wsgi_url_scheme == UrlScheme::HTTPS,
            !r.wsgi_multithread,
            !r.wsgi_multiprocess,
            !r.wsgi_run_once,
    {
        Environ {
            request_method,
            script_name,
            path_info,
            query_string,
            content_type,
            content_length,
            server_name,
            server_port,
            server_protocol,
            http_variables: Vec::new(),
            wsgi_version: (1, 0),
            wsgi_url_scheme: UrlScheme::HTTPS,
            wsgi_multithread: false,
            wsgi_multiprocess: false,
            wsgi_run_once: false,
        }
    }

    /// Builds the context for a request reaching the gateway `gateway`: the
    /// application is mounted at the root, so the whole path is its path
    /// information; every header is carried over by name; Content-Type and
    /// Content-Length are looked up without regard to case and are empty
    /// when absent.
    pub fn from_request(req: &Request, gateway: &Gateway) -> (r: Environ)
        ensures
            built_from(r, *req, *gateway),
    {
        let vars = collect_variables(&req.headers);
        let content_type = lookup_variable(&vars, "content-type");
        let content_length = lookup_variable(&vars, "content-length");
        let query_string = match &req.query {
            Some(q) => q.clone(),
            None => String::new(),
        };
        Environ {
            request_method: req.method.clone(),
            script_name: String::new(),
            path_info: req.path.clone(),
            query_string,
            content_type,
            content_length,
            server_name: gateway.server_name.clone(),
            server_port: gateway.server_port.clone(),
            server_protocol: req.version,
            http_variables: vars,
            wsgi_version: (1, 0),
            wsgi_url_scheme: gateway.url_scheme,
            wsgi_multithread: false,
            wsgi_multiprocess: false,
            wsgi_run_once: false,
        }
    }
}

/// Every header of a request appears in the context built from it, at its
/// place, under its own name and with its value, the value empty where it
/// could not be read.
pub proof fn law_headers_carried(e: Environ, req: Request, g: Gateway, k: int)
    requires
        built_from(e, req, g),
        0 <= k < req.headers@.len(),
    ensures
        e.http_variables@.len() == req.headers@.len(),
        e.http_variables@[k].0@ == req.headers@[k].name@,
        e.http_variables@[k].1@ == text_or_empty(req.headers@[k].value),
{
    assert(pairs_view(e.http_variables@)[k] == header_variables(req.headers@)[k]);
}

/// The first header named `name` in any ASCII case gives its value, verbatim,
/// to the context field looked up under that name.
pub proof fn law_first_header_found(req: Request, name: Seq<char>, k: int)
    requires
        0 <= k < req.headers@.len(),
        eq_ignore_case(req.headers@[k].name@, name),
        forall|l: int| 0 <= l < k ==> !eq_ignore_case(#[trigger] req.headers@[l].name@, name),
    ensures
        lookup(header_variables(req.headers@), name) == text_or_empty(req.headers@[k].value),
{
    let vars = header_variables(req.headers@);
    assert forall|l: int| 0 <= l < k implies !eq_ignore_case(#[trigger] vars[l].0, name) by {
        assert(vars[l].0 == req.headers@[l].name@);
    }
    lemma_lookup_from(vars, name, 0, k);
}

/// A request without a Content-Type header, or without a Content-Length
/// header, in any ASCII case, gives an empty field in its context.
pub proof fn law_absent_content_headers(e: Environ, req: Request, g: Gateway)
    requires
        built_from(e, req, g),
    ensures
        (forall|l: int| 0 <= l < req.headers@.len() ==> !eq_ignore_case(#[trigger] req.headers@[l].name@, "content-type"@))
            ==> e.content_type@ == Seq::<char>::empty(),
        (forall|l: int| 0 <= l < req.headers@.len() ==> !eq_ignore_case(#[trigger] req.headers@[l].name@, "content-length"@))
            ==> e.content_length@ == Seq::<char>::empty(),
{
    let vars = header_variables(req.headers@);
    if forall|l: int| 0 <= l < req.headers@.len() ==> !eq_ignore_case(#[trigger] req.headers@[l].name@, "content-type"@) {
        assert forall|l: int| 0 <= l < vars.len() implies !eq_ignore_case(#[trigger] vars[l].0, "content-type"@) by {
            assert(vars[l].0 == req.headers@[l].name@);
        }
        lemma_lookup_from(vars, "content-type"@, 0, vars.len() as int);
    }
    if forall|l: int| 0 <= l < req.headers@.len() ==> !eq_ignore_case(#[trigger] req.headers@[l].name@, "content-length"@) {
        assert forall|l: int| 0 <= l < vars.len() implies !eq_ignore_case(#[trigger] vars[l].0, "content-length"@) by {
            assert(vars[l].0 == req.headers@[l].name@);
        }
        lemma_lookup_from(vars, "content-length"@, 0, vars.len() as int);
    }
}

} // verus!
