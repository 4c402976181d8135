use crate::host::{fit, prepended, Hostname, HOSTNAME_MAX_LENGTH};
use crate::ip::SocketAddr;
use crate::text::{
    byte_len, law_byte_len_adds_up, lemma_byte_len_concat, lemma_trimmed_is_same, lemma_without_trailing, trim,
    trim_end_matches, trimmed, without_trailing,
};
use std::sync::Arc;
use vstd::prelude::*;
use vstd::utf8::encode_utf8;

verus! {

/// The value of Cache-Control for what may not be stored.
pub const CACHE_CONTROL_NO_CACHE: &'static str = "private, no-cache, no-store, must-revalidate";

/// The value of Cache-Control for what must be asked for again each time.
pub const CACHE_CONTROL_DYNAMIC: &'static str = "public, no-cache, must-revalidate";

/// How many bytes a user agent may take.
pub const USER_AGENT_MAX_LENGTH: usize = 256;

/// What is known of a request before its headers are read.
#[derive(Clone, Debug)]
pub struct RequestContext {
    pub client_address: SocketAddr,
    pub server_address: SocketAddr,
    pub asn: u32,
    pub country: String,
    pub geoip_enabled: bool,
    pub tls: bool,
    pub host: Hostname,
}

/// The context of a request as it travels with the request.
#[derive(Clone)]
pub struct RequestExtensionContext(pub Arc<RequestContext>);

/// The body of an answer that says nothing.
#[derive(Debug)]
pub struct EmptyJsonBody {}

/// The parts of a request that say which host and which path it is for.
#[derive(Debug)]
pub struct RequestHead {
    /// The host of the URI, without its port.
    pub uri_host: Option<String>,
    /// The port of the URI.
    pub uri_port: Option<String>,
    /// The path of the URI.
    pub path: String,
    /// The path and the query of the URI, where it has a path.
    pub path_and_query: Option<String>,
    /// The bytes of the Host header.
    pub host_header: Option<Vec<u8>>,
}

/// One header of an answer.
#[derive(Debug)]
pub struct Header {
    pub name: String,
    pub value: String,
}

/// An answer to a request.
#[derive(Debug)]
pub struct HttpResponse {
    pub status: u16,
    pub headers: Vec<Header>,
    pub body: Vec<u8>,
}

/// What an answer says.
#[verifier::ext_equal]
pub struct ResponseModel {
    pub status: u16,
    pub headers: Seq<(Seq<char>, Seq<char>)>,
    pub body: Seq<u8>,
}

impl View for HttpResponse {
    type V = ResponseModel;

    open spec fn view(&self) -> ResponseModel {
        ResponseModel {
            status: self.status,
            headers: self.headers@.map_values(|h: Header| (h.name@, h.value@)),
            body: self.body@,
        }
    }
}

/// A short answer in plain text that may not be stored.
pub open spec fn plain_response(status: u16, message: Seq<char>) -> ResponseModel {
    ResponseModel {
        status,
        headers: seq![("cache-control"@, CACHE_CONTROL_NO_CACHE@)],
        body: encode_utf8(message),
    }
}

/// An answer that sends the client to `location` for good.
pub open spec fn redirect_response(location: Seq<char>) -> ResponseModel {
    ResponseModel { status: 308, headers: seq![("location"@, location)], body: Seq::empty() }
}

fn new_plain_response(status: u16, message: &str) -> (response: HttpResponse)
    ensures
        response@ == plain_response(status, message@),
        response.status == status,
        response.headers@.len() == 1,
        response.headers@[0].name@ == "cache-control"@,
        response.headers@[0].value@ == "private, no-cache, no-store, must-revalidate"@,
        response.body@ == encode_utf8(message@),
{
    let mut headers: Vec<Header> = Vec::new();
    headers.push(
        Header {
            name: "cache-control".to_owned(),
            value: CACHE_CONTROL_NO_CACHE.to_owned(),
        },
    );
    let response = HttpResponse {
        status,
        headers,
        body: vstd::slice::slice_to_vec(message.as_bytes()),
    };
    assert(response@.headers =~= plain_response(status, message@).headers);
    response
}

/// The answer to a request that failed for a reason of ours.
pub fn new_internal_error_response_500() -> (response: HttpResponse)
    ensures
        response@ == plain_response(500, "500 Internal Server Error"@),
        response.status == 500,
        response.headers@.len() == 1,
        response.headers@[0].name@ == "cache-control"@,
        response.headers@[0].value@ == "private, no-cache, no-store, must-revalidate"@,
        response.body@ == encode_utf8("500 Internal Server Error"@),
{
    new_plain_response(500, "500 Internal Server Error")
}

/// The answer to a request that no upstream answered.
pub fn new_bad_gateway_error() -> (response: HttpResponse)
    ensures
        response@ == plain_response(502, "502 Bad Gateway"@),
        response.status == 502,
        response.headers@.len() == 1,
        response.headers@[0].name@ == "cache-control"@,
        response.headers@[0].value@ == "private, no-cache, no-store, must-revalidate"@,
        response.body@ == encode_utf8("502 Bad Gateway"@),
{
    new_plain_response(502, "502 Bad Gateway")
}

/// The answer to a request for something that is not there.
pub fn new_not_found_error() -> (response: HttpResponse)
    ensures
        response@ == plain_response(404, "404 Not Found."@),
        response.status == 404,
        response.headers@.len() == 1,
        response.headers@[0].name@ == "cache-control"@,
        response.headers@[0].value@ == "private, no-cache, no-store, must-revalidate"@,
        response.body@ == encode_utf8("404 Not Found."@),
{
    new_plain_response(404, "404 Not Found.")
}

/// The answer to a request that a rule blocks.
pub fn new_blocked_response() -> (response: HttpResponse)
    ensures
        response@ == plain_response(403, "Permission Denied"@),
        response.status == 403,
        response.headers@.len() == 1,
        response.headers@[0].name@ == "cache-control"@,
        response.headers@[0].value@ == "private, no-cache, no-store, must-revalidate"@,
        response.body@ == encode_utf8("Permission Denied"@),
{
    new_plain_response(403, "Permission Denied")
}

/// The answer to a request with a method that is not served.
pub fn new_method_not_allowed_error() -> (response: HttpResponse)
    ensures
        response@ == plain_response(405, "405 Method Not Allowed"@),
        response.status == 405,
        response.headers@.len() == 1,
        response.headers@[0].name@ == "cache-control"@,
        response.headers@[0].value@ == "private, no-cache, no-store, must-revalidate"@,
        response.body@ == encode_utf8("405 Method Not Allowed"@),
{
    new_plain_response(405, "405 Method Not Allowed")
}

/// Whether a header value may hold `byte` and still be text.
pub open spec fn is_visible_ascii(byte: u8) -> bool {
    32 <= byte < 127 || byte == 9
}

/// The text of a header value, or none where it holds anything but visible ASCII characters.
pub open spec fn header_text(value: Seq<u8>) -> Option<Seq<char>> {
    if forall|i: int| 0 <= i < value.len() ==> is_visible_ascii(#[trigger] value[i]) {
        Some(value.map_values(|byte: u8| byte as char))
    } else {
        None
    }
}

/// Calls `http::HeaderValue::to_str` on the header value with the given bytes. It gives the text
/// where each byte is a visible ASCII character, a space or a tab, and fails otherwise. Bytes that
/// `http::HeaderValue::from_bytes` refuses are among those that fail.
#[verifier::external_body]
fn header_to_str(value: &[u8]) -> (text: Option<String>)
    ensures
        text is Some <==> header_text(value@) is Some,
        text matches Some(t) ==> Some(t@) == header_text(value@),
{
    let value = http::HeaderValue::from_bytes(value).ok()?;
    value.to_str().ok().map(|text| text.to_owned())
}

impl RequestHead {
    /// The host that the request is for, with its port where one is given: that of the URI, else
    /// that of the Host header.
    pub open spec fn host(&self) -> Seq<char> {
        match (self.uri_host, self.uri_port, self.host_header) {
            (Some(host), Some(port), _) => prepended(
                trimmed(host@),
                prepended(seq![':'], fit(trimmed(port@))),
            ),
            (Some(host), None, _) => fit(trimmed(host@)),
            (None, _, Some(value)) => match header_text(value@) {
                Some(text) => fit(trimmed(text)),
                None => Seq::empty(),
            },
            (None, _, None) => Seq::empty(),
        }
    }
}

/// The host that the request is for. The URI has it in HTTP/2 requests, without the port that the
/// Host header of HTTP/1 requests has, so the port is put behind it.
pub fn get_host(req: &RequestHead) -> (host: Hostname)
    ensures
        host@ == req.host(),
{
    if let Some(just_host) = &req.uri_host {
        if let Some(port) = &req.uri_port {
            let mut host = Hostname::from_text_or_default(trim(port.as_str()));
            proof {
                reveal_strlit(":");
                assert(":"@ =~= seq![':']);
            }
            host.prepend(":");
            host.prepend(trim(just_host.as_str()));
            return host;
        }
        return Hostname::from_text_or_default(trim(just_host.as_str()));
    }
    if let Some(value) = &req.host_header {
        return match header_to_str(value.as_slice()) {
            Some(text) => Hostname::from_text_or_default(trim(text.as_str())),
            None => Hostname::default(),
        };
    }
    Hostname::default()
}

/// The path of the request without the slashes at its end.
pub fn get_path(req: &RequestHead) -> (path: &str)
    ensures
        path@ == without_trailing(req.path@, '/'),
{
    trim_end_matches(req.path.as_str(), '/')
}

/// `text` up to the first `#`.
pub open spec fn before_fragment(text: Seq<char>) -> Seq<char>
    decreases text.len(),
{
    if text.len() == 0 || text[0] == '#' {
        Seq::empty()
    } else {
        seq![text[0]] + before_fragment(text.drop_first())
    }
}

/// A path and a query as they stand in a URI: without a fragment, and with the slash that a path
/// starts with where there is no path.
pub open spec fn written_path(path_and_query: Seq<char>) -> Seq<char> {
    let text = before_fragment(path_and_query);
    if text.len() == 0 || text[0] == '?' {
        seq!['/'] + text
    } else {
        text
    }
}

/// The URI that `http::uri::Builder` makes of a scheme, an authority, and a path and query, or none
/// where it takes one of them for malformed.
pub uninterp spec fn built_uri(
    scheme: Seq<char>,
    authority: Seq<char>,
    path_and_query: Seq<char>,
) -> Option<Seq<char>>;

/// Calls `http::uri::Builder::build` with a scheme, an authority, and a path and query, and writes
/// the URI out. What the parts may hold is not stated, only that the same parts are always accepted
/// or always refused. What is accepted is written as it was given, but for the path, which loses a
/// fragment and starts with a slash.
#[verifier::external_body]
fn build_uri(scheme: &str, authority: &str, path_and_query: &str) -> (uri: Option<String>)
    ensures
        uri is Some <==> built_uri(scheme@, authority@, path_and_query@) is Some,
        uri matches Some(text) ==> Some(text@) == built_uri(scheme@, authority@, path_and_query@),
        uri matches Some(text) ==> text@ == scheme@ + "://"@ + authority@ + written_path(
            path_and_query@,
        ),
{
    let builder = http::Uri::builder().scheme(scheme).authority(authority);
    builder.path_and_query(path_and_query).build().ok().map(|uri| uri.to_string())
}

impl RequestHead {
    /// Whether the request has a path, and its host and path make up a URI.
    pub open spec fn has_https_uri(&self) -> bool {
        self.path_and_query matches Some(path_and_query) && built_uri(
            "https"@,
            self.host(),
            path_and_query@,
        ) is Some
    }

    /// The same place as the request asks for, under https.
    pub open spec fn https_uri(&self) -> Seq<char>
        recommends
            self.has_https_uri(),
    {
        "https"@ + "://"@ + self.host() + written_path(self.path_and_query->0@)
    }
}

/// The answer that sends the client to `location` for good.
pub fn new_redirect_response(location: String) -> (response: HttpResponse)
    ensures
        response@ == redirect_response(location@),
        response.status == 308,
        response.headers@.len() == 1,
        response.headers@[0].name@ == "location"@,
        response.headers@[0].value@ == location@,
        response.body@.len() == 0,
{
    let mut headers: Vec<Header> = Vec::new();
    headers.push(Header { name: "location".to_owned(), value: location });
    let response = HttpResponse { status: 308, headers, body: Vec::new() };
    assert(response@ =~= redirect_response(location@));
    response
}

/// The answer that sends the client to the same host and path under https.
pub fn new_https_redirect_response(req: &RequestHead) -> (response: HttpResponse)
    requires
        req.has_https_uri(),
    ensures
        response@ == redirect_response(req.https_uri()),
        response@.status == 308,
        response@.headers == seq![
            ("location"@, "https"@ + "://"@ + req.host() + written_path(req.path_and_query->0@)),
        ],
        response@.body.len() == 0,
{
    let location = https_location(req).unwrap();
    new_redirect_response(location)
}

/// The answer that sends the client to the same host and path under https, or none where the
/// request has no path or they make up no URI.
pub fn try_https_redirect_response(req: &RequestHead) -> (response: Option<HttpResponse>)
    ensures
        response is Some <==> req.has_https_uri(),
        response matches Some(r) ==> r@ == redirect_response(req.https_uri()),
        response is Some <==> (req.path_and_query matches Some(path_and_query) && built_uri(
            "https"@,
            req.host(),
            path_and_query@,
        ) is Some),
        response matches Some(r) ==> r@.headers == seq![
            ("location"@, "https"@ + "://"@ + req.host() + written_path(req.path_and_query->0@)),
        ],
{
    if https_location(req).is_some() {
        Some(new_https_redirect_response(req))
    } else {
        None
    }
}

fn https_location(req: &RequestHead) -> (location: Option<String>)
    ensures
        location is Some <==> req.has_https_uri(),
        location matches Some(uri) ==> uri@ == req.https_uri(),
        location is Some <==> (req.path_and_query matches Some(path_and_query) && built_uri(
            "https"@,
            req.host(),
            path_and_query@,
        ) is Some),
        location matches Some(uri) ==> Some(uri@) == built_uri(
            "https"@,
            req.host(),
            req.path_and_query->0@,
        ),
{
    let authority = get_host(req);
    match &req.path_and_query {
        Some(path_and_query) => build_uri("https", authority.as_str(), path_and_query.as_str()),
        None => None,
    }
}

/// What a service is configured with. A service answers from a directory, or it hands requests on.
#[derive(Debug)]
pub struct ServiceConfig<S, P> {
    pub static_site: Option<S>,
    pub http_proxy: Option<P>,
}

/// A service that answers HTTP requests.
#[derive(Debug)]
pub enum HttpService<S, P, R> {
    /// Answers from a directory.
    StaticSite { config: ServiceConfig<S, P> },
    /// Hands requests on to the upstreams in the registry.
    HttpProxy { config: ServiceConfig<S, P>, service_registry: Arc<R> },
}

/// The service that `config` describes. A static site comes first where both are configured.
pub fn new_http_service<S, P, R>(
    config: ServiceConfig<S, P>,
    service_registry: Arc<R>,
) -> (service: HttpService<S, P, R>)
    requires
        config.static_site is Some || config.http_proxy is Some,
    ensures
        service == if config.static_site is Some {
            HttpService::StaticSite { config }
        } else {
            HttpService::HttpProxy { config, service_registry }
        },
{
    if config.static_site.is_some() {
        HttpService::StaticSite { config }
    } else {
        HttpService::HttpProxy { config, service_registry }
    }
}

/// An answer says what it holds: its status, its headers in their order, and its body.
pub proof fn law_response_says_what_it_holds(response: HttpResponse)
    ensures
        response@.status == response.status,
        response@.body == response.body@,
        response@.headers.len() == response.headers@.len(),
        forall|i: int|
            0 <= i < response.headers@.len() ==> (#[trigger] response@.headers[i]).0
                == response.headers@[i].name@ && response@.headers[i].1
                == response.headers@[i].value@,
{
}

/// A short answer has the status and the text it is made with, whatever they are, and says only that
/// it may not be stored.
pub proof fn law_plain_response_is_as_made(status: u16, message: Seq<char>)
    ensures
        plain_response(status, message).status == status,
        plain_response(status, message).body == encode_utf8(message),
        plain_response(status, message).headers.len() == 1,
        plain_response(status, message).headers[0].0 == "cache-control"@,
        plain_response(status, message).headers[0].1
            == "private, no-cache, no-store, must-revalidate"@,
{
}

/// A redirect is for good, names the place it leads to and nothing else, and has no body.
pub proof fn law_redirect_leads_to_its_location(location: Seq<char>)
    ensures
        redirect_response(location).status == 308,
        redirect_response(location).headers.len() == 1,
        redirect_response(location).headers[0].0 == "location"@,
        redirect_response(location).headers[0].1 == location,
        redirect_response(location).body.len() == 0,
{
}

/// A header value is text where each of its bytes is a tab or a character from the space to the
/// tilde, and the text has those very characters.
pub proof fn law_header_text_is_byte_by_byte(value: Seq<u8>)
    ensures
        header_text(value) is Some <==> forall|i: int|
            0 <= i < value.len() ==> #[trigger] value[i] == 9 || 32 <= value[i] <= 126,
        header_text(value) matches Some(text) ==> text.len() == value.len() && forall|i: int|
            0 <= i < value.len() ==> (#[trigger] text[i]) as int == value[i],
{
    if forall|i: int| 0 <= i < value.len() ==> #[trigger] value[i] == 9 || 32 <= value[i] <= 126 {
        assert forall|i: int| 0 <= i < value.len() implies is_visible_ascii(#[trigger] value[i]) by {
        }
    }
}

/// A host in the URI comes first: what the Host header says, and which path is asked for, plays no
/// part. Without one the Host header alone decides, and without both there is no host.
pub proof fn law_uri_names_the_host_first(req: RequestHead, other: RequestHead)
    ensures
        req.uri_host is Some && other.uri_host == req.uri_host && other.uri_port == req.uri_port
            ==> other.host() == req.host(),
        req.uri_host is None && other.uri_host is None && other.host_header == req.host_header
            ==> other.host() == req.host(),
        req.uri_host is None && req.host_header is None ==> req.host().len() == 0,
{
}

/// The host of a URI with a port is both, with a colon between them and no white space around
/// either, where they fit into 256 bytes. Where only the port and the colon fit, those are left, and
/// then the port alone. A port that does not fit is left out before the rest is put together.
pub proof fn law_host_of_uri_with_port(req: RequestHead, host: String, port: String)
    requires
        req.uri_host == Some(host),
        req.uri_port == Some(port),
    ensures
        ({
            let (h, p) = (trimmed(host@), trimmed(port@));
            let (h_len, p_len) = (byte_len(h), byte_len(p));
            &&& h_len + 1 + p_len <= 256 ==> req.host() == h + seq![':'] + p
            &&& h_len + 1 + p_len > 256 && 1 + p_len <= 256 ==> req.host() == seq![':'] + p
            &&& p_len == 256 ==> req.host() == p
            &&& p_len > 256 && h_len + 1 <= 256 ==> req.host() == h + seq![':']
            &&& p_len > 256 && h_len + 1 > 256 ==> req.host() == seq![':']
        }),
{
    let (h, p) = (trimmed(host@), trimmed(port@));
    law_byte_len_adds_up(seq![':'], p, ':');
    law_byte_len_adds_up(seq![':'], Seq::empty(), ':');
    assert(seq![':'] + Seq::<char>::empty() =~= seq![':']);
    assert(h + (seq![':'] + p) =~= h + seq![':'] + p);
    if byte_len(h) == 0 {
        lemma_no_bytes_is_empty(h);
        assert(h + p =~= p);
    }
}

proof fn lemma_no_bytes_is_empty(text: Seq<char>)
    requires
        byte_len(text) == 0,
    ensures
        text.len() == 0,
{
    if text.len() > 0 {
        law_byte_len_adds_up(seq![text[0]], text.drop_first(), text[0]);
        assert(seq![text[0]] + text.drop_first() =~= text);
    }
}

/// The host of a URI without a port, or of a Host header that is text, is kept without the white
/// space around it where it fits into 256 bytes, else there is none. A Host header that is no text
/// names no host.
pub proof fn law_host_without_port(req: RequestHead, host: Seq<char>, value: Vec<u8>)
    requires
        (req.uri_host matches Some(given) && given@ == host && req.uri_port is None) || (
        req.uri_host is None && req.host_header == Some(value) && header_text(value@) == Some(host))
            || (req.uri_host is None && req.host_header == Some(value) && header_text(value@) is None
            && host.len() == 0),
    ensures
        byte_len(trimmed(host)) <= 256 ==> req.host() == trimmed(host),
        byte_len(trimmed(host)) > 256 ==> req.host().len() == 0,
{
    if host.len() == 0 {
        assert(trimmed(host) =~= Seq::empty());
    }
}

/// A request is sent on exactly where it has a path and `http` makes a URI of its host and that
/// path. Whether the host comes from the URI or from a header, and whether it has a port, plays no
/// part of its own.
pub proof fn law_redirected_where_a_uri_is_built(req: RequestHead, path_and_query: String)
    ensures
        req.path_and_query == Some(path_and_query) ==> (req.has_https_uri() <==> built_uri(
            "https"@,
            req.host(),
            path_and_query@,
        ) is Some),
        req.path_and_query is None ==> !req.has_https_uri(),
        req.path_and_query == Some(path_and_query) ==> req.https_uri() == "https"@ + "://"@
            + req.host() + written_path(path_and_query@),
{
}

/// Two requests for the same host and the same path are answered alike: both are sent on, and to the
/// same place, or neither is.
pub proof fn law_same_host_and_path_same_redirect(
    first: RequestHead,
    second: RequestHead,
    of_first: Option<HttpResponse>,
    of_second: Option<HttpResponse>,
    path_and_query: Seq<char>,
)
    requires
        first.host() == second.host(),
        first.path_and_query matches Some(path) && path@ == path_and_query,
        second.path_and_query matches Some(path) && path@ == path_and_query,
        call_ensures(try_https_redirect_response, (&first,), of_first),
        call_ensures(try_https_redirect_response, (&second,), of_second),
    ensures
        first.has_https_uri() == second.has_https_uri(),
        of_first is Some <==> of_second is Some,
        of_first is Some && of_second is Some ==> of_first->0@ == of_second->0@,
{
}

/// The part of a text before its fragment is what stands before the first `#`, or all of it where it
/// has none.
pub proof fn law_fragment_starts_at_the_first_hash(text: Seq<char>)
    ensures
        before_fragment(text).is_prefix_of(text),
        !before_fragment(text).contains('#'),
        before_fragment(text).len() < text.len() ==> text[before_fragment(text).len() as int] == '#',
    decreases text.len(),
{
    if text.len() > 0 && text[0] != '#' {
        let rest = text.drop_first();
        law_fragment_starts_at_the_first_hash(rest);
        let inner = before_fragment(rest);
        let front = before_fragment(text);
        assert(front =~= seq![text[0]] + inner);
        assert forall|i: int| 0 <= i < front.len() implies front[i] == text[i] && front[i]
            != '#' by {
            if i > 0 {
                assert(front[i] == inner[i - 1]);
                assert(inner[i - 1] == rest[i - 1]);
                assert(inner.contains(inner[i - 1]));
            }
        }
        if front.len() < text.len() {
            assert(rest[inner.len() as int] == text[front.len() as int]);
        }
    }
}

/// A path in a URI is never empty and never starts with its query: a slash stands there in place of
/// a path that is missing. Any other path is left as it is up to its fragment.
pub proof fn law_written_path_has_a_slash(path_and_query: Seq<char>)
    ensures
        written_path(path_and_query).len() > 0,
        written_path(path_and_query)[0] != '?',
        before_fragment(path_and_query).is_suffix_of(written_path(path_and_query)),
        before_fragment(path_and_query).len() > 0 && path_and_query[0] != '?' ==> written_path(
            path_and_query,
        ) == before_fragment(path_and_query),
        before_fragment(path_and_query).len() == 0 || path_and_query[0] == '?' ==> written_path(
            path_and_query,
        ) == seq!['/'] + before_fragment(path_and_query),
{
    let text = before_fragment(path_and_query);
    let written = written_path(path_and_query);
    law_fragment_starts_at_the_first_hash(path_and_query);
    assert(text.len() > 0 ==> text[0] == path_and_query[0]);
    assert(written.subrange(written.len() - text.len(), written.len() as int) =~= text);
}

/// The host of a request takes no more bytes than a host name may.
pub proof fn law_host_fits(req: RequestHead)
    ensures
        byte_len(req.host()) <= HOSTNAME_MAX_LENGTH,
{
    if let (Some(host), Some(port)) = (req.uri_host, req.uri_port) {
        let with_colon = prepended(seq![':'], fit(trimmed(port@)));
        lemma_byte_len_concat(seq![':'], fit(trimmed(port@)));
        lemma_byte_len_concat(trimmed(host@), with_colon);
    }
}

/// A host with a port is the same host whether the URI or the Host header names it, if there is
/// room for both.
pub proof fn law_uri_and_header_name_the_same_host(
    with_uri: RequestHead,
    with_header: RequestHead,
    host: String,
    port: String,
    value: Vec<u8>,
)
    requires
        with_uri.uri_host == Some(host),
        with_uri.uri_port == Some(port),
        with_header.uri_host is None,
        with_header.host_header == Some(value),
        header_text(value@) == Some(host@ + seq![':'] + port@),
        trimmed(host@) == host@,
        trimmed(port@) == port@,
        byte_len(host@ + seq![':'] + port@) <= HOSTNAME_MAX_LENGTH,
    ensures
        with_uri.host() == host@ + seq![':'] + port@,
        with_header.host() == with_uri.host(),
{
    let colon_port = seq![':'] + port@;
    let all = host@ + seq![':'] + port@;
    assert(all =~= host@ + colon_port);
    lemma_byte_len_concat(seq![':'], port@);
    lemma_byte_len_concat(host@, colon_port);
    lemma_trimmed_is_same(host@);
    lemma_trimmed_is_same(port@);
    lemma_trimmed_is_same(all);
    assert(host@.len() > 0 ==> all[0] == host@[0]);
    assert(port@.len() > 0 ==> all.last() == port@.last());
}

/// A host without a port is the same host whether the URI or the Host header names it.
pub proof fn law_uri_and_header_name_the_same_host_without_port(
    with_uri: RequestHead,
    with_header: RequestHead,
    host: String,
    value: Vec<u8>,
)
    requires
        with_uri.uri_host == Some(host),
        with_uri.uri_port is None,
        with_header.uri_host is None,
        with_header.host_header == Some(value),
        header_text(value@) == Some(host@),
    ensures
        with_header.host() == with_uri.host(),
        trimmed(host@) == host@ && byte_len(host@) <= HOSTNAME_MAX_LENGTH ==> with_uri.host()
            == host@,
{
}

/// A request whose path starts with a slash and has no fragment is sent to that very path.
pub proof fn law_redirect_keeps_path(req: RequestHead, path_and_query: String)
    requires
        req.path_and_query == Some(path_and_query),
        path_and_query@.len() > 0,
        path_and_query@[0] == '/',
        !path_and_query@.contains('#'),
    ensures
        req.https_uri() == "https"@ + "://"@ + req.host() + path_and_query@,
{
    lemma_no_fragment(path_and_query@);
}

proof fn lemma_no_fragment(text: Seq<char>)
    requires
        !text.contains('#'),
    ensures
        before_fragment(text) == text,
    decreases text.len(),
{
    if text.len() > 0 {
        let rest = text.drop_first();
        assert(text.contains(text[0]));
        assert forall|i: int| 0 <= i < rest.len() implies rest[i] != '#' by {
            assert(text.contains(text[i + 1]));
        }
        lemma_no_fragment(rest);
        assert(seq![text[0]] + rest =~= text);
    } else {
        assert(text =~= Seq::empty());
    }
}

/// The path of a request is what its URI says up to the slashes at the end: what is cut off is
/// slashes only, and what is left does not end in one.
pub proof fn law_path_has_no_trailing_slash(req: RequestHead)
    ensures
        ({
            let path = without_trailing(req.path@, '/');
            &&& path.is_prefix_of(req.path@)
            &&& path.len() > 0 ==> path.last() != '/'
            &&& forall|i: int| path.len() <= i < req.path@.len() ==> req.path@[i] == '/'
        }),
{
    lemma_without_trailing(req.path@, '/');
}

} // verus!
