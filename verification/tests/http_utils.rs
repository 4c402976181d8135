use pingoo::host::{Hostname, HOSTNAME_MAX_LENGTH};
use pingoo::services::http_utils::{
    get_host, get_path, new_bad_gateway_error, new_blocked_response, new_http_service,
    new_https_redirect_response, new_internal_error_response_500, new_method_not_allowed_error,
    new_not_found_error, new_redirect_response, try_https_redirect_response, HttpResponse,
    HttpService, RequestHead, ServiceConfig, CACHE_CONTROL_NO_CACHE,
};
use std::sync::Arc;

fn request(path_and_query: &str, host_header: &[u8]) -> RequestHead {
    RequestHead {
        uri_host: None,
        uri_port: None,
        path: path_and_query.split('?').next().unwrap().to_owned(),
        path_and_query: Some(path_and_query.to_owned()),
        host_header: Some(host_header.to_vec()),
    }
}

fn request_with_uri(host: &str, port: Option<&str>) -> RequestHead {
    RequestHead {
        uri_host: Some(host.to_owned()),
        uri_port: port.map(|port| port.to_owned()),
        path: "/".to_owned(),
        path_and_query: Some("/".to_owned()),
        host_header: Some(b"other.example".to_vec()),
    }
}

fn host_of(req: &RequestHead) -> String {
    get_host(req).as_str().to_owned()
}

fn check_plain(response: HttpResponse, status: u16, body: &[u8]) {
    assert_eq!(status, response.status);
    assert_eq!(1, response.headers.len());
    assert_eq!("cache-control", response.headers[0].name);
    assert_eq!(CACHE_CONTROL_NO_CACHE, response.headers[0].value);
    assert_eq!("private, no-cache, no-store, must-revalidate", CACHE_CONTROL_NO_CACHE);
    assert_eq!(body, response.body.as_slice());
}

fn check_redirect(response: HttpResponse, location: &str) {
    assert_eq!(308, response.status);
    assert_eq!(1, response.headers.len());
    assert_eq!("location", response.headers[0].name);
    assert_eq!(location, response.headers[0].value);
    assert!(response.body.is_empty());
}

#[test]
fn errors_are_answered_in_plain_text() {
    check_plain(new_internal_error_response_500(), 500, b"500 Internal Server Error");
    check_plain(new_bad_gateway_error(), 502, b"502 Bad Gateway");
    check_plain(new_not_found_error(), 404, b"404 Not Found.");
    check_plain(new_blocked_response(), 403, b"Permission Denied");
    check_plain(new_method_not_allowed_error(), 405, b"405 Method Not Allowed");
}

#[test]
fn host_comes_from_the_uri_first() {
    assert_eq!("example.com", host_of(&request_with_uri("example.com", None)));
    assert_eq!("example.com:8443", host_of(&request_with_uri("example.com", Some("8443"))));
    assert_eq!("example.com:8443", host_of(&request_with_uri(" example.com\t", Some(" 8443 "))));
}

#[test]
fn host_comes_from_the_header_else() {
    assert_eq!("example.com:80", host_of(&request("/", b"example.com:80")));
    assert_eq!("example.com", host_of(&request("/", b" example.com \t")));
    assert_eq!("", host_of(&request("/", b"ex\xc3\xa4mple.com")));
    assert_eq!("", host_of(&request("/", b"example\x01.com")));
    assert_eq!("", host_of(&request("/", b"example\x7f.com")));
    let mut req = request("/", b"example.com");
    req.host_header = None;
    assert_eq!("", host_of(&req));
}

#[test]
fn uri_and_header_name_the_same_host() {
    assert_eq!(
        host_of(&request_with_uri("example.com", Some("443"))),
        host_of(&request("/", b"example.com:443"))
    );
    assert_eq!(
        host_of(&request_with_uri("example.com", None)),
        host_of(&request("/", b"example.com"))
    );
}

#[test]
fn long_hosts_are_left_out() {
    let fits = "a".repeat(HOSTNAME_MAX_LENGTH);
    let long = "a".repeat(HOSTNAME_MAX_LENGTH + 1);
    assert_eq!(fits, host_of(&request("/", fits.as_bytes())));
    assert_eq!("", host_of(&request("/", long.as_bytes())));
    assert_eq!(fits, host_of(&request_with_uri(&fits, None)));
    assert_eq!("", host_of(&request_with_uri(&long, None)));
    // the port is kept where only the host is too long
    assert_eq!(":443", host_of(&request_with_uri(&fits, Some("443"))));
    let with_port = "a".repeat(HOSTNAME_MAX_LENGTH - 4);
    assert_eq!(
        format!("{}:443", with_port),
        host_of(&request_with_uri(&with_port, Some("443")))
    );
    // no room for the colon behind a port that takes it all
    assert_eq!(fits, host_of(&request_with_uri("h", Some(&fits))));
    assert_eq!("h:", host_of(&request_with_uri("h", Some(&long))));
}

#[test]
fn host_names_count_bytes() {
    let umlauts = "\u{e4}".repeat(HOSTNAME_MAX_LENGTH / 2);
    assert_eq!(umlauts, Hostname::from_text_or_default(&umlauts).as_str());
    let more = format!("{}a", umlauts);
    assert_eq!("", Hostname::from_text_or_default(&more).as_str());
    assert_eq!("", Hostname::default().as_str());
}

#[test]
fn host_names_can_be_copied() {
    let mut host = Hostname::from_text_or_default("b");
    let copy = host.clone();
    host.prepend("a");
    assert_eq!("ab", host.as_str());
    assert_eq!("b", copy.as_str());
}

#[test]
fn white_space_is_that_of_unicode() {
    let spaces: String = (0..=0x10ffffu32)
        .filter_map(char::from_u32)
        .filter(|c| c.is_whitespace())
        .collect();
    let expected = "\u{9}\u{a}\u{b}\u{c}\u{d}\u{20}\u{85}\u{a0}\u{1680}\u{2000}\u{2001}\u{2002}\
                    \u{2003}\u{2004}\u{2005}\u{2006}\u{2007}\u{2008}\u{2009}\u{200a}\u{2028}\
                    \u{2029}\u{202f}\u{205f}\u{3000}";
    assert_eq!(expected, spaces);
    let padded = format!("{}a b{}", spaces, spaces);
    assert_eq!("a b", host_of(&request_with_uri(&padded, None)));
}

#[test]
fn path_loses_its_last_slashes() {
    assert_eq!("/a/b", get_path(&request("/a/b", b"h")));
    assert_eq!("/a/b", get_path(&request("/a/b//", b"h")));
    assert_eq!("//a", get_path(&request("//a/", b"h")));
    assert_eq!("", get_path(&request("/", b"h")));
}

#[test]
fn redirect_keeps_host_and_path() {
    check_redirect(
        new_https_redirect_response(&request("/a/?b=c", b"example.com:8080")),
        "https://example.com:8080/a/?b=c",
    );
    check_redirect(
        try_https_redirect_response(&request_with_uri("example.com", None)).unwrap(),
        "https://example.com/",
    );
    check_redirect(new_redirect_response("https://x/".to_owned()), "https://x/");
}

#[test]
fn redirect_writes_the_path_as_a_uri_does() {
    for (given, written) in [
        ("?b=c", "/?b=c"),
        ("/a#b", "/a"),
        ("/a?b#c", "/a?b"),
        ("#b", "/"),
        ("", "/"),
        ("*", "*"),
    ] {
        check_redirect(
            try_https_redirect_response(&request(given, b"example.com")).unwrap(),
            &format!("https://example.com{}", written),
        );
    }
}

#[test]
fn redirect_needs_a_host_and_a_path() {
    assert!(try_https_redirect_response(&request("/a", b"")).is_none());
    assert!(try_https_redirect_response(&request("/a", b"exa mple.com")).is_none());
    assert!(try_https_redirect_response(&request("a", b"example.com")).is_none());
    assert!(try_https_redirect_response(&request("/a b", b"example.com")).is_none());
    let mut req = request("/a", b"example.com");
    req.path_and_query = None;
    assert!(try_https_redirect_response(&req).is_none());
}

#[test]
fn static_site_comes_before_proxy() {
    let registry = Arc::new(7);
    let both = ServiceConfig { static_site: Some("dir"), http_proxy: Some("upstream") };
    assert!(matches!(
        new_http_service(both, registry.clone()),
        HttpService::StaticSite { config } if config.static_site == Some("dir")
    ));
    let proxy: ServiceConfig<&str, &str> =
        ServiceConfig { static_site: None, http_proxy: Some("upstream") };
    assert!(matches!(
        new_http_service(proxy, registry),
        HttpService::HttpProxy { config, service_registry }
            if config.http_proxy == Some("upstream") && *service_registry == 7
    ));
}
