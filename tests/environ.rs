use gee::cli::{Cli, Command};
use gee::environ::{
    collect_variables, lookup_variable, Environ, Gateway, Header, HttpVersion, Request, UrlScheme,
};
use gee::response::{assemble_response, STATUS_NOT_FOUND, STATUS_OK};

fn header(name: &str, value: &str) -> Header {
    Header { name: name.to_owned(), value: Some(value.to_owned()) }
}

fn request(headers: Vec<Header>) -> Request {
    Request {
        method: "POST".to_owned(),
        path: "/submit".to_owned(),
        query: None,
        headers,
        version: HttpVersion::Http10,
    }
}

fn gateway() -> Gateway {
    Gateway { server_name: "gee.local".to_owned(), server_port: "443".to_owned(), url_scheme: UrlScheme::HTTPS }
}

#[test]
fn headers_carried_into_environ() {
    let req = request(vec![header("X-Foo", "bar"), header("Content-Type", "text/plain")]);
    let environ = Environ::from_request(&req, &gateway());
    assert_eq!(
        environ.http_variables,
        vec![("X-Foo".to_owned(), "bar".to_owned()), ("Content-Type".to_owned(), "text/plain".to_owned())]
    );
    assert_eq!(environ.content_type, "text/plain");
    assert_eq!(environ.content_length, "");
}

#[test]
fn environ_fields_from_request_and_gateway() {
    let req = request(vec![header("content-length", "12")]);
    let environ = Environ::from_request(&req, &gateway());
    assert_eq!(environ.request_method, "POST");
    assert_eq!(environ.script_name, "");
    assert_eq!(environ.path_info, "/submit");
    assert_eq!(environ.query_string, "");
    assert_eq!(environ.content_length, "12");
    assert_eq!(environ.content_type, "");
    assert_eq!(environ.server_name, "gee.local");
    assert_eq!(environ.server_port, "443");
    assert_eq!(environ.server_protocol, HttpVersion::Http10);
    assert_eq!(environ.wsgi_version, (1, 0));
    assert_eq!(environ.wsgi_url_scheme, UrlScheme::HTTPS);
    assert!(!environ.wsgi_multithread);
    assert!(!environ.wsgi_multiprocess);
    assert!(!environ.wsgi_run_once);
}

#[test]
fn unreadable_header_value_is_empty() {
    let req = request(vec![Header { name: "Content-Type".to_owned(), value: None }, header("X-A", "1")]);
    let environ = Environ::from_request(&req, &gateway());
    assert_eq!(environ.content_type, "");
    assert_eq!(environ.http_variables[0], ("Content-Type".to_owned(), String::new()));
}

#[test]
fn first_of_repeated_headers_is_looked_up() {
    let vars = collect_variables(&vec![header("Accept", "a"), header("ACCEPT", "b")]);
    assert_eq!(vars.len(), 2);
    assert_eq!(lookup_variable(&vars, "accept"), "a");
    assert_eq!(lookup_variable(&vars, "missing"), "");
}

#[test]
fn environ_new_defaults() {
    let environ = Environ::new(
        "GET".to_owned(),
        "app".to_owned(),
        "/x".to_owned(),
        "a=1".to_owned(),
        "".to_owned(),
        "".to_owned(),
        "".to_owned(),
        "".to_owned(),
        HttpVersion::Http11,
    );
    assert_eq!(environ.script_name, "app");
    assert_eq!(environ.query_string, "a=1");
    assert!(environ.http_variables.is_empty());
    assert_eq!(environ.wsgi_url_scheme, UrlScheme::HTTPS);
    assert_eq!(environ.wsgi_version, (1, 0));
}

#[test]
fn version_text() {
    assert_eq!(HttpVersion::Http11.as_str(), "HTTP/1.1");
    assert_eq!(HttpVersion::Http10.as_str(), "HTTP/1.0");
    assert_eq!(HttpVersion::Http2.as_str(), "HTTP/2.0");
}

#[test]
fn response_for_bytes_and_absence() {
    let ok = assemble_response(Some(b"hello".to_vec()));
    assert_eq!(ok.status, 200);
    assert_eq!(ok.status, STATUS_OK);
    assert_eq!(ok.body, b"hello".to_vec());
    let missing = assemble_response(None);
    assert_eq!(missing.status, 404);
    assert_eq!(missing.status, STATUS_NOT_FOUND);
    assert!(missing.body.is_empty());
    let empty = assemble_response(Some(vec![]));
    assert_eq!(empty.status, 200);
    assert!(empty.body.is_empty());
}

#[test]
fn cli_defaults_to_serving() {
    assert_eq!(Cli { command: None }.selected(), Command::Serve);
    assert_eq!(Cli { command: Some(Command::Init) }.selected(), Command::Init);
    assert_eq!(Cli { command: Some(Command::Validate) }.selected(), Command::Validate);
}
