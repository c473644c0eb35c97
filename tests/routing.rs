use gee::routes::{find_route, resolve_path};
use gee::table::{ApplicationRoute, ConfigurationError, RouteMatch, RouteTable};

fn routes(pairs: &[(&str, &str)]) -> Vec<(String, String)> {
    pairs.iter().map(|(p, r)| (p.to_string(), r.to_string())).collect()
}

fn app() -> Option<ApplicationRoute> {
    Some(ApplicationRoute { module: "./app/app.py".to_owned(), callable: "application".to_owned() })
}

#[test]
fn first_registered_prefix_wins() {
    let table = RouteTable::new(routes(&[("/static", "./static"), ("/static/img", "./images")]), None, vec![])
        .unwrap();
    assert_eq!(table.classify("/static/img/a.png"), RouteMatch::Static("./static/img/a.png".to_owned()));

    let table = RouteTable::new(routes(&[("/static/img", "./images"), ("/static", "./static")]), None, vec![])
        .unwrap();
    assert_eq!(table.classify("/static/img/a.png"), RouteMatch::Static("./images/a.png".to_owned()));
    assert_eq!(table.classify("/static/b.css"), RouteMatch::Static("./static/b.css".to_owned()));
}

#[test]
fn unmatched_path_goes_to_application_or_nowhere() {
    let with_app = RouteTable::new(routes(&[("/static", "./static/")]), app(), vec![]).unwrap();
    assert_eq!(with_app.classify("/app/profile"), RouteMatch::Application);

    let without_app = RouteTable::new(routes(&[("/static", "./static/")]), None, vec![]).unwrap();
    assert_eq!(without_app.classify("/missing"), RouteMatch::NotFound);

    let empty = RouteTable::new(vec![], None, vec![]).unwrap();
    assert_eq!(empty.classify("/"), RouteMatch::NotFound);
}

#[test]
fn prefix_match_is_by_characters_not_segments() {
    let table = RouteTable::new(routes(&[("/static", "./static")]), None, vec![]).unwrap();
    assert_eq!(table.classify("/static2/x"), RouteMatch::Static("./static2/x".to_owned()));
}

#[test]
fn resolve_file_below_prefix() {
    assert_eq!(resolve_path("/static", "./static/", "/static/a.txt"), "./static/a.txt");
    assert_eq!(resolve_path("/static/", "./static/", "/static/a.txt"), "./static/a.txt");
    assert_eq!(resolve_path("/static", "./static", "/static/a.txt"), "./static/a.txt");
}

#[test]
fn resolve_directory_gets_default_document() {
    assert_eq!(resolve_path("/static", "./static/", "/static/"), "./static/index.html");
    assert_eq!(resolve_path("/static", "./static/", "/static/docs/"), "./static/docs/index.html");
    assert_eq!(resolve_path("/static", "./static", "/static/"), "./static/index.html");
    assert_eq!(resolve_path("/static/", "./static/", "/static/"), "./static/index.html");
}

#[test]
fn resolve_exact_prefix_follows_the_root() {
    assert_eq!(resolve_path("/static", "./static/", "/static"), "./static/index.html");
    assert_eq!(resolve_path("/static", "./static", "/static"), "./static");
    assert_eq!(resolve_path("", "", ""), "");
    assert_eq!(resolve_path("/", "/", "//x"), "/x");
}

#[test]
fn find_route_gives_first_index() {
    let rs = routes(&[("/a", "1"), ("/", "2"), ("/a/b", "3")]);
    assert_eq!(find_route(&rs, "/a/b/c"), Some(0));
    assert_eq!(find_route(&rs, "/x"), Some(1));
    assert_eq!(find_route(&rs, "x"), None);
}

#[test]
fn conflicting_prefix_is_rejected() {
    let err = RouteTable::new(routes(&[("/static", "./a/"), ("/static", "./b/")]), None, vec![]).unwrap_err();
    assert_eq!(err, ConfigurationError::ConflictingPrefix("/static".to_owned()));
}

#[test]
fn repeated_prefix_with_same_root_is_kept_once() {
    let table = RouteTable::new(
        routes(&[("/static", "./a/"), ("/img", "./i/"), ("/static", "./a/")]),
        None,
        vec![],
    )
    .unwrap();
    assert_eq!(table.static_routes(), &routes(&[("/static", "./a/"), ("/img", "./i/")]));
}

#[test]
fn catch_all_prefix_shadows_application() {
    let err = RouteTable::new(routes(&[("/static", "./s/"), ("", "./")]), app(), vec![]).unwrap_err();
    assert_eq!(err, ConfigurationError::ApplicationShadowed("".to_owned()));
    let ok = RouteTable::new(routes(&[("/", "./")]), None, vec![]).unwrap();
    assert_eq!(ok.classify("/x.html"), RouteMatch::Static("./x.html".to_owned()));
}

#[test]
fn is_static_request_on_table() {
    let table = RouteTable::new(routes(&[("/static", "./static/")]), app(), vec![]).unwrap();
    assert!(table.is_static_request("/static/x"));
    assert!(!table.is_static_request("/stat"));
}
