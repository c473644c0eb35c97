use gee::glob::matches_glob;
use gee::table::RouteTable;

#[test]
fn glob_literals_and_wildcards() {
    assert!(matches_glob("", ""));
    assert!(!matches_glob("", "a"));
    assert!(matches_glob("*", ""));
    assert!(matches_glob("*", "./static/a/b.txt"));
    assert!(matches_glob("*.secret", "./static/key.secret"));
    assert!(!matches_glob("*.secret", "./static/key.secret.txt"));
    assert!(matches_glob("./static/?.txt", "./static/a.txt"));
    assert!(!matches_glob("./static/?.txt", "./static/ab.txt"));
    assert!(matches_glob("*/.env", "./app/.env"));
    assert!(matches_glob("a*b*c", "aXXbYYc"));
    assert!(!matches_glob("a*b*c", "aXXbYY"));
    assert!(matches_glob("**", "x"));
    assert!(!matches_glob("abc", "abd"));
}

#[test]
fn table_ignores_matching_files() {
    let table = RouteTable::new(
        vec![("/static".to_owned(), "./static/".to_owned())],
        None,
        vec!["*.secret".to_owned(), "*/.env".to_owned()],
    )
    .unwrap();
    assert!(table.is_ignored("./static/key.secret"));
    assert!(table.is_ignored("./static/.env"));
    assert!(!table.is_ignored("./static/index.html"));

    let open = RouteTable::new(vec![], None, vec![]).unwrap();
    assert!(!open.is_ignored("./static/key.secret"));
}
