use gee::config::{Config, IpAddress, SocketAddress};
use gee::table::ConfigurationError;

fn full_config(address: [u8; 4], port: u16, root_dir: &str) -> Config {
    Config {
        address: IpAddress::from_octets(address),
        port,
        root_dir: root_dir.to_string(),
        static_routes: None,
        ignored_files: None,
        application: None,
        application_name: None,
    }
}

#[test]
fn test_new() {
    let expected = Config {
        address: IpAddress::from_octets([127, 0, 0, 1]),
        port: 8080,
        root_dir: ".".to_string(),
        static_routes: None,
        ignored_files: None,
        application: None,
        application_name: None,
    };

    let actual = Config::new(8080, ".".to_string());

    assert_eq!(expected, actual);
}

#[test]
fn test_new_default() {
    let expected = Config {
        address: IpAddress::from_octets([127, 0, 0, 1]),
        port: 8080,
        root_dir: ".".to_string(),
        static_routes: None,
        ignored_files: None,
        application: None,
        application_name: None,
    };

    let actual = Config::new_default();

    assert_eq!(expected, actual);
}

#[test]
fn test_socket_address() {
    let expected = SocketAddress { address: IpAddress::from_octets([127, 0, 0, 1]), port: 8080 };

    let config = full_config([127, 0, 0, 1], 8080, ".");

    let actual = config.socket_address();
    assert_eq!(expected, actual);
}

#[test]
fn test_is_socket_path() {
    let config = Config {
        address: IpAddress::from_octets([127, 0, 0, 1]),
        port: 8080,
        root_dir: ".".to_string(),
        static_routes: Some(vec![("/static".to_owned(), "./static/".to_owned())]),
        ignored_files: None,
        application: None,
        application_name: None,
    };

    assert!(config.is_static_path("/static"));
    assert!(!config.is_static_path("/"));
    assert!(!config.is_static_path("/foo"));
}

#[test]
fn test_equality() {
    let config1 = full_config([127, 0, 0, 1], 8080, ".");
    let config2 = full_config([127, 0, 0, 1], 8080, ".");

    assert_eq!(config1, config2);
}

#[test]
fn test_inequality() {
    let config1 = full_config([127, 0, 0, 1], 8080, ".");
    let config2 = full_config([126, 0, 0, 1], 8081, "..");

    assert_ne!(config1, config2);
}

#[test]
fn inequality_on_a_single_field() {
    assert_ne!(full_config([127, 0, 0, 1], 8080, "."), full_config([127, 0, 0, 2], 8080, "."));
    assert_ne!(full_config([127, 0, 0, 1], 8080, "."), full_config([127, 0, 0, 1], 8081, "."));
    assert_ne!(full_config([127, 0, 0, 1], 8080, "."), full_config([127, 0, 0, 1], 8080, "./www"));
}

#[test]
fn octets_round_trip() {
    let address = IpAddress::from_octets([10, 1, 2, 3]);
    assert_eq!(address.octets(), [10, 1, 2, 3]);
    assert_eq!(address.a, 10);
    assert_eq!(address.d, 3);
}

#[test]
fn is_static_path_without_routes() {
    let config = Config::new_default();
    assert!(!config.is_static_path("/static"));
}

#[test]
fn route_table_from_config_with_application() {
    let mut config = Config::new_default();
    config.static_routes = Some(vec![("/static".to_owned(), "./static/".to_owned())]);
    config.application = Some("./app/app.py".to_owned());
    config.application_name = Some("application".to_owned());
    let table = config.route_table().unwrap();
    let app = table.application().clone().unwrap();
    assert_eq!(app.module, "./app/app.py");
    assert_eq!(app.callable, "application");
    assert_eq!(table.static_routes().len(), 1);
}

#[test]
fn route_table_from_config_needs_both_application_fields() {
    let mut config = Config::new_default();
    config.application = Some("./app/app.py".to_owned());
    let table = config.route_table().unwrap();
    assert!(table.application().is_none());
}

#[test]
fn route_table_from_config_rejects_root_route_with_application() {
    let mut config = Config::new_default();
    config.static_routes = Some(vec![("/".to_owned(), "./".to_owned())]);
    config.application = Some("./app/app.py".to_owned());
    config.application_name = Some("application".to_owned());
    assert_eq!(config.route_table().unwrap_err(), ConfigurationError::ApplicationShadowed("/".to_owned()));
}

#[test]
fn route_table_from_config_keeps_ignored_files() {
    let mut config = Config::new_default();
    config.ignored_files = Some(vec!["*.secret".to_owned()]);
    let table = config.route_table().unwrap();
    assert_eq!(table.ignored_files(), &vec!["*.secret".to_owned()]);
}

#[test]
fn inequality_on_routes_alone() {
    let plain = full_config([127, 0, 0, 1], 8080, ".");
    let mut routed = full_config([127, 0, 0, 1], 8080, ".");
    routed.static_routes = Some(vec![("/static".to_owned(), "./static/".to_owned())]);
    assert_ne!(plain, routed);

    let mut other_root = routed.clone();
    other_root.static_routes = Some(vec![("/static".to_owned(), "./public/".to_owned())]);
    assert_ne!(routed, other_root);

    let mut reordered = full_config([127, 0, 0, 1], 8080, ".");
    reordered.static_routes =
        Some(vec![("/a".to_owned(), "./a/".to_owned()), ("/b".to_owned(), "./b/".to_owned())]);
    let mut swapped = reordered.clone();
    swapped.static_routes = Some(vec![("/b".to_owned(), "./b/".to_owned()), ("/a".to_owned(), "./a/".to_owned())]);
    assert_ne!(reordered, swapped);

    let mut same = full_config([127, 0, 0, 1], 8080, ".");
    same.static_routes = Some(vec![("/static".to_owned(), "./static/".to_owned())]);
    assert_eq!(routed, same);
}

#[test]
fn inequality_on_ignored_files_and_application() {
    let plain = full_config([127, 0, 0, 1], 8080, ".");

    let mut ignoring = plain.clone();
    ignoring.ignored_files = Some(vec!["*.secret".to_owned()]);
    assert_ne!(plain, ignoring);

    let mut empty_ignored = plain.clone();
    empty_ignored.ignored_files = Some(vec![]);
    assert_ne!(plain, empty_ignored);

    let mut with_app = plain.clone();
    with_app.application = Some("./app/app.py".to_owned());
    assert_ne!(plain, with_app);

    let mut with_name = plain.clone();
    with_name.application_name = Some("application".to_owned());
    assert_ne!(plain, with_name);

    let mut other_name = with_name.clone();
    other_name.application_name = Some("main".to_owned());
    assert_ne!(with_name, other_name);
    assert_eq!(with_name, with_name.clone());
}
