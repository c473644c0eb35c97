//! The gateway's configuration.
use vstd::prelude::*;
use vstd::string::*;
use crate::routes::{copy_routes, find_route, first_match, routes_view};
use crate::table::{ApplicationRoute, ConfigurationError, RouteTable, application_view, copy_strings, strings_view, table_outcome};

verus! {

/// An IPv4 address.
#[derive(Clone, Copy, Debug, PartialEq, Eq, Structural)]
pub struct IpAddress {
    pub a: u8,
    pub b: u8,
    pub c: u8,
    pub d: u8,
}

impl IpAddress {
    /// The address with the given four octets, most significant first.
    pub fn from_octets(octets: [u8; 4]) -> (r: IpAddress)
        ensures
            r.a == octets[0] && r.b == octets[1] && r.c == octets[2] && r.d == octets[3],
    {
        IpAddress { a: octets[0], b: octets[1], c: octets[2], d: octets[3] }
    }

    /// The four octets, most significant first.
    pub fn octets(&self) -> (r: [u8; 4])
        ensures
            r@ == seq![self.a, self.b, self.c, self.d],
    {
        let r = [self.a, self.b, self.c, self.d];
        assert(r@ =~= seq![self.a, self.b, self.c, self.d]);
        r
    }
}

/// An IPv4 address together with a port.
#[derive(Clone, Copy, Debug, PartialEq, Eq, Structural)]
pub struct SocketAddress {
    pub address: IpAddress,
    pub port: u16,
}

/// The address the gateway binds to unless told otherwise: 127.0.0.1.
pub open spec fn loopback() -> IpAddress {
    IpAddress { a: 127, b: 0, c: 0, d: 1 }
}

/// The global, immutable configuration of the gateway.
#[derive(Clone, Debug)]
pub struct Config {
    /// The address the server binds to.
    pub address: IpAddress,
    /// The port the server serves on.
    pub port: u16,
    /// The directory on which relative resource lookups are based.
    pub root_dir: String,
    /// URL prefixes mapped to directories of static files, in registration order.
    pub static_routes: Option<Vec<(String, String)>>,
    /// Glob patterns of files that are never served.
    pub ignored_files: Option<Vec<String>>,
    /// The source of the application that handles the other requests.
    pub application: Option<String>,
    /// The name of the application's callable.
    pub application_name: Option<String>,
}

/// The model of the configured static routes, empty when there are none.
pub open spec fn configured_routes(c: Config) -> Seq<(Seq<char>, Seq<char>)> {
    match c.static_routes {
        Some(v) => routes_view(v@),
        None => Seq::empty(),
    }
}

/// The model of the configured ignored-file globs, empty when there are none.
pub open spec fn configured_ignored(c: Config) -> Seq<Seq<char>> {
    match c.ignored_files {
        Some(v) => strings_view(v@),
        None => Seq::empty(),
    }
}

/// The application route a configuration designates: one exists when both
/// the application and the name of its callable are given.
pub open spec fn configured_application(c: Config) -> Option<(Seq<char>, Seq<char>)> {
    match (c.application, c.application_name) {
        (Some(m), Some(n)) => Some((m@, n@)),
        _ => None,
    }
}

impl Config {
    /// A configuration serving `root_dir` on `port` at 127.0.0.1, with no
    /// routes, ignored files or application.
    pub fn new(port: u16, root_dir: String) -> (r: Config)
        ensures
            r.address == loopback(),
            r.port == port,
            r.root_dir == root_dir,
            r.static_routes is None,
            r.ignored_files is None,
            r.application is None,
            r.application_name is None,
    {
        Config {
            address: IpAddress { a: 127, b: 0, c: 0, d: 1 },
            port,
            root_dir,
            static_routes: None,
            ignored_files: None,
            application: None,
            application_name: None,
        }
    }

    /// The default configuration: port 8080, root directory `.`.
    pub fn new_default() -> (r: Config)
        ensures
            r.address == loopback(),
            r.port == 8080,
            r.root_dir@ == "."@,
            r.static_routes is None,
            r.ignored_files is None,
            r.application is None,
            r.application_name is None,
    {
        Config::new(8080, String::from_str("."))
    }

    /// The address and port the server binds to.
    pub fn socket_address(&self) -> (r: SocketAddress)
        ensures
            r.address == self.address,
            r.port == self.port,
    {
        SocketAddress { address: self.address, port: self.port }
    }

    /// Whether some configured static prefix begins `path`.
    pub fn is_static_path(&self, path: &str) -> (r: bool)
        ensures
            r == (first_match(configured_routes(*self), path@) is Some),
    {
        match &self.static_routes {
            Some(routes) => find_route(routes, path).is_some(),
            None => false,
        }
    }

    /// The route table this configuration describes; fails as
    /// `RouteTable::new` does.
    pub fn route_table(&self) -> (r: Result<RouteTable, ConfigurationError>)
        ensures
            table_outcome(
                configured_routes(*self),
                configured_application(*self),
                configured_ignored(*self),
                r,
            ),
    {
        let routes = match &self.static_routes {
            Some(v) => copy_routes(v),
            None => Vec::new(),
        };
        let application = match (&self.application, &self.application_name) {
            (Some(m), Some(n)) => Some(ApplicationRoute { module: m.clone(), callable: n.clone() }),
            _ => None,
        };
        let ignored = match &self.ignored_files {
            Some(v) => copy_strings(v),
            None => Vec::new(),
        };
        assert(routes_view(routes@) =~= configured_routes(*self));
        assert(strings_view(ignored@) =~= configured_ignored(*self));
        assert(application_view(application) == configured_application(*self));
        RouteTable::new(routes, application, ignored)
    }
}

/// The model of optional static routes.
pub open spec fn optional_routes_view(o: Option<Vec<(String, String)>>) -> Option<Seq<(Seq<char>, Seq<char>)>> {
    match o {
        Some(v) => Some(routes_view(v@)),
        None => None,
    }
}

/// The model of an optional list of strings.
pub open spec fn optional_strings_view(o: Option<Vec<String>>) -> Option<Seq<Seq<char>>> {
    match o {
        Some(v) => Some(strings_view(v@)),
        None => None,
    }
}

/// The model of an optional string.
pub open spec fn optional_text(o: Option<String>) -> Option<Seq<char>> {
    match o {
        Some(s) => Some(s@),
        None => None,
    }
}

/// Two configurations are equal when every field is.
pub open spec fn same_config(a: Config, b: Config) -> bool {
    &&& a.address == b.address
    &&& a.port == b.port
    &&& a.root_dir@ == b.root_dir@
    &&& optional_routes_view(a.static_routes) == optional_routes_view(b.static_routes)
    &&& optional_strings_view(a.ignored_files) == optional_strings_view(b.ignored_files)
    &&& optional_text(a.application) == optional_text(b.application)
    &&& optional_text(a.application_name) == optional_text(b.application_name)
}

/// Whether two lists of routes hold the same routes in the same order.
fn routes_equal(a: &Vec<(String, String)>, b: &Vec<(String, String)>) -> (r: bool)
    ensures
        r == (routes_view(a@) == routes_view(b@)),
{
    if a.len() != b.len() {
        assert(routes_view(a@).len() != routes_view(b@).len());
        return false;
    }
    let mut i: usize = 0;
    while i < a.len()
        invariant
            a@.len() == b@.len(),
            i <= a@.len(),
            forall|k: int| 0 <= k < i ==> #[trigger] routes_view(a@)[k] == routes_view(b@)[k],
        decreases a@.len() - i,
    {
        assert(routes_view(a@)[i as int] == (a@[i as int].0@, a@[i as int].1@));
        assert(routes_view(b@)[i as int] == (b@[i as int].0@, b@[i as int].1@));
        if a[i].0 != b[i].0 || a[i].1 != b[i].1 {
            return false;
        }
        i = i + 1;
    }
    assert(routes_view(a@) =~= routes_view(b@));
    true
}

/// Whether two lists of strings hold the same strings in the same order.
fn strings_equal(a: &Vec<String>, b: &Vec<String>) -> (r: bool)
    ensures
        r == (strings_view(a@) == strings_view(b@)),
{
    if a.len() != b.len() {
        assert(strings_view(a@).len() != strings_view(b@).len());
        return false;
    }
    let mut i: usize = 0;
    while i < a.len()
        invariant
            a@.len() == b@.len(),
            i <= a@.len(),
            forall|k: int| 0 <= k < i ==> #[trigger] strings_view(a@)[k] == strings_view(b@)[k],
        decreases a@.len() - i,
    {
        assert(strings_view(a@)[i as int] == a@[i as int]@);
        assert(strings_view(b@)[i as int] == b@[i as int]@);
        if a[i] != b[i] {
            return false;
        }
        i = i + 1;
    }
    assert(strings_view(a@) =~= strings_view(b@));
    true
}

fn optional_routes_equal(a: &Option<Vec<(String, String)>>, b: &Option<Vec<(String, String)>>) -> (r: bool)
    ensures
        r == (optional_routes_view(*a) == optional_routes_view(*b)),
{
    match (a, b) {
        (Some(x), Some(y)) => routes_equal(x, y),
        (None, None) => true,
        _ => false,
    }
}

fn optional_strings_equal(a: &Option<Vec<String>>, b: &Option<Vec<String>>) -> (r: bool)
    ensures
        r == (optional_strings_view(*a) == optional_strings_view(*b)),
{
    match (a, b) {
        (Some(x), Some(y)) => strings_equal(x, y),
        (None, None) => true,
        _ => false,
    }
}

fn optional_text_equal(a: &Option<String>, b: &Option<String>) -> (r: bool)
    ensures
        r == (optional_text(*a) == optional_text(*b)),
{
    match (a, b) {
        (Some(x), Some(y)) => *x == *y,
        (None, None) => true,
        _ => false,
    }
}

impl PartialEq for Config {
    fn eq(&self, other: &Config) -> (r: bool) {
        self.address == other.address && self.port == other.port && self.root_dir == other.root_dir
            && optional_routes_equal(&self.static_routes, &other.static_routes)
            && optional_strings_equal(&self.ignored_files, &other.ignored_files)
            && optional_text_equal(&self.application, &other.application)
            && optional_text_equal(&self.application_name, &other.application_name)
    }
}

impl vstd::std_specs::cmp::PartialEqSpecImpl for Config {
    open spec fn obeys_eq_spec() -> bool {
        true
    }

    open spec fn eq_spec(&self, other: &Config) -> bool {
        same_config(*self, *other)
    }
}

} // verus!
