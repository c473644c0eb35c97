//! Static route prefixes: first-match lookup and path resolution.
use vstd::prelude::*;
use vstd::string::*;
use crate::text::{has_prefix, starts_with};

verus! {

/// A static route as plain sequences: (URL prefix, directory root).
pub type RouteModel = (Seq<char>, Seq<char>);

/// The model of a list of static routes, in registration order.
pub open spec fn routes_view(v: Seq<(String, String)>) -> Seq<RouteModel> {
    v.map_values(|r: (String, String)| (r.0@, r.1@))
}

/// The first route at index `i` or later whose prefix begins `path`.
pub open spec fn first_match_from(routes: Seq<RouteModel>, path: Seq<char>, i: int) -> Option<int>
    decreases routes.len() - i,
{
    if i < 0 || i >= routes.len() {
        None
    } else if has_prefix(path, routes[i].0) {
        Some(i)
    } else {
        first_match_from(routes, path, i + 1)
    }
}

/// The index of the earliest registered route whose prefix begins `path`.
pub open spec fn first_match(routes: Seq<RouteModel>, path: Seq<char>) -> Option<int> {
    first_match_from(routes, path, 0)
}

/// The document served when a resolved path names a directory.
pub open spec fn default_document() -> Seq<char> {
    "index.html"@
}

/// `root` followed by `rest`, with a single `/` where a root ending in `/`
/// meets a rest starting with `/`.
pub open spec fn join(root: Seq<char>, rest: Seq<char>) -> Seq<char> {
    if root.len() > 0 && root.last() == '/' && rest.len() > 0 && rest[0] == '/' {
        root + rest.drop_first()
    } else {
        root + rest
    }
}

/// The file-system path for `path` under a route `prefix -> root`: the prefix
/// is replaced by the root, and a trailing `/` gets the default document.
pub open spec fn resolve(prefix: Seq<char>, root: Seq<char>, path: Seq<char>) -> Seq<char> {
    let joined = join(root, path.subrange(prefix.len() as int, path.len() as int));
    if joined.len() > 0 && joined.last() == '/' {
        joined + default_document()
    } else {
        joined
    }
}

/// The resolved path of `path` under the first matching route, if any.
pub open spec fn resolve_in(routes: Seq<RouteModel>, path: Seq<char>) -> Option<Seq<char>> {
    match first_match(routes, path) {
        Some(k) => Some(resolve(routes[k].0, routes[k].1, path)),
        None => None,
    }
}

/// A path equal to its prefix resolves to the root itself, with the default
/// document appended only when the root ends in `/`.
pub proof fn law_exact_prefix(prefix: Seq<char>, root: Seq<char>)
    ensures
        resolve(prefix, root, prefix) == (if root.len() > 0 && root.last() == '/' {
            root + default_document()
        } else {
            root
        }),
{
    assert(root + prefix.subrange(prefix.len() as int, prefix.len() as int) =~= root);
}

/// A path below a prefix resolves to the root joined with the rest of the
/// path, with the default document appended when the rest ends in `/`.
pub proof fn law_suffix_under_root(prefix: Seq<char>, root: Seq<char>, rest: Seq<char>)
    requires
        rest.len() > 0,
    ensures
        resolve(prefix, root, prefix + rest) == (if rest.last() == '/' {
            join(root, rest) + default_document()
        } else {
            join(root, rest)
        }),
{
    assert((prefix + rest).subrange(prefix.len() as int, (prefix + rest).len() as int) =~= rest);
    if root.len() > 0 && root.last() == '/' && rest[0] == '/' {
        if rest.len() == 1 {
            assert(join(root, rest) =~= root);
        } else {
            assert(join(root, rest).last() == rest.last());
        }
    } else {
        assert(join(root, rest).last() == rest.last());
    }
}

/// What `first_match_from` finds: the least matching index from `i` on.
pub proof fn lemma_first_match_from(routes: Seq<RouteModel>, path: Seq<char>, i: int)
    requires
        0 <= i,
    ensures
        match first_match_from(routes, path, i) {
            Some(k) => i <= k < routes.len() && has_prefix(path, routes[k].0) && forall|l: int|
                i <= l < k ==> !has_prefix(path, #[trigger] routes[l].0),
            None => forall|l: int| i <= l < routes.len() ==> !has_prefix(path, #[trigger] routes[l].0),
        },
    decreases routes.len() - i,
{
    if i < routes.len() && !has_prefix(path, routes[i].0) {
        lemma_first_match_from(routes, path, i + 1);
    }
}

/// What `first_match` finds: the least index whose prefix begins `path`,
/// or `None` exactly when no prefix does.
pub proof fn lemma_first_match(routes: Seq<RouteModel>, path: Seq<char>)
    ensures
        match first_match(routes, path) {
            Some(k) => 0 <= k < routes.len() && has_prefix(path, routes[k].0) && forall|l: int|
                0 <= l < k ==> !has_prefix(path, #[trigger] routes[l].0),
            None => forall|l: int| 0 <= l < routes.len() ==> !has_prefix(path, #[trigger] routes[l].0),
        },
{
    lemma_first_match_from(routes, path, 0);
}

/// The index of the earliest registered route in `routes` whose prefix begins `path`.
pub fn find_route(routes: &Vec<(String, String)>, path: &str) -> (r: Option<usize>)
    ensures
        r is Some ==> first_match(routes_view(routes@), path@) == Some(r->0 as int),
        r is None ==> first_match(routes_view(routes@), path@) is None,
{
    let ghost rv = routes_view(routes@);
    let mut i: usize = 0;
    while i < routes.len()
        invariant
            rv == routes_view(routes@),
            i <= routes@.len(),
            first_match(rv, path@) == first_match_from(rv, path@, i as int),
        decreases routes@.len() - i,
    {
        if starts_with(path, routes[i].0.as_str()) {
            return Some(i);
        }
        i = i + 1;
    }
    None
}

/// The file-system path for `path` under the route `prefix -> root`.
pub fn resolve_path(prefix: &str, root: &str, path: &str) -> (r: String)
    requires
        has_prefix(path@, prefix@),
    ensures
        r@ == resolve(prefix@, root@, path@),
{
    let n = path.unicode_len();
    let m = prefix.unicode_len();
    let mut suffix = path.substring_char(m, n);
    let root_len = root.unicode_len();
    let suffix_len = suffix.unicode_len();
    if root_len > 0 && root.get_char(root_len - 1) == '/' && suffix_len > 0 && suffix.get_char(0) == '/' {
        suffix = suffix.substring_char(1, suffix_len);
        assert(suffix@ =~= path@.subrange(m as int, n as int).drop_first());
    }
    let mut joined = String::from_str(root);
    joined.append(suffix);
    let len = joined.as_str().unicode_len();
    if len > 0 && joined.as_str().get_char(len - 1) == '/' {
        joined.append("index.html");
    }
    joined
}

/// The resolved path of `path` under the earliest matching route of `routes`.
pub fn resolve_in_routes(routes: &Vec<(String, String)>, path: &str) -> (r: Option<String>)
    ensures
        match resolve_in(routes_view(routes@), path@) {
            Some(p) => r is Some && r->0@ == p,
            None => r is None,
        },
{
    match find_route(routes, path) {
        Some(k) => {
            proof {
                lemma_first_match(routes_view(routes@), path@);
            }
            let route = &routes[k];
            assert(routes_view(routes@)[k as int] == (route.0@, route.1@));
            Some(resolve_path(route.0.as_str(), route.1.as_str(), path))
        },
        None => None,
    }
}

/// A copy of a list of routes.
pub fn copy_routes(routes: &Vec<(String, String)>) -> (r: Vec<(String, String)>)
    ensures
        routes_view(r@) == routes_view(routes@),
{
    let mut out: Vec<(String, String)> = Vec::new();
    let mut i: usize = 0;
    while i < routes.len()
        invariant
            i <= routes@.len(),
            routes_view(out@) == routes_view(routes@.subrange(0, i as int)),
        decreases routes@.len() - i,
    {
        let ghost before = routes_view(out@);
        out.push((routes[i].0.clone(), routes[i].1.clone()));
        assert(routes@.subrange(0, i as int + 1) =~= routes@.subrange(0, i as int).push(routes@[i as int]));
        assert(routes_view(out@) =~= before.push((routes@[i as int].0@, routes@[i as int].1@)));
        assert(routes_view(routes@.subrange(0, i as int + 1)) =~= routes_view(routes@.subrange(0, i as int)).push(
            (routes@[i as int].0@, routes@[i as int].1@),
        ));
        i = i + 1;
    }
    assert(routes@.subrange(0, i as int) =~= routes@);
    out
}

} // verus!
