//! The immutable route table and request classification.
use vstd::prelude::*;
use vstd::string::*;
use crate::routes::{RouteModel, routes_view, resolve, resolve_in, resolve_in_routes, first_match, lemma_first_match};
use crate::text::has_prefix;
use crate::glob::{glob_match, matches_glob};

verus! {

/// The application that receives every request no static prefix takes:
/// `module` names the source of the callable, `callable` its name.
#[derive(Clone, Debug, PartialEq, Eq)]
pub struct ApplicationRoute {
    pub module: String,
    pub callable: String,
}

/// Why a set of routes cannot form a table.
#[derive(Clone, Debug, PartialEq, Eq)]
pub enum ConfigurationError {
    /// The prefix is registered twice with different directory roots.
    ConflictingPrefix(String),
    /// The prefix takes every request path, so the configured application
    /// could never be reached.
    ApplicationShadowed(String),
}

/// The outcome of classifying a request path.
#[derive(Clone, Debug, PartialEq, Eq)]
pub enum RouteMatch {
    /// Served from disk, at the resolved file-system path.
    Static(String),
    /// Handed to the application.
    Application,
    /// Neither a static route nor an application takes it.
    NotFound,
}

/// The model of a `RouteMatch`.
pub enum RouteOutcome {
    Static(Seq<char>),
    Application,
    NotFound,
}

impl View for RouteMatch {
    type V = RouteOutcome;

    open spec fn view(&self) -> RouteOutcome {
        match self {
            RouteMatch::Static(p) => RouteOutcome::Static(p@),
            RouteMatch::Application => RouteOutcome::Application,
            RouteMatch::NotFound => RouteOutcome::NotFound,
        }
    }
}

/// The model of a route table.
pub struct RouteTableView {
    /// Static routes, in registration order, one per prefix.
    pub routes: Seq<RouteModel>,
    /// The application's (module, callable), if one is configured.
    pub application: Option<(Seq<char>, Seq<char>)>,
    /// Glob patterns of files that are never served.
    pub ignored_files: Seq<Seq<char>>,
}

/// The model of an optional application route.
pub open spec fn application_view(a: Option<ApplicationRoute>) -> Option<(Seq<char>, Seq<char>)> {
    match a {
        Some(r) => Some((r.module@, r.callable@)),
        None => None,
    }
}

/// The model of a list of strings.
pub open spec fn strings_view(v: Seq<String>) -> Seq<Seq<char>> {
    v.map_values(|s: String| s@)
}

/// A copy of a list of strings.
pub fn copy_strings(v: &Vec<String>) -> (r: Vec<String>)
    ensures
        strings_view(r@) == strings_view(v@),
{
    let mut out: Vec<String> = Vec::new();
    let mut i: usize = 0;
    while i < v.len()
        invariant
            i <= v@.len(),
            strings_view(out@) == strings_view(v@.subrange(0, i as int)),
        decreases v@.len() - i,
    {
        let ghost before = strings_view(out@);
        out.push(v[i].clone());
        assert(v@.subrange(0, i as int + 1) =~= v@.subrange(0, i as int).push(v@[i as int]));
        assert(strings_view(out@) =~= before.push(v@[i as int]@));
        assert(strings_view(v@.subrange(0, i as int + 1)) =~= strings_view(v@.subrange(0, i as int)).push(
            v@[i as int]@,
        ));
        i = i + 1;
    }
    assert(v@.subrange(0, i as int) =~= v@);
    out
}

/// Some glob of `patterns` matches all of `path`.
pub open spec fn ignored_by(patterns: Seq<Seq<char>>, path: Seq<char>) -> bool {
    exists|k: int| 0 <= k < patterns.len() && glob_match(#[trigger] patterns[k], path)
}

/// Some earlier route of `s` has prefix `p`.
pub open spec fn prefix_seen(s: Seq<RouteModel>, p: Seq<char>) -> bool {
    exists|j: int| 0 <= j < s.len() && (#[trigger] s[j]).0 == p
}

/// `s` with every route dropped whose prefix an earlier route already has.
pub open spec fn first_registrations(s: Seq<RouteModel>) -> Seq<RouteModel>
    decreases s.len(),
{
    if s.len() == 0 {
        s
    } else {
        let init = first_registrations(s.drop_last());
        if prefix_seen(s.drop_last(), s.last().0) {
            init
        } else {
            init.push(s.last())
        }
    }
}

/// Two routes of `s` share a prefix but not a root.
pub open spec fn has_conflict(s: Seq<RouteModel>) -> bool {
    exists|i: int, j: int|
        0 <= i < j < s.len() && (#[trigger] s[i]).0 == (#[trigger] s[j]).0 && s[i].1 != s[j].1
}

/// `p` is registered in `s` with two different roots.
pub open spec fn conflicting_prefix(s: Seq<RouteModel>, p: Seq<char>) -> bool {
    exists|i: int, j: int|
        0 <= i < j < s.len() && (#[trigger] s[i]).0 == p && (#[trigger] s[j]).0 == p && s[i].1 != s[j].1
}

/// A prefix that every request path starts with: empty, or the root `/`.
pub open spec fn covers_all_paths(p: Seq<char>) -> bool {
    p.len() == 0 || p == seq!['/']
}

/// Some route of `s` takes every request path.
pub open spec fn has_catch_all(s: Seq<RouteModel>) -> bool {
    exists|i: int| 0 <= i < s.len() && covers_all_paths((#[trigger] s[i]).0)
}

/// No two routes of `s` share a prefix.
pub open spec fn distinct_prefixes(s: Seq<RouteModel>) -> bool {
    forall|i: int, j: int| 0 <= i < j < s.len() ==> (#[trigger] s[i]).0 != (#[trigger] s[j]).0
}

/// What classifying `path` against a table gives: the first registered
/// static prefix that begins the path wins; otherwise the application, if
/// one is configured; otherwise nothing.
pub open spec fn classify_spec(t: RouteTableView, path: Seq<char>) -> RouteOutcome {
    match resolve_in(t.routes, path) {
        Some(p) => RouteOutcome::Static(p),
        None => if t.application is Some {
            RouteOutcome::Application
        } else {
            RouteOutcome::NotFound
        },
    }
}

/// `r` is what building a table from these routes, application and
/// ignored-file globs gives: the table of the first registration of each
/// prefix, or the error that the routes call for.
pub open spec fn table_outcome(
    routes: Seq<RouteModel>,
    application: Option<(Seq<char>, Seq<char>)>,
    ignored_files: Seq<Seq<char>>,
    r: Result<RouteTable, ConfigurationError>,
) -> bool {
    match r {
        Ok(t) => {
            &&& !has_conflict(routes)
            &&& !(application is Some && has_catch_all(routes))
            &&& t@.routes == first_registrations(routes)
            &&& t@.application == application
            &&& t@.ignored_files == ignored_files
        },
        Err(ConfigurationError::ConflictingPrefix(p)) => {
            &&& has_conflict(routes)
            &&& conflicting_prefix(routes, p@)
        },
        Err(ConfigurationError::ApplicationShadowed(p)) => {
            &&& !has_conflict(routes)
            &&& application is Some
            &&& covers_all_paths(p@)
            &&& prefix_seen(routes, p@)
        },
    }
}

/// Static routes to directory roots, plus at most one application route.
/// Built once and never changed: prefixes are unique, and no static prefix
/// takes every path while an application is configured.
#[derive(Debug)]
pub struct RouteTable {
    static_routes: Vec<(String, String)>,
    application: Option<ApplicationRoute>,
    ignored_files: Vec<String>,
}

impl View for RouteTable {
    type V = RouteTableView;

    closed spec fn view(&self) -> RouteTableView {
        RouteTableView {
            routes: routes_view(self.static_routes@),
            application: application_view(self.application),
            ignored_files: strings_view(self.ignored_files@),
        }
    }
}

/// The index of the route of `routes` with prefix `p`, if there is one.
fn find_prefix(routes: &Vec<(String, String)>, p: &String) -> (r: Option<usize>)
    ensures
        r is Some ==> r->0 < routes@.len() && routes_view(routes@)[r->0 as int].0 == p@,
        r is None ==> !prefix_seen(routes_view(routes@), p@),
{
    let mut i: usize = 0;
    while i < routes.len()
        invariant
            i <= routes@.len(),
            forall|j: int| 0 <= j < i ==> (#[trigger] routes_view(routes@)[j]).0 != p@,
        decreases routes@.len() - i,
    {
        if routes[i].0 == *p {
            return Some(i);
        }
        i = i + 1;
    }
    None
}

/// Every route that `first_registrations` keeps is a route of `s`.
pub proof fn lemma_kept_are_routes(s: Seq<RouteModel>)
    ensures
        forall|m: int| 0 <= m < first_registrations(s).len() ==> exists|k: int|
            0 <= k < s.len() && #[trigger] first_registrations(s)[m] == s[k],
    decreases s.len(),
{
    if s.len() > 0 {
        let init = s.drop_last();
        lemma_kept_are_routes(init);
        let fi = first_registrations(init);
        let f = first_registrations(s);
        assert forall|m: int| 0 <= m < f.len() implies exists|k: int|
            0 <= k < s.len() && #[trigger] f[m] == s[k] by {
            if m < fi.len() {
                let k1 = choose|k: int| 0 <= k < init.len() && fi[m] == init[k];
                assert(f[m] == fi[m]);
                assert(init[k1] == s[k1]);
            } else {
                assert(f[m] == s[s.len() - 1]);
            }
        }
    }
}

/// Every prefix of `s` is the prefix of a route that `first_registrations` keeps.
pub proof fn lemma_prefixes_kept(s: Seq<RouteModel>)
    ensures
        forall|k: int| 0 <= k < s.len() ==> exists|m: int|
            0 <= m < first_registrations(s).len() && #[trigger] first_registrations(s)[m].0 == (#[trigger] s[k]).0,
    decreases s.len(),
{
    if s.len() > 0 {
        let init = s.drop_last();
        let last = s.last();
        lemma_prefixes_kept(init);
        let fi = first_registrations(init);
        let f = first_registrations(s);
        assert forall|k: int| 0 <= k < s.len() implies exists|m: int|
            0 <= m < f.len() && #[trigger] f[m].0 == (#[trigger] s[k]).0 by {
            if k < s.len() - 1 {
                assert(init[k] == s[k]);
                let m1 = choose|m: int| 0 <= m < fi.len() && fi[m].0 == init[k].0;
                assert(f[m1] == fi[m1]);
            } else if prefix_seen(init, last.0) {
                let j = choose|j: int| 0 <= j < init.len() && init[j].0 == last.0;
                let m1 = choose|m: int| 0 <= m < fi.len() && fi[m].0 == init[j].0;
                assert(f[m1] == fi[m1]);
            } else {
                assert(f[fi.len() as int] == last);
            }
        }
    }
}

/// The routes that `first_registrations` keeps have distinct prefixes.
pub proof fn lemma_kept_distinct(s: Seq<RouteModel>)
    ensures
        distinct_prefixes(first_registrations(s)),
    decreases s.len(),
{
    if s.len() > 0 {
        let init = s.drop_last();
        let last = s.last();
        lemma_kept_distinct(init);
        lemma_kept_are_routes(init);
        let fi = first_registrations(init);
        let f = first_registrations(s);
        if !prefix_seen(init, last.0) {
            assert forall|a: int, b: int| 0 <= a < b < f.len() implies (#[trigger] f[a]).0 != (#[trigger] f[b]).0 by {
                assert(f[a] == fi[a]);
                if b == fi.len() {
                    let k1 = choose|k: int| 0 <= k < init.len() && fi[a] == init[k];
                    assert(init[k1].0 != last.0);
                } else {
                    assert(f[b] == fi[b]);
                }
            }
        }
    }
}

/// Without conflicts, each kept route has the root of every route of its prefix.
pub proof fn lemma_kept_roots(s: Seq<RouteModel>)
    requires
        !has_conflict(s),
    ensures
        forall|m: int, k: int|
            0 <= m < first_registrations(s).len() && 0 <= k < s.len()
                && (#[trigger] first_registrations(s)[m]).0 == (#[trigger] s[k]).0
                ==> first_registrations(s)[m].1 == s[k].1,
{
    lemma_kept_are_routes(s);
    let f = first_registrations(s);
    assert forall|m: int, k: int|
        0 <= m < f.len() && 0 <= k < s.len() && (#[trigger] f[m]).0 == (#[trigger] s[k]).0
        implies f[m].1 == s[k].1 by {
        let k1 = choose|kk: int| 0 <= kk < s.len() && f[m] == s[kk];
        if k1 < k {
            assert(s[k1].0 == s[k].0);
        } else if k < k1 {
            assert(s[k].0 == s[k1].0);
        }
    }
}

/// Appending a route to a conflict-free list keeps it conflict-free when
/// every earlier route with the same prefix has the same root.
pub proof fn lemma_extend_no_conflict(s: Seq<RouteModel>, x: RouteModel)
    requires
        !has_conflict(s),
        forall|k: int| 0 <= k < s.len() && (#[trigger] s[k]).0 == x.0 ==> s[k].1 == x.1,
    ensures
        !has_conflict(s.push(x)),
{
    let t = s.push(x);
    assert forall|a: int, b: int|
        0 <= a < b < t.len() && (#[trigger] t[a]).0 == (#[trigger] t[b]).0 implies t[a].1 == t[b].1 by {
        assert(t[a] == s[a]);
        if b < s.len() {
            assert(t[b] == s[b]);
        }
    }
}

/// Registering a prefix again with the root it already has changes nothing.
pub proof fn lemma_step_seen(s: Seq<RouteModel>, m: int, x: RouteModel)
    requires
        !has_conflict(s),
        0 <= m < first_registrations(s).len(),
        first_registrations(s)[m] == x,
    ensures
        first_registrations(s.push(x)) == first_registrations(s),
        !has_conflict(s.push(x)),
{
    let t = s.push(x);
    assert(t.drop_last() =~= s);
    lemma_kept_are_routes(s);
    lemma_kept_roots(s);
    let k0 = choose|k: int| 0 <= k < s.len() && first_registrations(s)[m] == s[k];
    assert(s[k0].0 == x.0);
    assert(prefix_seen(s, x.0));
    assert forall|k: int| 0 <= k < s.len() && (#[trigger] s[k]).0 == x.0 implies s[k].1 == x.1 by {
        assert(first_registrations(s)[m].0 == s[k].0);
    }
    lemma_extend_no_conflict(s, x);
}

/// Registering a new prefix appends its route.
pub proof fn lemma_step_new(s: Seq<RouteModel>, x: RouteModel)
    requires
        !has_conflict(s),
        !prefix_seen(first_registrations(s), x.0),
    ensures
        first_registrations(s.push(x)) == first_registrations(s).push(x),
        !has_conflict(s.push(x)),
{
    let t = s.push(x);
    assert(t.drop_last() =~= s);
    lemma_prefixes_kept(s);
    assert forall|k: int| 0 <= k < s.len() implies (#[trigger] s[k]).0 != x.0 by {
        let m1 = choose|m: int| 0 <= m < first_registrations(s).len() && first_registrations(s)[m].0 == s[k].0;
        assert(first_registrations(s)[m1].0 == s[k].0);
    }
    assert(!prefix_seen(s, x.0));
    lemma_extend_no_conflict(s, x);
}

impl RouteTable {
    #[verifier::type_invariant]
    spec fn wf(self) -> bool {
        &&& distinct_prefixes(routes_view(self.static_routes@))
        &&& self.application is Some ==> !has_catch_all(routes_view(self.static_routes@))
    }

    /// Builds a table from static routes in registration order, an optional
    /// application and the ignored-file globs. A prefix registered again with
    /// the same root is kept once, at its first place. Fails when a prefix is
    /// registered with two different roots, or when an application is given
    /// and some prefix takes every path: static prefixes take precedence, so
    /// such an application could never be reached.
    pub fn new(
        static_routes: Vec<(String, String)>,
        application: Option<ApplicationRoute>,
        ignored_files: Vec<String>,
    ) -> (r: Result<RouteTable, ConfigurationError>)
        ensures
            table_outcome(
                routes_view(static_routes@),
                application_view(application),
                strings_view(ignored_files@),
                r,
            ),
    {
        let ghost rv = routes_view(static_routes@);
        let mut kept: Vec<(String, String)> = Vec::new();
        let mut i: usize = 0;
        while i < static_routes.len()
            invariant
                rv == routes_view(static_routes@),
                i <= static_routes@.len(),
                routes_view(kept@) == first_registrations(rv.subrange(0, i as int)),
                !has_conflict(rv.subrange(0, i as int)),
            decreases static_routes@.len() - i,
        {
            let ghost before = routes_view(kept@);
            let ghost pre = rv.subrange(0, i as int);
            let ghost post = rv.subrange(0, i as int + 1);
            assert(post =~= pre.push(rv[i as int]));
            let route = &static_routes[i];
            assert(rv[i as int] == (route.0@, route.1@));
            match find_prefix(&kept, &route.0) {
                Some(m) => {
                    assert(before[m as int] == (kept[m as int].0@, kept[m as int].1@));
                    if kept[m].1 != route.1 {
                        proof {
                            lemma_kept_are_routes(pre);
                            let k0 = choose|k: int| 0 <= k < pre.len() && before[m as int] == pre[k];
                            assert(rv[k0] == pre[k0]);
                            assert(has_conflict(rv));
                            assert(rv[i as int].0 == route.0@);
                            assert(conflicting_prefix(rv, route.0@));
                        }
                        return Err(ConfigurationError::ConflictingPrefix(route.0.clone()));
                    }
                    proof {
                        lemma_step_seen(pre, m as int, rv[i as int]);
                    }
                },
                None => {
                    proof {
                        lemma_step_new(pre, rv[i as int]);
                    }
                    kept.push((route.0.clone(), route.1.clone()));
                    assert(routes_view(kept@) =~= before.push(rv[i as int]));
                },
            }
            i = i + 1;
        }
        assert(rv.subrange(0, i as int) =~= rv);
        proof {
            lemma_kept_distinct(rv);
            lemma_kept_are_routes(rv);
        }
        if application.is_some() {
            let mut j: usize = 0;
            while j < static_routes.len()
                invariant
                    rv == routes_view(static_routes@),
                    j <= static_routes@.len(),
                    !has_conflict(rv),
                    application is Some,
                    forall|k: int| 0 <= k < j ==> !covers_all_paths((#[trigger] rv[k]).0),
                decreases static_routes@.len() - j,
            {
                let prefix = &static_routes[j].0;
                assert(rv[j as int].0 == prefix@);
                let n = prefix.as_str().unicode_len();
                let catch_all = n == 0 || (n == 1 && prefix.as_str().get_char(0) == '/');
                if catch_all {
                    assert(n == 1 ==> prefix@ =~= seq!['/']);
                    assert(prefix_seen(rv, prefix@));
                    return Err(ConfigurationError::ApplicationShadowed(prefix.clone()));
                }
                assert(prefix@ != seq!['/']) by {
                    if n == 1 {
                        assert(seq!['/'][0] == '/');
                    }
                }
                j = j + 1;
            }
        }
        Ok(RouteTable { static_routes: kept, application, ignored_files })
    }
}

impl RouteTable {
    /// Classifies a request path: the first registered static prefix that
    /// begins it gives its resolved file path; otherwise the application
    /// takes it if one is configured; otherwise it is not found.
    pub fn classify(&self, path: &str) -> (r: RouteMatch)
        ensures
            r@ == classify_spec(self@, path@),
    {
        match resolve_in_routes(&self.static_routes, path) {
            Some(p) => RouteMatch::Static(p),
            None => if self.application.is_some() {
                RouteMatch::Application
            } else {
                RouteMatch::NotFound
            },
        }
    }

    /// Whether some static prefix begins `path`.
    pub fn is_static_request(&self, path: &str) -> (r: bool)
        ensures
            r == (first_match(self@.routes, path@) is Some),
    {
        crate::routes::find_route(&self.static_routes, path).is_some()
    }

    /// The static routes, in registration order. No two share a prefix, and
    /// none takes every path while an application is configured.
    pub fn static_routes(&self) -> (r: &Vec<(String, String)>)
        ensures
            routes_view(r@) == self@.routes,
            distinct_prefixes(self@.routes),
            self@.application is Some ==> !has_catch_all(self@.routes),
    {
        proof {
            use_type_invariant(self);
        }
        &self.static_routes
    }

    /// The application route, if one is configured.
    pub fn application(&self) -> (r: &Option<ApplicationRoute>)
        ensures
            application_view(*r) == self@.application,
    {
        &self.application
    }

    /// Whether some ignored-file glob matches all of `path`; a file at such
    /// a path is never served, whether or not it exists.
    pub fn is_ignored(&self, path: &str) -> (r: bool)
        ensures
            r == ignored_by(self@.ignored_files, path@),
    {
        let mut k: usize = 0;
        while k < self.ignored_files.len()
            invariant
                k <= self.ignored_files@.len(),
                forall|l: int| 0 <= l < k ==> !glob_match(#[trigger] strings_view(self.ignored_files@)[l], path@),
            decreases self.ignored_files@.len() - k,
        {
            assert(strings_view(self.ignored_files@)[k as int] == self.ignored_files@[k as int]@);
            if matches_glob(self.ignored_files[k].as_str(), path) {
                return true;
            }
            k = k + 1;
        }
        false
    }

    /// The glob patterns of files that are never served.
    pub fn ignored_files(&self) -> (r: &Vec<String>)
        ensures
            strings_view(r@) == self@.ignored_files,
    {
        &self.ignored_files
    }
}

/// Of two registered prefixes that both begin a path, the one registered
/// first is preferred: classification picks a route no later than it, and
/// exactly it when no route before it matches.
pub proof fn law_first_registered_wins(t: RouteTableView, path: Seq<char>, i: int, j: int)
    requires
        0 <= i < j < t.routes.len(),
        has_prefix(path, t.routes[i].0),
        has_prefix(path, t.routes[j].0),
    ensures
        first_match(t.routes, path) is Some,
        first_match(t.routes, path)->0 <= i,
        (forall|l: int| 0 <= l < i ==> !has_prefix(path, #[trigger] t.routes[l].0)) ==> classify_spec(t, path)
            == RouteOutcome::Static(resolve(t.routes[i].0, t.routes[i].1, path)),
{
    lemma_first_match(t.routes, path);
}

/// A path that no static prefix begins goes to the application when one is
/// configured, and is not found otherwise.
pub proof fn law_unmatched_goes_to_application(t: RouteTableView, path: Seq<char>)
    requires
        forall|l: int| 0 <= l < t.routes.len() ==> !has_prefix(path, #[trigger] t.routes[l].0),
    ensures
        classify_spec(t, path) == (if t.application is Some {
            RouteOutcome::Application
        } else {
            RouteOutcome::NotFound
        }),
{
    lemma_first_match(t.routes, path);
}

} // verus!
