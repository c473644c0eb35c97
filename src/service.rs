//! Per-request dispatch: classify, then say what to do.
use vstd::prelude::*;
use crate::config::{Config, configured_routes};
use crate::environ::{Environ, Gateway, Request, built_from};
use crate::response::{Response, STATUS_NOT_FOUND, assemble_response};
use crate::routes::{first_match, resolve_in, resolve_in_routes};
use crate::table::{ConfigurationError, RouteOutcome, RouteMatch, RouteTable, classify_spec, table_outcome};
use crate::config::{configured_application, configured_ignored};

verus! {

/// What the transport must do next for a request.
#[derive(Debug)]
pub enum Action {
    /// Read the file at this path, and assemble the response from what comes back.
    ReadFile(String),
    /// Invoke the application with this context, and assemble the response
    /// from what comes back.
    InvokeApplication(Environ),
    /// Send this response.
    Respond(Response),
}

/// `r` is the action for a request whose path classifies as `outcome`.
pub open spec fn action_for(outcome: RouteOutcome, req: Request, gateway: Gateway, r: Action) -> bool {
    match outcome {
        RouteOutcome::Static(p) => r matches Action::ReadFile(f) && f@ == p,
        RouteOutcome::Application => r matches Action::InvokeApplication(e) && built_from(e, req, gateway),
        RouteOutcome::NotFound => r matches Action::Respond(resp) && resp.status == STATUS_NOT_FOUND
            && resp.body@.len() == 0,
    }
}

/// Routes requests to static files or to the application. Its route table
/// is never changed after construction.
#[derive(Debug)]
pub struct Service {
    /// The directory on which relative resource lookups are based.
    pub root_dir: String,
    /// The routes requests are classified against.
    pub routes: RouteTable,
}

impl Service {
    /// Whether some static prefix begins `path`. Whether the file exists is
    /// not checked.
    pub fn is_static_request(&self, path: &str) -> (r: bool)
        ensures
            r == (first_match(self.routes@.routes, path@) is Some),
    {
        self.routes.is_static_request(path)
    }

    /// The file-system path of `path` under the first registered static
    /// prefix that begins it, if any.
    pub fn resolve_static_path(&self, path: &str) -> (r: Option<String>)
        ensures
            match resolve_in(self.routes@.routes, path@) {
                Some(p) => r is Some && r->0@ == p,
                None => r is None,
            },
    {
        resolve_in_routes(self.routes.static_routes(), path)
    }

    /// Decides what to do with a request reaching `gateway`: read the
    /// resolved file for a static path, invoke the application with the
    /// request's context, or answer 404 with an empty body.
    pub fn call(&self, req: &Request, gateway: &Gateway) -> (r: Action)
        ensures
            action_for(classify_spec(self.routes@, req.path@), *req, *gateway, r),
    {
        match self.routes.classify(req.path.as_str()) {
            RouteMatch::Static(p) => Action::ReadFile(p),
            RouteMatch::Application => Action::InvokeApplication(Environ::from_request(req, gateway)),
            RouteMatch::NotFound => Action::Respond(assemble_response(None)),
        }
    }
}

/// The file path that the static handler serves for `path` under the
/// configured static routes, if a prefix takes it.
pub fn static_service_handler(config: &Config, path: &str) -> (r: Option<String>)
    ensures
        match resolve_in(configured_routes(*config), path@) {
            Some(p) => r is Some && r->0@ == p,
            None => r is None,
        },
{
    match &config.static_routes {
        Some(routes) => resolve_in_routes(routes, path),
        None => {
            assert(resolve_in(configured_routes(*config), path@) is None) by {
                crate::routes::lemma_first_match(configured_routes(*config), path@);
            }
            None
        },
    }
}

/// Creates a `Service` for each connection from the configuration.
pub struct ServiceBuilder {
    pub config: Config,
}

impl ServiceBuilder {
    /// The service for the configuration, or the error that its routes call for.
    pub fn call(&self) -> (r: Result<Service, ConfigurationError>)
        ensures
            match r {
                Ok(s) => s.root_dir@ == self.config.root_dir@ && table_outcome(
                    configured_routes(self.config),
                    configured_application(self.config),
                    configured_ignored(self.config),
                    Ok(s.routes),
                ),
                Err(e) => table_outcome(
                    configured_routes(self.config),
                    configured_application(self.config),
                    configured_ignored(self.config),
                    Err(e),
                ),
            },
    {
        match self.config.route_table() {
            Ok(routes) => Ok(Service { root_dir: self.config.root_dir.clone(), routes }),
            Err(e) => Err(e),
        }
    }
}

} // verus!
