//! Settings of the two kinds of downstream service.
use vstd::prelude::*;

verus! {

/// Settings of the service that reads static files.
#[derive(Clone, Debug, PartialEq, Eq)]
pub struct FileServiceConfig {
    /// The directory on which relative resource lookups are based.
    pub root_dir: String,
    /// Glob patterns of files that are never served.
    pub ignored_files: Option<Vec<String>>,
}

/// Settings of the service that invokes the application.
#[derive(Clone, Debug, PartialEq, Eq)]
pub struct PythonServiceConfig {
    /// The URL path where the application is served.
    pub path: String,
    /// The source of the application's callable.
    pub application: Option<String>,
    /// The name of the application's callable.
    pub application_name: Option<String>,
}

} // verus!
