//! Request routing and protocol adaptation for a gateway that serves static
//! files and forwards everything else to an embedded application.
pub mod cli;
pub mod config;
pub mod environ;
pub mod glob;
pub mod response;
pub mod routes;
pub mod service;
pub mod services;
pub mod table;
pub mod text;

pub use cli::{Cli, Command};
pub use config::{Config, IpAddress, SocketAddress};
pub use environ::{Environ, Gateway, Header, HttpVersion, Request, UrlScheme};
pub use response::{Response, assemble_response};
pub use service::{Action, Service, ServiceBuilder, static_service_handler};
pub use services::{FileServiceConfig, PythonServiceConfig};
pub use table::{ApplicationRoute, ConfigurationError, RouteMatch, RouteTable};
