//! Healthcheck endpoints served on a set of ports, with a coordinated
//! graceful shutdown.
//!
//! The library holds the decisions of the service: how configuration entries
//! become a set of ports and a set of normalised paths, how a request path is
//! answered, how the one shutdown event is fanned out, and how each listener
//! moves through its lifecycle. Sockets, signals and the HTTP server itself
//! are driven by the program around it.

pub mod config;
pub mod listener;
pub mod orchestrator;
pub mod routes;
pub mod shutdown;

pub use config::{
    collect_entries, drop_empty, normalize_path, resolve_paths, resolve_ports, split_commas,
    split_entries,
};
pub use listener::{accepts_connections, next_state, ListenerEvent, ListenerState};
pub use orchestrator::{ConfigError, Orchestrator};
pub use routes::{Response, RouteTable};
pub use shutdown::{ShutdownCoordinator, Subscription};
