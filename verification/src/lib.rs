//! An in-process capability-provider host runtime.
//!
//! The host loads native capability providers, routes invocations by a
//! two-part address (binding name, capability id) to the registered
//! provider, runs every invocation through a user-supplied middleware
//! chain, and gives each provider a dispatcher through which it can call
//! out into actors.
//!
//! The state of the host — the router table, the plugin set, the
//! middleware chain and the per-provider channel queues — is modelled and
//! verified here. The thread-per-provider plumbing that drives the worker
//! loop sits outside the library and calls into the verified step
//! functions.

pub mod dispatch;
pub mod error;
pub mod errors;
pub mod inthost;
pub mod middleware;
pub mod native_host;
pub mod plugins;
pub mod router;
pub mod table;
mod text;
