//! Verified core of a small function-as-a-service runtime.
//!
//! The runtime hosts sandboxed compute modules and dispatches HTTP requests
//! to them. This library holds the parts whose behaviour is stated and
//! proved: the routing of a request target to a module key, the registry of
//! live workers and its deploy/invoke decisions, the pooling cap on
//! concurrent instances, fuel accounting across invocations, the hashing of
//! module artifacts, and the naming scheme of the object store. The
//! listeners, the object store itself, and the sandbox engine drive these
//! functions from outside.

pub mod artifact;
pub mod fuel;
pub mod registry;
pub mod routing;
pub mod service;
pub mod status;
