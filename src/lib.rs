//! Per-connection device session logic: a registry of device handles taken
//! from a device-management service, snapshot generations that invalidate
//! stale references, and the routing of one request line.

pub mod registry;
pub mod session;
pub mod request;
pub mod response;
