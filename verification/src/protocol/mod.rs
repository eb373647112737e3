//! The service's protocol: its pages, the outcomes of a probe, and the client's decisions.
pub mod client;
pub mod page;
pub mod status;
