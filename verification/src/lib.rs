//! Startup core of a desktop shell that supervises a bundled server process.
//!
//! The crate decides; the surrounding program performs. It chooses the server
//! port, renders the script that hands startup values to the front-end,
//! sequences the startup steps, and classifies the events of the child
//! process. Sockets, processes and the host runtime stay with the caller.

pub mod escape;
pub mod inject_vars;
pub mod log;
pub mod reader;
pub mod session;
pub mod sidecar;
pub mod startup;
pub mod text;
