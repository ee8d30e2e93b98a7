//! Project-owned browser instances.
//!
//! Each project may have one workspace browser. Tools ask for the session
//! `workspace` and are routed to the browser of their own project; lane names
//! and connection tokens never come from tool arguments. The library decides,
//! and the host owns the processes, sockets and stored rows.
pub mod accept;
pub mod bridge;
pub mod bridge_promises;
pub mod digest;
pub mod generation;
pub mod identity;
pub mod laws;
pub mod pairs;
pub mod paths;
pub mod promises;
pub mod readings;
pub mod start;
pub mod start_promises;
pub mod status;
pub mod table;
pub mod tabs;
pub mod text;
