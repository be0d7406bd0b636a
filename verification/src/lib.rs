//! A Bristlemouth node and the harness that compares it with a reference
//! stack.
pub mod adin2111;
pub mod bytes;
pub mod config;
pub mod conversations;
pub mod diff;
pub mod frame;
pub mod fuzz;
pub mod laws;
pub mod links;
pub mod message;
pub mod mock;
pub mod node;
pub mod port;
