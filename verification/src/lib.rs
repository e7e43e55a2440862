//! Decision logic of a local streaming proxy: request forwarding rules,
//! playlist rewriting, and the listener's lifecycle.

pub mod endpoints;
pub mod forward;
pub mod headers;
pub mod playlist;
pub mod port;
pub mod resolve;
pub mod restart;
pub mod supervisor;
pub mod text;
