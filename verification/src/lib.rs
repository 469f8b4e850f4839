//! The logic of port.pub, which shares a local HTTP server with the public
//! internet through a relay.

pub mod app;
pub mod host;
pub mod http;
pub mod ident;
pub mod message;
pub mod random;
pub mod registry;
pub mod requests;
pub mod screen;
pub mod server;
pub mod session;
pub mod text;
