//! Talking to the remote account: the shapes of its answers and the
//! handshake that opens a session.

pub mod client;
pub mod cookie;
pub mod form;
pub mod html;
pub mod models;
pub mod urls;
