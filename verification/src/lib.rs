//! Incremental mirror of a remote vocabulary account into local storage.
//!
//! The library decides; its caller carries out. Each of the three jobs is a
//! state machine that names the next request and takes the answer:
//! [`client::client::login`] opens a session, [`sync::sync`] synchronises
//! every collection of the account, and [`sync::sync_wordset`] one of them.
//! [`pagination`] drains a paged list, [`db`] and [`export`] lay out what
//! goes to the database and to the spreadsheet, and [`cli`] reads the
//! command line.

pub mod cli;
pub mod client;
pub mod db;
pub mod error;
pub mod export;
pub mod list;
pub mod pagination;
pub mod sync;
pub mod text;
