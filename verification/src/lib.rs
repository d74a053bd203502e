//! Restoring a database dump into a live database by way of the database's
//! own command-line client, run here or on a trusted host reached over SSH.
//!
//! The library decides and the caller acts. A connector in [`destination`]
//! says which tool to look for and which command to run, as the steps of
//! [`connector`]; the caller does so and reports back. Commands are plain
//! values ([`command`]), wrapped for the trusted host in [`config`] with
//! every word quoted for the shell there ([`shell`]), and what a run comes
//! to is settled in [`process`].

pub mod command;
pub mod config;
pub mod connector;
pub mod destination;
pub mod process;
pub mod shell;
pub mod text;
