//! An FTP and FTPS client: its rules, with contracts, and the state that they keep.
//!
//! The library decides and never touches the network. What talks to the server asks it what to do
//! next, does that, and hands back what came of it.
//!
//! - [`path`]: which paths are accepted, and how they stand on the wire;
//! - [`list`]: reading the rows of a `LIST` reply, and refusing those that can be read in two ways;
//! - [`error`]: errors, what a reply code means, and when a connection has to be given up;
//! - [`stream`] and [`tokio_stream`]: downloads and uploads, blocking and asynchronous, and how
//!   they end;
//! - [`guard`]: what a transfer does to its client;
//! - [`lookup`]: finding out by listings what a refusal meant;
//! - [`operation`]: the filesystem operations, step by step;
//! - [`client`]: options, connecting, and the state between operations;
//! - [`file`](mod@file), [`parser`] and [`text`]: entries, dates, and the text that they are read
//!   from;
//! - [`laws`], [`behaviour`] and [`transfers`]: what all this is for, stated over inputs and results.
//!
//! A name that begins with `law_` states a property of several functions together.

pub mod behaviour;
pub mod client;
pub mod error;
pub mod file;
pub mod guard;
pub mod laws;
pub mod list;
pub mod lookup;
pub mod operation;
pub mod parser;
pub mod path;
pub mod stream;
pub mod text;
pub mod tokio_stream;
pub mod transfers;

pub use client::TokioFtpFs;
