//! Lists the published ports of running compose services as lines for a fuzzy
//! selector, each line carrying the command that opens the port.
//!
//! The library decides and computes; it starts no process and reads no file.
//! [`cli`] lays a run out as a sequence of steps for the caller to carry out.
//! [`dockercompose`] holds the services and says what a run of the compose
//! tool amounts to. [`config`] resolves the command template of a port and
//! renders it. [`list`] makes the lines that are shown, with [`order`] and
//! [`text`] as its building blocks, and [`fzf`] says what the selector is
//! given and what a run of it amounts to.

pub mod cli;
pub mod config;
pub mod dockercompose;
pub mod error;
pub mod fzf;
pub mod list;
pub mod order;
pub mod text;

pub use error::Error;
