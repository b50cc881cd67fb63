//! Resumable process pipes: the rules that keep a detached command's stdin,
//! stdout and stderr consistent across transport failures.
//!
//! Every module here is a description of state and of the decisions taken on
//! it. Nothing in the crate performs input or output: a program that embeds it
//! reads and writes bytes, and asks this crate what they mean.

pub mod acceptance;
pub mod attachment;
pub mod broker;
pub mod cancellation;
pub mod cli;
pub mod group_pidfd;
pub mod input;
pub mod json;
pub mod outer;
pub mod output;
pub mod protocol;
pub mod runtime;
pub mod server;
pub mod text;
pub mod wire;
