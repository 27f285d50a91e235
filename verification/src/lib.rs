//! A loopback asset server core for a single-window desktop shell.
//!
//! The crate holds the decision logic of the shell: how a request path is
//! split into segments and checked against directory traversal, how a file
//! extension is mapped to a content type, which handler a request is routed
//! to, how a response is built from a file-read outcome, and in what order
//! the server and the window come up. All I/O (the listener, file reads,
//! the window and its rendering surface) lives outside the library.

pub mod config;
pub mod mime;
pub mod orchestrator;
pub mod paths;
pub mod routing;

use vstd::prelude::*;

verus! {

/// The separator between path segments.
pub const SLASH: u8 = 47;

/// The dot byte, as in the `..` parent segment and before an extension.
pub const DOT: u8 = 46;

} // verus!
