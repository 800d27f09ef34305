//! A streaming XML writer.
//!
//! [`XmlWriter`] emits well-formed XML token by token into a byte sink that
//! implements [`Write`], without building a document tree. It keeps a small
//! stack of the elements that are still open, so that it can decide between
//! self-closing and child-bearing elements, indent in pretty mode, reproduce
//! the namespace prefix of each element when it is closed, and close all open
//! elements on demand.
//!
//! Every operation is specified against the state machine in [`model`]: what
//! it writes, how it changes the writer's state, and when it succeeds.

mod encoding;
mod error;
pub mod laws;
pub mod model;
mod woxml;
mod write;

pub use error::Error;
pub use woxml::XmlWriter;
pub use write::Write;
