//! Template-driven batch mail: placeholder substitution, recipient
//! resolution, multipart message assembly, and the sequential dispatch loop.
pub mod config;
pub mod dispatch;
pub mod error;
pub mod mailbox;
pub mod message;
pub mod substitution;
