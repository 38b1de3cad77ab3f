//! Control plane of a remote-driven graphical shell.
//!
//! A controller process drives the shell over a line-oriented text stream.
//! This crate holds the verified core of that control plane: the frame
//! codec that turns outbound events and inbound commands into and out of
//! line-delimited text records, the dispatcher that applies commands to a
//! model of the surface, and the rendezvous that matches path-resolution
//! answers to pending lookups.

pub mod text;
pub mod json;
pub mod codec;
pub mod dispatch;
pub mod rendezvous;
