//! Operations of the remote object protocol, as plain descriptions of the
//! requests to send.

pub mod headers;
pub mod object;
