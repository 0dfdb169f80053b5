//! Checks which addresses in a batch are registered accounts on an identity
//! provider: each address is probed with one unauthenticated request, the
//! response body is classified by literal markers, and the outcomes are folded
//! into an aggregate that the output sinks consume.

pub mod aggregate;
pub mod classify;
pub mod probe;
pub mod report;
pub mod text;
