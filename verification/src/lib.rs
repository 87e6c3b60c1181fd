//! Core of a persistent-connection push-notification session handler.
//!
//! The crate has four parts: a wire codec that speaks the tagged JSON text
//! envelope (`text`, `codec`), the protocol message shapes (`protocol`), a
//! correlation bridge that pairs an outbound call with its single-use
//! completion and guards every cross-boundary operation (`call`), and the
//! session state machine that consumes bridge results and emits server
//! messages (`session`).

pub mod call;
pub mod codec;
pub mod protocol;
pub mod session;
pub mod text;
