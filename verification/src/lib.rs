//! A relay engine bridging a framed control/data channel against a raw TCP
//! byte stream: the per-session state machine with connect, reconnect and
//! disconnect semantics, the codec of the control vocabulary, and the
//! embedded request/response variant of the same capability.
//!
//! The library holds the decision logic only: every transition is a function
//! from the current state and an observed input to the next state and the
//! actions the surrounding tasks must perform. The surrounding I/O (the
//! listener, the socket reads and writes, the framed channel) lives outside
//! and drives these functions.

pub mod codec;
pub mod embedded;
pub mod session;
pub mod text;
