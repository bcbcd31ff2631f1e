//! Core of a terminal chat client: an append-only conversation log with a
//! flat-file transcript format, request builders and response decoders for two
//! completion backends, a scrollback layout engine, and the input-mode state
//! machine that sequences them.

pub mod codec;
pub mod json;
pub mod layout;
pub mod provider;
pub mod session;
pub mod store;
pub mod turn;
pub mod util;
