//! Client-side coordination logic for a CLI that drives a long-lived
//! browser daemon over a local socket: session addressing, command
//! translation, the line-delimited JSON wire protocol, response
//! rendering, and the daemon supervisor's decision rules.

pub mod session;
pub mod text;
pub mod ident;
pub mod numparse;
pub mod request;
pub mod translate;
pub mod supervisor;
pub mod jsonio;
pub mod response;
pub mod render;
pub mod codec;
pub mod decode;
pub mod roundtrip;
