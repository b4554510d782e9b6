//! The language-server side of the workspace: which servers exist, how
//! they are launched, how their byte stream is framed and how their
//! messages are routed.
pub mod broker;
pub mod discovery;
pub mod client;
pub mod framing;
pub mod locate;
pub mod server;
pub mod session;
pub mod spawn;
pub mod translate;
pub mod watch;
