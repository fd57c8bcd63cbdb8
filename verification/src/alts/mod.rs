//! Application Layer Transport Security.

pub mod cipher;
pub mod connector;
pub mod frame;
pub mod handshake_laws;
pub mod handshaker;
pub mod laws;
pub mod record_laws;
pub mod stream;
