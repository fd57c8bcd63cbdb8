//! Direct connectivity to Google services: decides whether a client connects
//! to a service directly, discovers the backends of the service by xDS, and
//! secures the connection to a backend by ALTS.
//!
//! - [`config`] and [`gce`] decide whether direct connectivity is used.
//! - [`xds`] discovers the endpoints of a service.
//! - [`channel`] says how endpoints are resolved and which one is connected to.
//! - [`alts`] makes the handshake and turns a connection into a stream of
//!   encrypted frames.
//!
//! The library does no I/O of its own: it is handed what comes from the
//! network, and says what to send.

pub mod alts;
pub mod bytes;
pub mod channel;
pub mod config;
pub mod gce;
pub mod text;
pub mod xds;
