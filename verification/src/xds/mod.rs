//! xDS endpoint discovery for DirectPath.

pub mod discovery;
pub mod error;
pub mod extract;
pub mod extract_laws;
pub mod laws;
pub mod node;
pub mod types;
