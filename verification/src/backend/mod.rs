//! Backends: concrete implementations of [`crate::agent::Agent`] and the
//! provider configuration they run on.

pub mod credentials;
pub mod echo;
pub mod http;
pub mod roster;

pub use echo::EchoAgent;
