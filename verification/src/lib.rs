//! Proserpina: a multi-critic cross-examination pipeline for documents.
//!
//! A [`Subject`] is cross-examined by a panel of critic [`Persona`]s along an
//! [`InteractionGraph`]; a [`Runner`] walks the graph against registered
//! [`Agent`]s and records a [`Transcript`], which folds into a [`Report`] of
//! [`Finding`]s.

pub mod agent;
pub mod agent_info;
pub mod auth;
pub mod backend;
pub mod cli;
pub mod error;
pub mod graph;
pub mod laws;
pub mod message;
pub mod panels;
pub mod persona;
pub mod report;
pub mod runner;
pub mod subject;
pub mod summary;
pub mod text;
pub mod transcript;

pub use agent::{Agent, AgentId};
pub use backend::EchoAgent;
pub use error::{PraxisError, ProserpinaError};
pub use graph::{InteractionGraph, Topology};
pub use message::{Message, MessageKind};
pub use persona::{Panel, Persona};
pub use report::{Finding, Report, Severity};
pub use runner::Runner;
pub use subject::Subject;
pub use transcript::Transcript;
