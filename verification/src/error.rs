//! The single error type of the library and the exit-code scheme.

use crate::agent::AgentId;
use crate::text::{join_strings, push_str, seq_join, views};
use std::collections::BTreeMap;
use vstd::prelude::*;

verus! {

/// The single error type. Every fallible operation returns it.
#[derive(Debug)]
pub enum PraxisError {
    /// An agent backend failed to produce a response.
    AgentFailure {
        /// Identifier of the agent that failed.
        agent_id: String,
        /// Backend-supplied explanation.
        detail: String,
    },
    /// A graph node referenced an id for which no agent was registered.
    MissingAgent(AgentId),
    /// No provider had a key; carries the names of the providers tried.
    NoAuthedProviders(Vec<String>),
    /// The summarizer call failed.
    SummaryFailed {
        /// What went wrong.
        detail: String,
    },
    /// The credentials config file exists but could not be read or parsed.
    MalformedCredentials {
        /// The config file path (or `<str>` for inline parsing).
        path: String,
        /// The underlying read/parse error.
        detail: String,
    },
    /// A custom provider is missing a required field.
    IncompleteCustomProvider {
        /// The custom provider's name.
        name: String,
        /// The missing fields (subset of `api_key`, `model`, `base_url`).
        missing: Vec<String>,
    },
    /// A panel name is neither built-in nor defined in the config.
    UnknownPanel {
        /// The requested panel.
        name: String,
        /// The panels that were available.
        available: Vec<String>,
    },
    /// The OS keychain could not be read.
    KeyringAccess {
        /// The entry that was being read.
        key: String,
        /// The keychain's explanation.
        detail: String,
    },
}

/// Another name for [`PraxisError`].
pub type ProserpinaError = PraxisError;

/// The human-readable message of an error.
pub open spec fn error_message(e: PraxisError) -> Seq<char> {
    match e {
        PraxisError::AgentFailure { agent_id, detail } => "agent `"@ + agent_id@ + "` failed: "@
            + detail@,
        PraxisError::MissingAgent(id) => "no agent registered for id `"@ + id@ + "`"@,
        PraxisError::NoAuthedProviders(tried) => "no API keys found for any provider (tried: "@
            + seq_join(views(tried@), ", "@) + ")"@,
        PraxisError::SummaryFailed { detail } => "summarizer failed: "@ + detail@,
        PraxisError::MalformedCredentials { path, detail } => "malformed credentials config `"@
            + path@ + "`: "@ + detail@,
        PraxisError::IncompleteCustomProvider { name, missing } => "custom provider `"@ + name@
            + "` is missing required field(s): "@ + seq_join(views(missing@), ", "@),
        PraxisError::UnknownPanel { name, available } => "unknown panel `"@ + name@
            + "` (available: "@ + seq_join(views(available@), ", "@) + ")"@,
        PraxisError::KeyringAccess { key, detail } => "keyring access for `"@ + key@
            + "` failed: "@ + detail@,
    }
}

/// The stable machine-readable kind of an error.
pub open spec fn kind_of(e: PraxisError) -> Seq<char> {
    match e {
        PraxisError::AgentFailure { .. } => "agent_failure"@,
        PraxisError::MissingAgent(_) => "missing_agent"@,
        PraxisError::NoAuthedProviders(_) => "no_authed_providers"@,
        PraxisError::SummaryFailed { .. } => "summary_failed"@,
        PraxisError::MalformedCredentials { .. } => "malformed_credentials"@,
        PraxisError::IncompleteCustomProvider { .. } => "incomplete_custom_provider"@,
        PraxisError::UnknownPanel { .. } => "unknown_panel"@,
        PraxisError::KeyringAccess { .. } => "keyring_access"@,
    }
}

/// The exit code a CLI run terminates with on an error.
pub open spec fn code_of(e: PraxisError) -> u8 {
    match e {
        PraxisError::AgentFailure { .. } => 11,
        PraxisError::MissingAgent(_) => 15,
        PraxisError::NoAuthedProviders(_) => 10,
        PraxisError::SummaryFailed { .. } => 12,
        PraxisError::MalformedCredentials { .. } => 13,
        PraxisError::IncompleteCustomProvider { .. } => 14,
        PraxisError::UnknownPanel { .. } => 16,
        PraxisError::KeyringAccess { .. } => 70,
    }
}

impl PraxisError {
    /// An [`PraxisError::AgentFailure`].
    pub fn agent_failure(agent_id: &str, detail: &str) -> (r: Self)
        ensures
            r matches PraxisError::AgentFailure { agent_id: a, detail: d } && a@ == agent_id@ && d@
                == detail@,
    {
        PraxisError::AgentFailure {
            agent_id: String::from_str(agent_id),
            detail: String::from_str(detail),
        }
    }

    /// A [`PraxisError::MissingAgent`].
    pub fn missing_agent(id: AgentId) -> (r: Self)
        ensures
            r == PraxisError::MissingAgent(id),
    {
        PraxisError::MissingAgent(id)
    }

    /// A [`PraxisError::NoAuthedProviders`].
    pub fn no_authed_providers(tried: Vec<String>) -> (r: Self)
        ensures
            r == PraxisError::NoAuthedProviders(tried),
    {
        PraxisError::NoAuthedProviders(tried)
    }

    /// A [`PraxisError::SummaryFailed`].
    pub fn summary_failed(detail: &str) -> (r: Self)
        ensures
            r matches PraxisError::SummaryFailed { detail: d } && d@ == detail@,
    {
        PraxisError::SummaryFailed { detail: String::from_str(detail) }
    }

    /// A [`PraxisError::MalformedCredentials`].
    pub fn malformed_credentials(path: &str, detail: &str) -> (r: Self)
        ensures
            r matches PraxisError::MalformedCredentials { path: p, detail: d } && p@ == path@ && d@
                == detail@,
    {
        PraxisError::MalformedCredentials {
            path: String::from_str(path),
            detail: String::from_str(detail),
        }
    }

    /// A [`PraxisError::IncompleteCustomProvider`].
    pub fn incomplete_custom_provider(name: &str, missing: Vec<String>) -> (r: Self)
        ensures
            r matches PraxisError::IncompleteCustomProvider { name: n, missing: m } && n@ == name@
                && m == missing,
    {
        PraxisError::IncompleteCustomProvider { name: String::from_str(name), missing }
    }

    /// A [`PraxisError::UnknownPanel`].
    pub fn unknown_panel(name: &str, available: Vec<String>) -> (r: Self)
        ensures
            r matches PraxisError::UnknownPanel { name: n, available: a } && n@ == name@ && a
                == available,
    {
        PraxisError::UnknownPanel { name: String::from_str(name), available }
    }

    /// A [`PraxisError::KeyringAccess`].
    pub fn keyring_access(key: &str, detail: &str) -> (r: Self)
        ensures
            r matches PraxisError::KeyringAccess { key: k, detail: d } && k@ == key@ && d@
                == detail@,
    {
        PraxisError::KeyringAccess { key: String::from_str(key), detail: String::from_str(detail) }
    }

    /// A stable machine-readable kind string for this error variant.
    pub fn error_kind(&self) -> (r: &'static str)
        ensures
            r@ == kind_of(*self),
    {
        match self {
            PraxisError::AgentFailure { .. } => "agent_failure",
            PraxisError::MissingAgent(_) => "missing_agent",
            PraxisError::NoAuthedProviders(_) => "no_authed_providers",
            PraxisError::SummaryFailed { .. } => "summary_failed",
            PraxisError::MalformedCredentials { .. } => "malformed_credentials",
            PraxisError::IncompleteCustomProvider { .. } => "incomplete_custom_provider",
            PraxisError::UnknownPanel { .. } => "unknown_panel",
            PraxisError::KeyringAccess { .. } => "keyring_access",
        }
    }

    /// The exit code a CLI run should terminate with when this error occurs.
    pub fn exit_code(&self) -> (r: u8)
        ensures
            r == code_of(*self),
    {
        match self {
            PraxisError::AgentFailure { .. } => 11,
            PraxisError::MissingAgent(_) => 15,
            PraxisError::NoAuthedProviders(_) => 10,
            PraxisError::SummaryFailed { .. } => 12,
            PraxisError::MalformedCredentials { .. } => 13,
            PraxisError::IncompleteCustomProvider { .. } => 14,
            PraxisError::UnknownPanel { .. } => 16,
            PraxisError::KeyringAccess { .. } => 70,
        }
    }

    /// The human-readable message, as the error's display renders it.
    pub fn message(&self) -> (r: String)
        ensures
            r@ == error_message(*self),
    {
        let mut out = String::new();
        match self {
            PraxisError::AgentFailure { agent_id, detail } => {
                push_str(&mut out, "agent `");
                push_str(&mut out, agent_id.as_str());
                push_str(&mut out, "` failed: ");
                push_str(&mut out, detail.as_str());
            },
            PraxisError::MissingAgent(id) => {
                push_str(&mut out, "no agent registered for id `");
                push_str(&mut out, id.as_str());
                push_str(&mut out, "`");
            },
            PraxisError::NoAuthedProviders(tried) => {
                push_str(&mut out, "no API keys found for any provider (tried: ");
                let joined = join_strings(tried, ", ");
                push_str(&mut out, joined.as_str());
                push_str(&mut out, ")");
            },
            PraxisError::SummaryFailed { detail } => {
                push_str(&mut out, "summarizer failed: ");
                push_str(&mut out, detail.as_str());
            },
            PraxisError::MalformedCredentials { path, detail } => {
                push_str(&mut out, "malformed credentials config `");
                push_str(&mut out, path.as_str());
                push_str(&mut out, "`: ");
                push_str(&mut out, detail.as_str());
            },
            PraxisError::IncompleteCustomProvider { name, missing } => {
                push_str(&mut out, "custom provider `");
                push_str(&mut out, name.as_str());
                push_str(&mut out, "` is missing required field(s): ");
                let joined = join_strings(missing, ", ");
                push_str(&mut out, joined.as_str());
            },
            PraxisError::UnknownPanel { name, available } => {
                push_str(&mut out, "unknown panel `");
                push_str(&mut out, name.as_str());
                push_str(&mut out, "` (available: ");
                let joined = join_strings(available, ", ");
                push_str(&mut out, joined.as_str());
                push_str(&mut out, ")");
            },
            PraxisError::KeyringAccess { key, detail } => {
                push_str(&mut out, "keyring access for `");
                push_str(&mut out, key.as_str());
                push_str(&mut out, "` failed: ");
                push_str(&mut out, detail.as_str());
            },
        }
        out
    }
}

/// The exit-code scheme as (code, meaning) pairs, in increasing code order.
pub open spec fn exit_codes_spec() -> Seq<(u8, Seq<char>)> {
    seq![
        (0u8, "success"@),
        (2u8, "usage error"@),
        (10u8, "no authed providers"@),
        (11u8, "agent (provider) failure"@),
        (12u8, "summarizer failure"@),
        (13u8, "malformed credentials"@),
        (14u8, "incomplete custom provider"@),
        (15u8, "missing agent"@),
        (16u8, "unknown panel"@),
        (70u8, "other / internal"@),
    ]
}

/// The canonical exit-code scheme, as a sorted map (code -> meaning).
pub fn exit_codes_map() -> (r: BTreeMap<u8, String>)
    ensures
        r@.dom().len() == exit_codes_spec().len(),
        forall|i: int|
            0 <= i < exit_codes_spec().len() ==> r@.contains_key(#[trigger] exit_codes_spec()[i].0)
                && r@[exit_codes_spec()[i].0]@ == exit_codes_spec()[i].1,
{
    let mut m: BTreeMap<u8, String> = BTreeMap::new();
    m.insert(0, String::from_str("success"));
    m.insert(2, String::from_str("usage error"));
    m.insert(10, String::from_str("no authed providers"));
    m.insert(11, String::from_str("agent (provider) failure"));
    m.insert(12, String::from_str("summarizer failure"));
    m.insert(13, String::from_str("malformed credentials"));
    m.insert(14, String::from_str("incomplete custom provider"));
    m.insert(15, String::from_str("missing agent"));
    m.insert(16, String::from_str("unknown panel"));
    m.insert(70, String::from_str("other / internal"));
    m
}

} // verus!
