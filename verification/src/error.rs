//! Error taxonomy: each component reports failures through its own enum.

use vstd::prelude::*;

verus! {

/// Invalid or missing descriptor data (`info.json`), or malformed
/// persisted settings.
#[derive(Debug, Clone, PartialEq, Eq)]
pub enum ConfigError {
    /// The text was not well-formed JSON.
    InvalidJson,
    /// The top-level JSON value was not an object.
    NotAnObject,
    /// The `id` field is missing or not a string.
    MissingId,
    /// A script hook entry was not a string.
    ScriptNotString,
    /// A `game` sub-field had the wrong shape; carries the field name.
    InvalidField(Vec<u8>),
    /// The parent chain revisited a descriptor id.
    ParentCycle(Vec<u8>),
    /// A descriptor id was referenced but its files are absent.
    MissingDescriptor(Vec<u8>),
}

/// Authentication pipeline failures: a response was missing an expected
/// field, or the XSTS service rejected the account.
#[derive(Debug, Clone, PartialEq, Eq)]
pub enum ProtocolError {
    /// A response body was not well-formed JSON; carries the stage name.
    InvalidJson(Vec<u8>),
    /// A response was missing an expected field; carries the stage name.
    MissingField(Vec<u8>),
    /// XSTS: the account has no Xbox profile attached.
    NoXboxAccount,
    /// XSTS: the account belongs to a child and cannot proceed alone.
    ChildAccount,
    /// XSTS rejected the request with another error code.
    XstsError(u64),
}

/// Failures raised by the pure part of the script-host API.
#[derive(Debug, Clone, PartialEq, Eq)]
pub enum HostError {
    /// `to_json` was given text that is not well-formed JSON.
    BadJson,
    /// `to_json` met a JSON shape it does not bridge.
    UnsupportedJson,
    /// `regex_capture`: the pattern did not compile or could not run.
    BadPattern,
    /// `regex_capture`: no match, or the pattern has no first group.
    NoMatch,
    /// `replace`: the pattern to replace was empty.
    EmptyPattern,
}

/// Launch-plan synthesis failures.
#[derive(Debug, Clone, PartialEq, Eq)]
pub enum PlanError {
    /// No descriptor in the chain, and no launch script, set a main class.
    MissingMainClass,
}

} // verus!
