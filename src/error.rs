//! The failures that the library reports.
use vstd::prelude::*;

verus! {

/// A requested context could not be turned into a minimal configuration.
#[derive(Debug, Clone, PartialEq)]
pub enum SetContextError {
    /// No source defines a context of this name.
    KubeContextNotFound { ctx: String },
    /// The context names a cluster that its own source does not define.
    ClusterNotFound { ctx: String, cluster: String },
    /// The context names a credential that its own source does not define.
    CredentialNotFound { ctx: String, user: String },
}

/// Every failure of one invocation.
#[derive(Debug, Clone, PartialEq)]
pub enum Error {
    /// Resolving the requested context failed.
    SetContext(SetContextError),
    /// The picker returned without a choice.
    NoItemSelected { prompt: String },
    /// The only source could not be read or parsed.
    SourceRead { path: String, reason: String },
    /// The session-cache file could not be created or written.
    CacheWrite { path: String, reason: String },
    /// The external change of the active context or namespace in the source
    /// file `target` failed.
    DefaultUpdate { target: String, reason: String },
}

} // verus!
