use vstd::prelude::*;

verus! {

/// The configuration entry that was rejected.
#[derive(Debug, Clone, Copy, PartialEq, Eq, Structural)]
pub enum ConfigField {
    Domain,
    Search,
    NameServer,
    BindAddr,
}

/// The error taxonomy every backend's failures are normalised to.
#[derive(Debug, Clone, PartialEq, Eq)]
pub enum ResolveError {
    /// An authoritative negative answer: the name or record does not exist.
    NotFound,
    /// A timeout, transport error or server failure; the caller may retry.
    Temporary,
    /// Malformed input at configuration time: the entry and the offending text.
    Configuration(ConfigField, String),
    /// A resolution was attempted before any backend was configured.
    Unavailable,
}

impl ResolveError {
    /// Whether a caller may retry the operation later.
    pub fn is_retryable(&self) -> (r: bool)
        ensures
            r == (*self is Temporary),
    {
        match self {
            ResolveError::Temporary => true,
            _ => false,
        }
    }

    /// Whether the answer is an authoritative negative one, which may be cached.
    pub fn is_cacheable(&self) -> (r: bool)
        ensures
            r == (*self is NotFound),
    {
        match self {
            ResolveError::NotFound => true,
            _ => false,
        }
    }
}

} // verus!
