//! Error taxonomy of the directory cache and the monitoring engine.

use vstd::prelude::*;

verus! {

/// Failure of a directory fetch or lookup.
#[derive(Debug)]
pub enum LogListError {
    /// The directory endpoint could not be reached; carries a transport
    /// description supplied by the caller that performed the fetch.
    NetworkError(String),
    /// The directory payload was malformed.
    ParseError(String),
    /// No usable log with the requested id is currently indexed.
    NotFound,
}

impl LogListError {
    /// A short human-readable description of the error.
    pub fn message(&self) -> (r: String)
        ensures
            self matches LogListError::NetworkError(m) ==> r@ == m@,
            self matches LogListError::ParseError(m) ==> r@ == m@,
    {
        match self {
            LogListError::NetworkError(m) => m.clone(),
            LogListError::ParseError(m) => m.clone(),
            LogListError::NotFound => "log not found".to_owned(),
        }
    }
}

/// Failure that stops one watcher or the whole monitoring startup.
#[derive(Debug)]
pub enum MonitorError {
    /// The one-time registration of the service identity failed; fatal to
    /// the whole monitoring startup.
    ServiceRegistration(String),
    /// Creating or adopting the ledger account of one log failed; fatal to
    /// that log's watcher only.
    AccountBootstrap(String),
    /// The log's published key material does not parse into the expected
    /// signature scheme; fatal to that log's watcher only.
    InvalidKey(String),
}

impl MonitorError {
    /// A short human-readable description of the error.
    pub fn message(&self) -> (r: String)
        ensures
            self matches MonitorError::ServiceRegistration(m) ==> r@ == m@,
            self matches MonitorError::AccountBootstrap(m) ==> r@ == m@,
            self matches MonitorError::InvalidKey(m) ==> r@ == m@,
    {
        match self {
            MonitorError::ServiceRegistration(m) => m.clone(),
            MonitorError::AccountBootstrap(m) => m.clone(),
            MonitorError::InvalidKey(m) => m.clone(),
        }
    }
}

} // verus!
