//! Startup decisions: the one-time service registration and the per-log
//! account bootstrap.
//!
//! The ledger queries and submissions themselves happen outside the
//! library; these functions take their outcomes and decide, under
//! contract, whether to submit, what to adopt, and what is fatal.

use vstd::prelude::*;

use crate::errors::MonitorError;

verus! {

/// The ledger's answer to an account query, carrying the caller's
/// account-state type opaquely.
#[derive(Debug)]
pub enum AccountQueryOutcome<A> {
    /// An account exists; its state is carried as the ledger returned
    /// it.
    Found(A),
    /// No account exists under the queried identifier.
    NotFound,
}

/// What the service-registration bootstrap must do.
#[derive(Debug, Clone, Copy, PartialEq, Eq, Structural)]
pub enum RegistrationAction {
    /// The service identity is already registered: submit nothing.
    AlreadyRegistered,
    /// No account exists yet: construct and submit the registration
    /// transaction, once.
    SubmitRegistration,
}

/// What the per-log account bootstrap must do.
#[derive(Debug)]
pub enum AccountBootstrapAction<A> {
    /// An account exists already: adopt it as it is, submit nothing,
    /// and start monitoring from now.
    Adopt(A),
    /// No account exists: construct, sign and submit one creation
    /// transaction.
    SubmitCreation,
}

/// Decides the service registration from the ledger's answer: a
/// registration is submitted exactly when no account exists yet.
pub fn registration_action<A>(query: &AccountQueryOutcome<A>) -> (r: RegistrationAction)
    ensures
        r == RegistrationAction::SubmitRegistration <==> query is NotFound,
        r == RegistrationAction::AlreadyRegistered <==> query is Found,
{
    match query {
        AccountQueryOutcome::Found(_) => RegistrationAction::AlreadyRegistered,
        AccountQueryOutcome::NotFound => RegistrationAction::SubmitRegistration,
    }
}

/// Maps the outcome of the one registration submission: a failure is
/// fatal to the whole monitoring startup.
pub fn registration_submit_outcome(result: Result<(), String>) -> (r: Result<(), MonitorError>)
    ensures
        result is Ok <==> r is Ok,
        result matches Err(m) ==> (r matches Err(e) && (e matches
            MonitorError::ServiceRegistration(d) && d@ == m@)),
{
    match result {
        Ok(()) => Ok(()),
        Err(m) => Err(MonitorError::ServiceRegistration(m)),
    }
}

/// Idempotent registration: against a ledger that already holds the
/// service account — as it does once a first bootstrap has registered
/// it — any later bootstrap decides to submit nothing, however often it
/// runs.
pub proof fn lemma_registration_idempotent<A>(first: A, second: A)
    ensures
        forall|r: RegistrationAction|
            call_ensures(registration_action::<A>, (&AccountQueryOutcome::Found(first),), r)
                ==> r == RegistrationAction::AlreadyRegistered,
        forall|r: RegistrationAction|
            call_ensures(registration_action::<A>, (&AccountQueryOutcome::Found(second),), r)
                ==> r == RegistrationAction::AlreadyRegistered,
{
}

/// Decides the per-log account bootstrap from the ledger's answer: an
/// existing account is adopted as it is (no replay of history), and a
/// creation transaction is submitted exactly when none exists.
pub fn account_bootstrap_action<A>(query: AccountQueryOutcome<A>) -> (r: AccountBootstrapAction<
    A,
>)
    ensures
        query matches AccountQueryOutcome::Found(a) ==> (r matches AccountBootstrapAction::Adopt(
            b,
        ) && a == b),
        query is NotFound <==> r is SubmitCreation,
        query is Found <==> r is Adopt,
{
    match query {
        AccountQueryOutcome::Found(a) => AccountBootstrapAction::Adopt(a),
        AccountQueryOutcome::NotFound => AccountBootstrapAction::SubmitCreation,
    }
}

/// Maps the outcome of the one account-creation submission: success
/// adopts exactly the account state that applying the acknowledged
/// transaction produced; failure is fatal to this watcher and is never
/// retried, so a creation cannot silently duplicate.
pub fn creation_submit_outcome<A>(result: Result<A, String>) -> (r: Result<A, MonitorError>)
    ensures
        result matches Ok(a) ==> (r matches Ok(b) && a == b),
        result is Ok <==> r is Ok,
        result matches Err(m) ==> (r matches Err(e) && (e matches MonitorError::AccountBootstrap(
            d,
        ) && d@ == m@)),
{
    match result {
        Ok(a) => Ok(a),
        Err(m) => Err(MonitorError::AccountBootstrap(m)),
    }
}

/// Accepts or rejects a log's published key material from whether it
/// parsed into the expected signature scheme: a failure is fatal to
/// this watcher.
pub fn key_validation_outcome(parsed: bool, detail: String) -> (r: Result<(), MonitorError>)
    ensures
        r is Ok <==> parsed,
        !parsed ==> (r matches Err(e) && (e matches MonitorError::InvalidKey(d) && d@
            == detail@)),
{
    if parsed {
        Ok(())
    } else {
        Err(MonitorError::InvalidKey(detail))
    }
}

} // verus!
