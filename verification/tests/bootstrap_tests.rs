use ct_monitor::bootstrap::{
    account_bootstrap_action, creation_submit_outcome, key_validation_outcome,
    registration_action, AccountBootstrapAction, AccountQueryOutcome, RegistrationAction,
};
use ct_monitor::errors::MonitorError;

/// A ledger with one optional service account, counting registrations.
struct FakeLedger {
    account: Option<u64>,
    registrations: usize,
}

impl FakeLedger {
    fn query(&self) -> AccountQueryOutcome<u64> {
        match self.account {
            Some(a) => AccountQueryOutcome::Found(a),
            None => AccountQueryOutcome::NotFound,
        }
    }

    fn register(&mut self) {
        self.registrations += 1;
        self.account = Some(1);
    }

    fn bootstrap_service(&mut self) {
        if registration_action(&self.query()) == RegistrationAction::SubmitRegistration {
            self.register();
        }
    }
}

#[test]
fn registration_is_idempotent() {
    // The ledger already holds the service account: bootstrapping twice
    // submits no registration at all.
    let mut ledger = FakeLedger { account: Some(7), registrations: 0 };
    ledger.bootstrap_service();
    ledger.bootstrap_service();
    assert_eq!(ledger.registrations, 0);
}

#[test]
fn registration_happens_once_from_scratch() {
    let mut ledger = FakeLedger { account: None, registrations: 0 };
    ledger.bootstrap_service();
    ledger.bootstrap_service();
    assert_eq!(ledger.registrations, 1);
}

#[test]
fn failed_registration_is_fatal_to_startup() {
    let r = ct_monitor::bootstrap::registration_submit_outcome(Err("queue full".to_string()));
    match r {
        Err(MonitorError::ServiceRegistration(d)) => assert_eq!(d, "queue full"),
        other => panic!("wrong outcome: {other:?}"),
    }
    assert!(ct_monitor::bootstrap::registration_submit_outcome(Ok(())).is_ok());
}

#[test]
fn existing_account_is_adopted_as_is() {
    let r = account_bootstrap_action(AccountQueryOutcome::Found(99u64));
    match r {
        AccountBootstrapAction::Adopt(a) => assert_eq!(a, 99),
        other => panic!("wrong action: {other:?}"),
    }
}

#[test]
fn missing_account_asks_for_one_creation() {
    let r = account_bootstrap_action::<u64>(AccountQueryOutcome::NotFound);
    assert!(matches!(r, AccountBootstrapAction::SubmitCreation));
}

#[test]
fn failed_creation_is_fatal_to_the_watcher() {
    let r = creation_submit_outcome::<u64>(Err("rejected".to_string()));
    match r {
        Err(MonitorError::AccountBootstrap(d)) => assert_eq!(d, "rejected"),
        other => panic!("wrong outcome: {other:?}"),
    }
    assert_eq!(creation_submit_outcome::<u64>(Ok(5)).unwrap(), 5);
}

#[test]
fn unparsable_key_is_fatal_to_the_watcher() {
    let r = key_validation_outcome(false, "bad der".to_string());
    match r {
        Err(MonitorError::InvalidKey(d)) => assert_eq!(d, "bad der"),
        other => panic!("wrong outcome: {other:?}"),
    }
    assert!(key_validation_outcome(true, "unused".to_string()).is_ok());
    assert_eq!(MonitorError::InvalidKey("bad der".to_string()).message(), "bad der");
}
