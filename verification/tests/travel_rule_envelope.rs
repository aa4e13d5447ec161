use quiet_ledger::host::{Address, AuthError, Bytes32, Env, InvokeError};
use quiet_ledger::travel_rule_envelope::{Error, TravelRuleEnvelopeContract};

fn hash(byte: u8) -> Bytes32 {
    Bytes32::from_array([byte; 32])
}

#[test]
fn submit_then_get_envelope_round_trips() {
    let mut client = TravelRuleEnvelopeContract::new();
    let sender = Address::Account([1; 32]);
    let recipient = Address::Account([2; 32]);
    let tx_ref = hash(1);
    let env = Env::with_all_auths(7);

    client.submit_envelope(&env, tx_ref, sender, recipient, hash(9)).unwrap();

    let stored = client.get_envelope(tx_ref).unwrap();
    assert_eq!(stored.sender, sender);
    assert_eq!(stored.recipient, recipient);
    assert_eq!(stored.payload_hash, hash(9));
    assert_eq!(stored.submitted_at_ledger, 7);
}

#[test]
fn resubmitting_the_same_tx_ref_is_rejected() {
    let mut client = TravelRuleEnvelopeContract::new();
    let sender = Address::Account([1; 32]);
    let recipient = Address::Account([2; 32]);
    let tx_ref = hash(1);
    let env = Env::with_all_auths(0);

    client.submit_envelope(&env, tx_ref, sender, recipient, hash(9)).unwrap();
    let result = client.submit_envelope(&env, tx_ref, sender, recipient, hash(10));

    assert_eq!(result, Err(InvokeError::Contract(Error::EnvelopeAlreadySubmitted)));
    assert_eq!(client.get_envelope(tx_ref).unwrap().payload_hash, hash(9));
}

#[test]
fn get_envelope_returns_none_for_unknown_tx_ref() {
    let client = TravelRuleEnvelopeContract::new();
    assert!(client.get_envelope(hash(99)).is_none());
}

#[test]
fn submission_without_the_senders_authorization_is_aborted() {
    let mut client = TravelRuleEnvelopeContract::new();
    let sender = Address::Account([1; 32]);
    let recipient = Address::Contract([2; 32]);
    let env = Env::new(3, vec![recipient]);

    let result = client.submit_envelope(&env, hash(1), sender, recipient, hash(9));
    assert_eq!(result, Err(InvokeError::Auth(AuthError { address: sender })));
    assert!(client.get_envelope(hash(1)).is_none());

    let env = Env::new(3, vec![recipient, sender]);
    client.submit_envelope(&env, hash(1), sender, recipient, hash(9)).unwrap();
    assert_eq!(client.get_envelope(hash(1)).unwrap().submitted_at_ledger, 3);
}

#[test]
fn missing_authorization_is_reported_before_a_used_tx_ref() {
    let mut client = TravelRuleEnvelopeContract::new();
    let sender = Address::Account([1; 32]);
    let other = Address::Account([3; 32]);
    let recipient = Address::Account([2; 32]);
    client.submit_envelope(&Env::with_all_auths(1), hash(1), sender, recipient, hash(9)).unwrap();

    let result = client.submit_envelope(&Env::new(2, vec![sender]), hash(1), other, recipient, hash(8));
    assert_eq!(result, Err(InvokeError::Auth(AuthError { address: other })));
    let stored = client.get_envelope(hash(1)).unwrap();
    assert_eq!(stored.sender, sender);
    assert_eq!(stored.payload_hash, hash(9));
}

#[test]
fn distinct_tx_refs_are_kept_apart() {
    let mut client = TravelRuleEnvelopeContract::new();
    let a = Address::Account([1; 32]);
    let b = Address::Account([2; 32]);
    let env = Env::with_all_auths(11);
    client.submit_envelope(&env, hash(1), a, b, hash(5)).unwrap();
    client.submit_envelope(&env, hash(2), b, a, hash(6)).unwrap();
    let first = client.get_envelope(hash(1)).unwrap();
    let second = client.get_envelope(hash(2)).unwrap();
    assert_eq!(first.sender, a);
    assert_eq!(first.payload_hash, hash(5));
    assert_eq!(second.sender, b);
    assert_eq!(second.recipient, a);
    assert_eq!(second.payload_hash, hash(6));
}
