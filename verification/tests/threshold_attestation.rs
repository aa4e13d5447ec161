use quiet_ledger::host::{Address, AuthError, Bytes32, Env, InvokeError};
use quiet_ledger::threshold_attestation::{Error, ThresholdAttestationContract};

fn signer(n: u8) -> Address {
    Address::Account([n; 32])
}

fn client() -> (Vec<Address>, ThresholdAttestationContract) {
    let signers = vec![signer(1), signer(2), signer(3)];
    let mut client = ThresholdAttestationContract::new();
    client.initialize(signers.clone(), 2).unwrap(); // 2-of-3
    (signers, client)
}

fn hash(byte: u8) -> Bytes32 {
    Bytes32::from_array([byte; 32])
}

#[test]
fn two_of_three_registered_signers_succeeds() {
    let (signers, mut client) = client();
    let env = Env::with_all_auths(0);
    let statement = hash(1);
    let co_signers = vec![signers[0], signers[1]];

    client.submit_attestation(&env, statement, co_signers).unwrap();

    let record = client.get_attestation(statement).unwrap();
    assert_eq!(record.co_signers.len(), 2);
}

#[test]
fn below_threshold_is_rejected() {
    let (signers, mut client) = client();
    let env = Env::with_all_auths(0);
    let statement = hash(1);
    let one_signer = vec![signers[0]];

    let result = client.submit_attestation(&env, statement, one_signer);
    assert_eq!(result, Err(InvokeError::Contract(Error::ThresholdNotMet)));
}

#[test]
fn unregistered_signer_is_rejected() {
    let (signers, mut client) = client();
    let env = Env::with_all_auths(0);
    let statement = hash(1);
    let outsider = signer(9);
    let co_signers = vec![signers[0], outsider];

    let result = client.submit_attestation(&env, statement, co_signers);
    assert_eq!(result, Err(InvokeError::Contract(Error::UnknownSigner)));
}

#[test]
fn duplicate_signer_does_not_count_twice() {
    let (signers, mut client) = client();
    let env = Env::with_all_auths(0);
    let statement = hash(1);
    let same_signer_twice = vec![signers[0], signers[0]];

    let result = client.submit_attestation(&env, statement, same_signer_twice);
    assert_eq!(result, Err(InvokeError::Contract(Error::DuplicateSigner)));
}

#[test]
fn resubmitting_the_same_statement_is_rejected() {
    let (signers, mut client) = client();
    let env = Env::with_all_auths(0);
    let statement = hash(1);
    let co_signers = vec![signers[0], signers[1]];

    client.submit_attestation(&env, statement, co_signers.clone()).unwrap();
    let result = client.submit_attestation(&env, statement, co_signers);
    assert_eq!(result, Err(InvokeError::Contract(Error::AlreadyAttested)));
}

#[test]
fn initialize_rejects_threshold_greater_than_signer_count() {
    let mut client = ThresholdAttestationContract::new();
    let signers = vec![signer(1)];

    let result = client.initialize(signers, 2);
    assert_eq!(result, Err(Error::InvalidThreshold));
}

#[test]
fn initialize_rejects_a_zero_threshold_and_accepts_n_of_n() {
    let mut client = ThresholdAttestationContract::new();
    assert_eq!(client.initialize(vec![signer(1), signer(2)], 0), Err(Error::InvalidThreshold));
    assert_eq!(client.initialize(vec![signer(1), signer(2)], 2), Ok(()));
}

#[test]
fn initialize_succeeds_only_once() {
    let (_signers, mut client) = client();
    assert_eq!(client.initialize(vec![signer(7)], 1), Err(Error::AlreadyInitialized));
    // The first configuration still holds: signer 7 is unknown.
    let result = client.submit_attestation(&Env::with_all_auths(0), hash(1), vec![signer(7)]);
    assert_eq!(result, Err(InvokeError::Contract(Error::UnknownSigner)));
}

#[test]
fn attesting_before_initialization_is_rejected() {
    let mut client = ThresholdAttestationContract::new();
    let result = client.submit_attestation(&Env::with_all_auths(0), hash(1), vec![signer(1)]);
    assert_eq!(result, Err(InvokeError::Contract(Error::NotInitialized)));
    assert!(client.get_attestation(hash(1)).is_none());
}

#[test]
fn co_signer_without_authorization_aborts_the_invocation() {
    let (signers, mut client) = client();
    let env = Env::new(4, vec![signers[0]]);
    let result = client.submit_attestation(&env, hash(1), vec![signers[0], signers[1]]);
    assert_eq!(result, Err(InvokeError::Auth(AuthError { address: signers[1] })));
    assert!(client.get_attestation(hash(1)).is_none());
}

#[test]
fn checks_run_signer_by_signer_in_order() {
    let (signers, mut client) = client();
    // The first co-signer did not authorize: the invocation aborts before
    // the unknown second co-signer is looked at.
    let env = Env::new(4, vec![signers[1]]);
    let result = client.submit_attestation(&env, hash(1), vec![signers[0], signer(9)]);
    assert_eq!(result, Err(InvokeError::Auth(AuthError { address: signers[0] })));
    // An unknown first co-signer is reported even when it did not authorize.
    let result = client.submit_attestation(&env, hash(1), vec![signer(9), signers[0]]);
    assert_eq!(result, Err(InvokeError::Contract(Error::UnknownSigner)));
    // A duplicate is reported at its first occurrence, before authorization.
    let result = client.submit_attestation(&env, hash(1), vec![signers[0], signers[0]]);
    assert_eq!(result, Err(InvokeError::Contract(Error::DuplicateSigner)));
}

#[test]
fn accepted_attestation_is_recorded_once_with_its_ledger() {
    let (signers, mut client) = client();
    let env = Env::new(21, vec![signers[2], signers[0], signers[1]]);
    client.submit_attestation(&env, hash(5), vec![signers[2], signers[0], signers[1]]).unwrap();
    let record = client.get_attestation(hash(5)).unwrap();
    assert_eq!(record.co_signers, vec![signers[2], signers[0], signers[1]]);
    assert_eq!(record.recorded_at_ledger, 21);

    let result = client.submit_attestation(&Env::with_all_auths(30), hash(5), vec![signers[0], signers[1]]);
    assert_eq!(result, Err(InvokeError::Contract(Error::AlreadyAttested)));
    let record = client.get_attestation(hash(5)).unwrap();
    assert_eq!(record.co_signers.len(), 3);
    assert_eq!(record.recorded_at_ledger, 21);
}
