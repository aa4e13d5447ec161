use quiet_ledger::attestation_registry::AttestationRegistryContract;
use quiet_ledger::host::{Address, AuthError, Bytes32, Env};

fn root(byte: u8) -> Bytes32 {
    Bytes32::from_array([byte; 32])
}

fn anchor(n: u8) -> Address {
    Address::Account([n; 32])
}

#[test]
fn publish_then_get_commitment_round_trips() {
    let mut client = AttestationRegistryContract::new();
    let anchor = anchor(7);
    let env = Env::with_all_auths(42);

    client.publish_commitment(&env, anchor, root(1)).unwrap();

    let stored = client.get_commitment(anchor).unwrap();
    assert_eq!(stored.root, root(1));
    assert_eq!(stored.published_at_ledger, 42);
}

#[test]
fn republishing_moves_previous_commitment_into_history() {
    let mut client = AttestationRegistryContract::new();
    let anchor = anchor(7);
    let env = Env::with_all_auths(0);

    client.publish_commitment(&env, anchor, root(1)).unwrap();
    client.publish_commitment(&env, anchor, root(2)).unwrap();

    let current = client.get_commitment(anchor).unwrap();
    assert_eq!(current.root, root(2));

    let history = client.get_history(anchor);
    assert_eq!(history.len(), 1);
    assert_eq!(history[0].root, root(1));
}

#[test]
fn get_commitment_returns_none_for_unknown_anchor() {
    let client = AttestationRegistryContract::new();
    let anchor = anchor(7);
    assert!(client.get_commitment(anchor).is_none());
}

#[test]
fn get_history_returns_empty_vec_for_anchor_with_one_commitment() {
    let mut client = AttestationRegistryContract::new();
    let anchor = anchor(7);
    client.publish_commitment(&Env::with_all_auths(0), anchor, root(1)).unwrap();
    assert_eq!(client.get_history(anchor).len(), 0);
}

#[test]
fn history_keeps_every_replaced_commitment_in_order() {
    let mut client = AttestationRegistryContract::new();
    let anchor = anchor(3);
    for (i, byte) in [10u8, 11, 12, 13].iter().enumerate() {
        client.publish_commitment(&Env::with_all_auths(i as u32 + 100), anchor, root(*byte)).unwrap();
    }
    let history = client.get_history(anchor);
    assert_eq!(history.len(), 3);
    assert_eq!(history[0].root, root(10));
    assert_eq!(history[0].published_at_ledger, 100);
    assert_eq!(history[1].root, root(11));
    assert_eq!(history[2].root, root(12));
    assert_eq!(history[2].published_at_ledger, 102);
    let current = client.get_commitment(anchor).unwrap();
    assert_eq!(current.root, root(13));
    assert_eq!(current.published_at_ledger, 103);
}

#[test]
fn publishing_for_one_anchor_leaves_other_anchors_alone() {
    let mut client = AttestationRegistryContract::new();
    let env = Env::with_all_auths(5);
    client.publish_commitment(&env, anchor(1), root(1)).unwrap();
    client.publish_commitment(&env, anchor(2), root(2)).unwrap();
    client.publish_commitment(&env, anchor(2), root(3)).unwrap();
    assert_eq!(client.get_commitment(anchor(1)).unwrap().root, root(1));
    assert_eq!(client.get_history(anchor(1)).len(), 0);
    assert_eq!(client.get_history(anchor(2)).len(), 1);
    assert!(client.get_commitment(Address::Contract([1; 32])).is_none());
}

#[test]
fn publishing_without_the_anchors_authorization_is_aborted() {
    let mut client = AttestationRegistryContract::new();
    let owner = anchor(1);
    let intruder = anchor(2);
    client.publish_commitment(&Env::new(1, vec![owner]), owner, root(1)).unwrap();

    let result = client.publish_commitment(&Env::new(2, vec![intruder]), owner, root(9));
    assert_eq!(result, Err(AuthError { address: owner }));
    let stored = client.get_commitment(owner).unwrap();
    assert_eq!(stored.root, root(1));
    assert_eq!(stored.published_at_ledger, 1);
    assert_eq!(client.get_history(owner).len(), 0);
}

#[test]
fn history_is_kept_in_order_across_interleaved_anchors() {
    let mut client = AttestationRegistryContract::new();
    let (a, b) = (anchor(1), anchor(2));
    client.publish_commitment(&Env::with_all_auths(1), a, root(10)).unwrap();
    client.publish_commitment(&Env::with_all_auths(2), b, root(20)).unwrap();
    client.publish_commitment(&Env::with_all_auths(3), a, root(11)).unwrap();
    client.publish_commitment(&Env::with_all_auths(4), b, root(21)).unwrap();
    client.publish_commitment(&Env::with_all_auths(5), a, root(12)).unwrap();

    let history = client.get_history(a);
    assert_eq!(history.len(), 2);
    assert_eq!((history[0].root, history[0].published_at_ledger), (root(10), 1));
    assert_eq!((history[1].root, history[1].published_at_ledger), (root(11), 3));
    let current = client.get_commitment(a).unwrap();
    assert_eq!((current.root, current.published_at_ledger), (root(12), 5));
    let history_b = client.get_history(b);
    assert_eq!(history_b.len(), 1);
    assert_eq!((history_b[0].root, history_b[0].published_at_ledger), (root(20), 2));
}
