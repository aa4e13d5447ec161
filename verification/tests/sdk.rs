use quiet_ledger::scval::{map_get, ScAddress, ScMapEntry, ScValue};
use quiet_ledger::sdk::{
    transaction_outcome, address_sc_val, bytes_sc_val, decode_commitment, decode_envelope, get_commitment_call,
    get_envelope_call, map_get_address, map_get_bytes, map_get_u32,
    publish_commitment_call_checked, publish_commitment_call_for, submit_envelope_call_checked,
    submit_envelope_call_for, QuietLedgerConfig, SdkError,
};
use soroban_client::keypair::{Keypair, KeypairBehavior};

const ANCHOR_A_PUBLIC: &str = "GBPLXSKCYLWIIK6F5ZFZ4ZM65XMWCOWAQZCOIXHQI33ANQPZNMFABRKG";
const ANCHOR_B_PUBLIC: &str = "GARPZ6FFXFT7ZY5S76O3LEGNIUCVWPHEGVL6EC5YVNYQIVUG4OYTUDIX";
const REGISTRY_ID: &str = "CB2RON4OTYIBD7YK7VCRTZIV6NF7PYXDXACC5N2SLDSVNSJ4MHSMXCQT";

fn config() -> QuietLedgerConfig {
    QuietLedgerConfig {
        rpc_url: "https://soroban-testnet.stellar.org".to_string(),
        attestation_registry_contract_id: REGISTRY_ID.to_string(),
        travel_rule_envelope_contract_id:
            "CADXCVAR45PCU75JJWD2HMVKOJTFBS7RZXENLH5DQHABWTD6HWPFWAX2".to_string(),
        proof_verifier_contract_id: "CCGSFI3FT3XJH2WI7WAMA7ZY7FA53HT7AAXSP56M3YZ242NQCV5DHQ6F"
            .to_string(),
    }
}

fn account_key(strkey: &str) -> [u8; 32] {
    stellar_strkey::ed25519::PublicKey::from_string(strkey).unwrap().0
}

fn symbol(name: &str) -> ScValue {
    ScValue::Symbol(name.as_bytes().to_vec())
}

fn entry(name: &str, val: ScValue) -> ScMapEntry {
    let val_debug = match &val {
        ScValue::U32(n) => format!("U32({n})"),
        ScValue::Bytes(b) => format!("Bytes(ScBytes(BytesM({})))", b.len()),
        other => format!("{other:?}"),
    };
    ScMapEntry { key: symbol(name), val, val_debug }
}

fn map(entries: Vec<ScMapEntry>) -> ScValue {
    ScValue::ScMap(Some(entries))
}

fn unexpected(e: SdkError) -> String {
    match e {
        SdkError::UnexpectedReturnValue(m) => m,
        other => panic!("expected an unexpected-return-value error, got {other:?}"),
    }
}

#[test]
fn error_messages_name_their_kind() {
    assert_eq!(SdkError::Rpc("down".to_string()).message(), "rpc error: down");
    assert_eq!(SdkError::Simulation("no".to_string()).message(), "simulation error: no");
    assert_eq!(SdkError::TransactionFailed("x".to_string()).message(), "transaction failed: x");
    assert_eq!(
        SdkError::UnexpectedReturnValue("y".to_string()).message(),
        "unexpected return value: y"
    );
}

#[test]
fn bytes_argument_must_have_exactly_32_bytes() {
    match bytes_sc_val(&[5u8; 32]) {
        Ok(ScValue::Bytes(b)) => assert_eq!(b, vec![5u8; 32]),
        other => panic!("unexpected {other:?}"),
    }
    for len in [0usize, 31, 33] {
        let e = bytes_sc_val(&vec![1u8; len]).unwrap_err();
        assert_eq!(unexpected(e), "expected exactly 32 bytes");
    }
}

#[test]
fn address_argument_decodes_account_and_contract_strkeys() {
    match address_sc_val(ANCHOR_A_PUBLIC) {
        Ok(ScValue::Address(ScAddress::Account(k))) => assert_eq!(k, account_key(ANCHOR_A_PUBLIC)),
        other => panic!("unexpected {other:?}"),
    }
    let contract = stellar_strkey::Contract::from_string(REGISTRY_ID).unwrap().0;
    match address_sc_val(REGISTRY_ID) {
        Ok(ScValue::Address(ScAddress::Contract(h))) => assert_eq!(h, contract),
        other => panic!("unexpected {other:?}"),
    }
}

#[test]
fn address_argument_refuses_other_texts() {
    for text in ["not a key", "", "GBPLXSKCYLWIIK6F5ZFZ4ZM65XMWCOWAQZCOIXHQI33ANQPZNMFABRKH"] {
        match address_sc_val(text) {
            Err(SdkError::Rpc(m)) => assert_eq!(m, "\"Unsupported address type\""),
            other => panic!("unexpected {other:?}"),
        }
    }
}

#[test]
fn map_get_finds_the_first_entry_with_the_symbol() {
    let value = map(vec![
        ScMapEntry { key: ScValue::U32(1), val: ScValue::U32(10), val_debug: "U32(10)".to_string() },
        entry("other", ScValue::U32(20)),
        entry("field", ScValue::U32(30)),
        entry("field", ScValue::U32(40)),
    ]);
    assert!(matches!(map_get(&value, "field"), Some(ScValue::U32(30))));
    assert!(map_get(&value, "missing").is_none());
    assert!(map_get(&ScValue::U32(3), "field").is_none());
    assert!(map_get(&ScValue::ScMap(None), "field").is_none());
}

#[test]
fn typed_field_reads_report_what_they_found() {
    let value = map(vec![entry("n", ScValue::U32(7)), entry("b", ScValue::Bytes(vec![1, 2]))]);
    assert_eq!(map_get_u32(&value, "n").unwrap(), 7);
    assert_eq!(map_get_bytes(&value, "b").unwrap(), vec![1, 2]);
    let e = unexpected(map_get_bytes(&value, "n").unwrap_err());
    assert_eq!(e, "expected bytes for 'n', got Some(U32(7))");
    let e = unexpected(map_get_u32(&value, "zz").unwrap_err());
    assert_eq!(e, "expected u32 for 'zz', got None");
    let e = unexpected(map_get_address(&value, "b").unwrap_err());
    assert_eq!(e, "expected address for 'b', got Some(Bytes(ScBytes(BytesM(2))))");
}

#[test]
fn decode_commitment_reads_void_as_none_and_fields_in_order() {
    assert!(decode_commitment(&ScValue::Void).unwrap().is_none());
    let value = map(vec![
        entry("published_at_ledger", ScValue::U32(42)),
        entry("root", ScValue::Bytes(vec![1u8; 32])),
    ]);
    let c = decode_commitment(&value).unwrap().unwrap();
    assert_eq!(c.root, vec![1u8; 32]);
    assert_eq!(c.published_at_ledger, 42);

    let missing_both = map(vec![]);
    let e = unexpected(decode_commitment(&missing_both).unwrap_err());
    assert_eq!(e, "expected bytes for 'root', got None");
    let missing_ledger = map(vec![entry("root", ScValue::Bytes(vec![]))]);
    let e = unexpected(decode_commitment(&missing_ledger).unwrap_err());
    assert_eq!(e, "expected u32 for 'published_at_ledger', got None");
}

#[test]
fn decode_envelope_renders_addresses_as_strkeys() {
    let sender = match address_sc_val(ANCHOR_A_PUBLIC).unwrap() {
        ScValue::Address(a) => a,
        _ => unreachable!(),
    };
    let recipient = ScAddress::Account(account_key(ANCHOR_B_PUBLIC));
    let value = map(vec![
        entry("payload_hash", ScValue::Bytes(vec![9u8; 32])),
        entry("recipient", ScValue::Address(recipient)),
        entry("sender", ScValue::Address(sender)),
        entry("submitted_at_ledger", ScValue::U32(7)),
    ]);
    let env = decode_envelope(&value).unwrap().unwrap();
    assert_eq!(env.sender, ANCHOR_A_PUBLIC);
    assert_eq!(env.recipient, ANCHOR_B_PUBLIC);
    assert_eq!(env.payload_hash, vec![9u8; 32]);
    assert_eq!(env.submitted_at_ledger, 7);
    assert!(decode_envelope(&ScValue::Void).unwrap().is_none());
}

#[test]
fn decode_envelope_refuses_addresses_without_a_strkey() {
    let value = map(vec![
        entry("sender", ScValue::Address(ScAddress::LiquidityPool([3u8; 32]))),
        entry("recipient", ScValue::Address(ScAddress::Account([4u8; 32]))),
    ]);
    let e = unexpected(decode_envelope(&value).unwrap_err());
    assert_eq!(e, "\"Address type not supported\"");
    let value = map(vec![entry("sender", ScValue::Address(ScAddress::Account([4u8; 32])))]);
    let e = unexpected(decode_envelope(&value).unwrap_err());
    assert_eq!(e, "expected address for 'recipient', got None");
}

#[test]
fn read_calls_name_the_contract_method_and_argument() {
    let cfg = config();
    let call = get_commitment_call(&cfg, ANCHOR_A_PUBLIC).unwrap();
    assert_eq!(call.contract_id, REGISTRY_ID);
    assert_eq!(call.method, "get_commitment");
    assert_eq!(call.args.len(), 1);
    assert!(matches!(call.args[0], ScValue::Address(ScAddress::Account(k)) if k == account_key(ANCHOR_A_PUBLIC)));
    assert!(matches!(get_commitment_call(&cfg, "nope"), Err(SdkError::Rpc(_))));

    let call = get_envelope_call(&cfg, &[8u8; 32]).unwrap();
    assert_eq!(call.contract_id, cfg.travel_rule_envelope_contract_id);
    assert_eq!(call.method, "get_envelope");
    assert!(matches!(&call.args[0], ScValue::Bytes(b) if *b == vec![8u8; 32]));
    assert!(matches!(get_envelope_call(&cfg, &[8u8; 31]), Err(SdkError::UnexpectedReturnValue(_))));
}

#[test]
fn publish_call_uses_the_public_key_of_the_secret() {
    let cfg = config();
    let secret = stellar_strkey::ed25519::PrivateKey([7u8; 32]).to_string();
    let public = Keypair::from_secret(&secret).unwrap().public_key();
    let call = publish_commitment_call_checked(&cfg, &secret, &[1u8; 32]).unwrap().unwrap();
    assert_eq!(call.method, "publish_commitment");
    assert_eq!(call.contract_id, REGISTRY_ID);
    assert!(matches!(call.args[0], ScValue::Address(ScAddress::Account(k)) if k == account_key(&public)));
    assert!(matches!(&call.args[1], ScValue::Bytes(b) if *b == vec![1u8; 32]));

    assert!(publish_commitment_call_checked(&cfg, ANCHOR_A_PUBLIC, &[1u8; 32]).is_none());
    assert!(publish_commitment_call_checked(&cfg, "", &[1u8; 32]).is_none());
    let e = publish_commitment_call_checked(&cfg, &secret, &[1u8; 3]).unwrap().unwrap_err();
    assert_eq!(unexpected(e), "expected exactly 32 bytes");
    assert!(matches!(publish_commitment_call_for(&cfg, "x", &[1u8; 3]), Err(SdkError::Rpc(_))));
}

#[test]
fn submit_call_checks_its_arguments_in_order() {
    let cfg = config();
    let secret = stellar_strkey::ed25519::PrivateKey([9u8; 32]).to_string();
    let call = submit_envelope_call_checked(&cfg, &secret, &[1u8; 32], ANCHOR_B_PUBLIC, &[2u8; 32])
        .unwrap()
        .unwrap();
    assert_eq!(call.method, "submit_envelope");
    assert_eq!(call.args.len(), 4);
    assert!(matches!(&call.args[0], ScValue::Bytes(b) if *b == vec![1u8; 32]));
    assert!(matches!(call.args[2], ScValue::Address(ScAddress::Account(k)) if k == account_key(ANCHOR_B_PUBLIC)));
    assert!(matches!(&call.args[3], ScValue::Bytes(b) if *b == vec![2u8; 32]));

    // A short tx_ref is reported before an unknown recipient.
    let e = submit_envelope_call_for(&cfg, ANCHOR_A_PUBLIC, &[1u8; 2], "bad", &[2u8; 32]).unwrap_err();
    assert_eq!(unexpected(e), "expected exactly 32 bytes");
    // An unknown recipient is reported before a short payload hash.
    let e = submit_envelope_call_for(&cfg, ANCHOR_A_PUBLIC, &[1u8; 32], "bad", &[2u8; 2]).unwrap_err();
    assert!(matches!(e, SdkError::Rpc(m) if m == "\"Unsupported address type\""));
    assert!(submit_envelope_call_checked(&cfg, "bad", &[1u8; 32], ANCHOR_B_PUBLIC, &[2u8; 32]).is_none());
}

#[test]
fn a_sent_address_reads_back_as_the_same_strkey() {
    for text in [ANCHOR_A_PUBLIC, ANCHOR_B_PUBLIC, REGISTRY_ID] {
        let v = address_sc_val(text).unwrap();
        let m = map(vec![entry("sender", v)]);
        assert_eq!(map_get_address(&m, "sender").unwrap(), text);
        assert!(matches!(map_get_address(&m, "recipient"), Err(SdkError::UnexpectedReturnValue(_))));
    }
}

#[test]
fn transaction_outcome_quotes_a_failed_status() {
    assert!(transaction_outcome(true, "Success".to_string()).is_ok());
    match transaction_outcome(false, "Failed".to_string()) {
        Err(SdkError::TransactionFailed(m)) => assert_eq!(m, "Failed"),
        other => panic!("unexpected {other:?}"),
    }
}
