//! The client side of the contracts: what the SDK sends to them and how it
//! reads their replies. Building the argument lists and decoding the
//! returned values is done here; the network round trips are done by the
//! caller, which hands the returned values back.

use vstd::prelude::*;
use vstd::string::StringExecFns;
use crate::scval::{field_of, found_text, map_get, map_get_entry, ScAddress, ScValue};
use crate::store::copied;
use crate::strkey::{
    address_strkey, decode_address, encode_address, has_strkey,
    is_secret_seed, is_valid_secret_seed, public_key_from_secret, public_key_of_secret,
    strkey_address,
};

verus! {

/// Where the SDK finds the network and the deployed contracts.
pub struct QuietLedgerConfig {
    pub rpc_url: String,
    pub attestation_registry_contract_id: String,
    pub travel_rule_envelope_contract_id: String,
    pub proof_verifier_contract_id: String,
}

/// The SDK's errors, each with a description.
#[derive(Debug)]
pub enum SdkError {
    Rpc(String),
    Simulation(String),
    TransactionFailed(String),
    UnexpectedReturnValue(String),
}

/// The human-readable text of an error.
pub open spec fn error_text(e: SdkError) -> Seq<char> {
    match e {
        SdkError::Rpc(m) => "rpc error: "@ + m@,
        SdkError::Simulation(m) => "simulation error: "@ + m@,
        SdkError::TransactionFailed(m) => "transaction failed: "@ + m@,
        SdkError::UnexpectedReturnValue(m) => "unexpected return value: "@ + m@,
    }
}

/// `prefix` followed by `text`.
fn prefixed(prefix: &str, text: &str) -> (r: String)
    ensures
        r@ == prefix@ + text@,
{
    prefix.to_owned().concat(text)
}

impl SdkError {
    /// The human-readable text of the error.
    pub fn message(&self) -> (r: String)
        ensures
            r@ == error_text(*self),
    {
        match self {
            SdkError::Rpc(m) => prefixed("rpc error: ", m.as_str()),
            SdkError::Simulation(m) => prefixed("simulation error: ", m.as_str()),
            SdkError::TransactionFailed(m) => prefixed("transaction failed: ", m.as_str()),
            SdkError::UnexpectedReturnValue(m) => prefixed("unexpected return value: ", m.as_str()),
        }
    }
}

/// A commitment as the registry returns it.
#[derive(Debug)]
pub struct Commitment {
    pub root: Vec<u8>,
    pub published_at_ledger: u32,
}

/// An envelope as the envelope contract returns it, with the addresses as strkeys.
#[derive(Debug)]
pub struct Envelope {
    pub sender: String,
    pub recipient: String,
    pub payload_hash: Vec<u8>,
    pub submitted_at_ledger: u32,
}

/// A contract invocation for the caller to carry out.
#[derive(Debug)]
pub struct ContractCall {
    pub contract_id: String,
    pub method: String,
    pub args: Vec<ScValue>,
}

/// The bytes of field `key`, when it holds bytes.
pub open spec fn bytes_field(value: ScValue, key: Seq<char>) -> Option<Seq<u8>> {
    match field_of(value, key) {
        Some(ScValue::Bytes(b)) => Some(b@),
        _ => None,
    }
}

/// The number in field `key`, when it holds a `u32`.
pub open spec fn u32_field(value: ScValue, key: Seq<char>) -> Option<u32> {
    match field_of(value, key) {
        Some(ScValue::U32(n)) => Some(n),
        _ => None,
    }
}

/// The address in field `key`, when it holds an address.
pub open spec fn address_field(value: ScValue, key: Seq<char>) -> Option<ScAddress> {
    match field_of(value, key) {
        Some(ScValue::Address(a)) => Some(a),
        _ => None,
    }
}

/// The strkey of the address in field `key`, when it holds an address that has one.
pub open spec fn address_text_field(value: ScValue, key: Seq<char>) -> Option<Seq<char>> {
    match address_field(value, key) {
        Some(a) => if has_strkey(a) {
            Some(address_strkey(a))
        } else {
            None
        },
        None => None,
    }
}

/// The description of a field that does not hold what was expected.
pub open spec fn mismatch_text(kind: Seq<char>, key: Seq<char>, found: Seq<char>) -> Seq<char> {
    "expected "@ + kind + " for '"@ + key + "', got "@ + found
}

/// Whether `e` reports that field `key` of `value` does not hold a `kind`.
pub open spec fn is_mismatch(e: SdkError, kind: Seq<char>, value: ScValue, key: Seq<char>) -> bool {
    e matches SdkError::UnexpectedReturnValue(m) && m@ == mismatch_text(
        kind,
        key,
        found_text(value, key),
    )
}

/// Whether `e` reports that field `key` of `value` is not an address with a
/// strkey: either it is no address at all, or an address of a kind that
/// has no strkey.
pub open spec fn is_address_error(e: SdkError, value: ScValue, key: Seq<char>) -> bool {
    match address_field(value, key) {
        Some(a) => e matches SdkError::UnexpectedReturnValue(m) && m@
            == "\"Address type not supported\""@,
        None => is_mismatch(e, "address"@, value, key),
    }
}

/// The error for a field `key` of `scval` that does not hold a `kind`,
/// quoting what the field holds.
fn mismatch(kind: &str, key: &str, scval: &ScValue) -> (r: SdkError)
    ensures
        r matches SdkError::UnexpectedReturnValue(m) && m@ == mismatch_text(
            kind@,
            key@,
            found_text(*scval, key@),
        ),
{
    let text = "expected ".to_owned().concat(kind).concat(" for '").concat(key).concat(
        "', got ",
    );
    let text = match map_get_entry(scval, key) {
        Some(entry) => text.concat("Some(").concat(entry.val_debug.as_str()).concat(")"),
        None => text.concat("None"),
    };
    SdkError::UnexpectedReturnValue(text)
}

/// Reads field `key` of a map value as bytes.
pub fn map_get_bytes(scval: &ScValue, key: &str) -> (r: Result<Vec<u8>, SdkError>)
    ensures
        match r {
            Ok(b) => bytes_field(*scval, key@) == Some(b@),
            Err(e) => bytes_field(*scval, key@) is None && is_mismatch(
                e,
                "bytes"@,
                *scval,
                key@,
            ),
        },
        field_of(*scval, key@) matches Some(ScValue::Bytes(v)) ==> r matches Ok(x) && x@ == v@,
{
    let found = map_get(scval, key);
    match found {
        Some(ScValue::Bytes(b)) => Ok(copied(b)),
        _ => Err(mismatch("bytes", key, scval)),
    }
}

/// Reads field `key` of a map value as a `u32`.
pub fn map_get_u32(scval: &ScValue, key: &str) -> (r: Result<u32, SdkError>)
    ensures
        match r {
            Ok(n) => u32_field(*scval, key@) == Some(n),
            Err(e) => u32_field(*scval, key@) is None && is_mismatch(e, "u32"@, *scval, key@),
        },
        r matches Ok(n) ==> field_of(*scval, key@) == Some(ScValue::U32(n)),
        field_of(*scval, key@) matches Some(ScValue::U32(n)) ==> r matches Ok(x) && x == n,
{
    let found = map_get(scval, key);
    match found {
        Some(ScValue::U32(n)) => Ok(*n),
        _ => Err(mismatch("u32", key, scval)),
    }
}

/// Reads field `key` of a map value as an address, rendered as a strkey.
pub fn map_get_address(scval: &ScValue, key: &str) -> (r: Result<String, SdkError>)
    ensures
        match r {
            Ok(s) => address_text_field(*scval, key@) == Some(s@),
            Err(e) => address_text_field(*scval, key@) is None && is_address_error(
                e,
                *scval,
                key@,
            ),
        },
{
    let found = map_get(scval, key);
    match found {
        Some(ScValue::Address(a)) => match encode_address(a) {
            Ok(s) => Ok(s),
            Err(m) => Err(SdkError::UnexpectedReturnValue(m)),
        },
        _ => Err(mismatch("address", key, scval)),
    }
}

/// The argument for a 32-byte value; any other length is refused.
pub fn bytes_sc_val(bytes: &[u8]) -> (r: Result<ScValue, SdkError>)
    ensures
        bytes@.len() == 32 ==> (r matches Ok(ScValue::Bytes(b)) && b@ == bytes@),
        bytes@.len() != 32 ==> (r matches Err(SdkError::UnexpectedReturnValue(m)) && m@
            == "expected exactly 32 bytes"@),
{
    if bytes.len() != 32 {
        return Err(SdkError::UnexpectedReturnValue("expected exactly 32 bytes".to_owned()));
    }
    let mut v: Vec<u8> = Vec::new();
    let mut i: usize = 0;
    while i < bytes.len()
        invariant
            0 <= i <= bytes@.len(),
            v@ == bytes@.subrange(0, i as int),
        decreases bytes@.len() - i,
    {
        v.push(bytes[i]);
        i = i + 1;
        assert(v@ =~= bytes@.subrange(0, i as int));
    }
    assert(v@ =~= bytes@);
    Ok(ScValue::Bytes(v))
}

/// The argument for the address that a strkey denotes; a text that is not
/// an account, contract or muxed-account strkey is refused. The address
/// renders back as the same strkey.
pub fn address_sc_val(public_key: &str) -> (r: Result<ScValue, SdkError>)
    ensures
        match strkey_address(public_key@) {
            Some(a) => r matches Ok(ScValue::Address(x)) && x == a && has_strkey(a)
                && address_strkey(a) == public_key@,
            None => r matches Err(SdkError::Rpc(m)) && m@ == "\"Unsupported address type\""@,
        },
{
    match decode_address(public_key) {
        Ok(a) => Ok(ScValue::Address(a)),
        Err(m) => Err(SdkError::Rpc(m)),
    }
}

/// The outcome of a sent transaction: success when the network reports it
/// succeeded, else a failure quoting the status the network reported.
pub fn transaction_outcome(succeeded: bool, status_debug: String) -> (r: Result<(), SdkError>)
    ensures
        succeeded ==> r is Ok,
        !succeeded ==> r == Err::<(), SdkError>(SdkError::TransactionFailed(status_debug)),
{
    if succeeded {
        Ok(())
    } else {
        Err(SdkError::TransactionFailed(status_debug))
    }
}

/// Reads a commitment returned by the registry: nothing for the void
/// value, else the `root` bytes and the `published_at_ledger` number, in
/// that order.
pub fn decode_commitment(scval: &ScValue) -> (r: Result<Option<Commitment>, SdkError>)
    ensures
        *scval is Void ==> r matches Ok(None),
        !(*scval is Void) ==> match r {
            Ok(Some(c)) => bytes_field(*scval, "root"@) == Some(c.root@) && u32_field(
                *scval,
                "published_at_ledger"@,
            ) == Some(c.published_at_ledger),
            Ok(None) => false,
            Err(e) => if bytes_field(*scval, "root"@) is None {
                is_mismatch(e, "bytes"@, *scval, "root"@)
            } else {
                u32_field(*scval, "published_at_ledger"@) is None && is_mismatch(
                    e,
                    "u32"@,
                    *scval,
                    "published_at_ledger"@,
                )
            },
        },
{
    if let ScValue::Void = scval {
        return Ok(None);
    }
    let root = match map_get_bytes(scval, "root") {
        Ok(b) => b,
        Err(e) => return Err(e),
    };
    let published_at_ledger = match map_get_u32(scval, "published_at_ledger") {
        Ok(n) => n,
        Err(e) => return Err(e),
    };
    Ok(Some(Commitment { root, published_at_ledger }))
}

/// Reads an envelope returned by the envelope contract: nothing for the
/// void value, else the `sender` and `recipient` addresses as strkeys, the
/// `payload_hash` bytes and the `submitted_at_ledger` number, in that order.
pub fn decode_envelope(scval: &ScValue) -> (r: Result<Option<Envelope>, SdkError>)
    ensures
        *scval is Void ==> r matches Ok(None),
        !(*scval is Void) ==> match r {
            Ok(Some(env)) => {
                &&& address_text_field(*scval, "sender"@) == Some(env.sender@)
                &&& address_text_field(*scval, "recipient"@) == Some(env.recipient@)
                &&& bytes_field(*scval, "payload_hash"@) == Some(env.payload_hash@)
                &&& u32_field(*scval, "submitted_at_ledger"@) == Some(env.submitted_at_ledger)
            },
            Ok(None) => false,
            Err(e) => if address_text_field(*scval, "sender"@) is None {
                is_address_error(e, *scval, "sender"@)
            } else if address_text_field(*scval, "recipient"@) is None {
                is_address_error(e, *scval, "recipient"@)
            } else if bytes_field(*scval, "payload_hash"@) is None {
                is_mismatch(e, "bytes"@, *scval, "payload_hash"@)
            } else {
                u32_field(*scval, "submitted_at_ledger"@) is None && is_mismatch(
                    e,
                    "u32"@,
                    *scval,
                    "submitted_at_ledger"@,
                )
            },
        },
{
    if let ScValue::Void = scval {
        return Ok(None);
    }
    let sender = match map_get_address(scval, "sender") {
        Ok(s) => s,
        Err(e) => return Err(e),
    };
    let recipient = match map_get_address(scval, "recipient") {
        Ok(s) => s,
        Err(e) => return Err(e),
    };
    let payload_hash = match map_get_bytes(scval, "payload_hash") {
        Ok(b) => b,
        Err(e) => return Err(e),
    };
    let submitted_at_ledger = match map_get_u32(scval, "submitted_at_ledger") {
        Ok(n) => n,
        Err(e) => return Err(e),
    };
    Ok(Some(Envelope { sender, recipient, payload_hash, submitted_at_ledger }))
}

/// The read of `anchor_public_key`'s current commitment from the registry.
pub fn get_commitment_call(config: &QuietLedgerConfig, anchor_public_key: &str) -> (r: Result<
    ContractCall,
    SdkError,
>)
    ensures
        match strkey_address(anchor_public_key@) {
            Some(a) => r matches Ok(c) && c.contract_id == config.attestation_registry_contract_id
                && c.method@ == "get_commitment"@ && c.args@ == seq![ScValue::Address(a)],
            None => r matches Err(SdkError::Rpc(m)) && m@ == "\"Unsupported address type\""@,
        },
{
    let arg = match address_sc_val(anchor_public_key) {
        Ok(v) => v,
        Err(e) => return Err(e),
    };
    let mut args: Vec<ScValue> = Vec::new();
    args.push(arg);
    Ok(
        ContractCall {
            contract_id: config.attestation_registry_contract_id.clone(),
            method: "get_commitment".to_owned(),
            args,
        },
    )
}

/// The read of the envelope submitted for `tx_ref`; `tx_ref` must be 32 bytes.
pub fn get_envelope_call(config: &QuietLedgerConfig, tx_ref: &[u8]) -> (r: Result<
    ContractCall,
    SdkError,
>)
    ensures
        tx_ref@.len() == 32 ==> (r matches Ok(c) && c.contract_id
            == config.travel_rule_envelope_contract_id && c.method@ == "get_envelope"@
            && c.args@.len() == 1 && (c.args@[0] matches ScValue::Bytes(b) && b@ == tx_ref@)),
        tx_ref@.len() != 32 ==> (r matches Err(SdkError::UnexpectedReturnValue(m)) && m@
            == "expected exactly 32 bytes"@),
{
    let arg = match bytes_sc_val(tx_ref) {
        Ok(v) => v,
        Err(e) => return Err(e),
    };
    let mut args: Vec<ScValue> = Vec::new();
    args.push(arg);
    Ok(
        ContractCall {
            contract_id: config.travel_rule_envelope_contract_id.clone(),
            method: "get_envelope".to_owned(),
            args,
        },
    )
}

/// Whether `c` is the publication of a 32-byte `root` by the anchor at `anchor`.
pub open spec fn is_publish_call(
    c: ContractCall,
    config: QuietLedgerConfig,
    anchor: ScAddress,
    root: Seq<u8>,
) -> bool {
    &&& c.contract_id == config.attestation_registry_contract_id
    &&& c.method@ == "publish_commitment"@
    &&& c.args@.len() == 2
    &&& c.args@[0] == ScValue::Address(anchor)
    &&& c.args@[1] matches ScValue::Bytes(b) && b@ == root
}

/// The publication of `root` as the commitment of the anchor whose public
/// key strkey is `anchor_public_key`; the key must denote an address and
/// `root` must be 32 bytes, checked in that order.
pub fn publish_commitment_call_for(
    config: &QuietLedgerConfig,
    anchor_public_key: &str,
    root: &[u8],
) -> (r: Result<ContractCall, SdkError>)
    ensures
        match strkey_address(anchor_public_key@) {
            None => r matches Err(SdkError::Rpc(m)) && m@ == "\"Unsupported address type\""@,
            Some(a) => if root@.len() == 32 {
                r matches Ok(c) && is_publish_call(c, *config, a, root@)
            } else {
                r matches Err(SdkError::UnexpectedReturnValue(m)) && m@
                    == "expected exactly 32 bytes"@
            },
        },
        r matches Ok(c) ==> c.args@.len() == 2 && c.args@[0] == ScValue::Address(
            strkey_address(anchor_public_key@)->0,
        ) && (c.args@[1] matches ScValue::Bytes(b) && b@ == root@),
{
    let anchor = match address_sc_val(anchor_public_key) {
        Ok(v) => v,
        Err(e) => return Err(e),
    };
    let root_arg = match bytes_sc_val(root) {
        Ok(v) => v,
        Err(e) => return Err(e),
    };
    let mut args: Vec<ScValue> = Vec::new();
    args.push(anchor);
    args.push(root_arg);
    Ok(
        ContractCall {
            contract_id: config.attestation_registry_contract_id.clone(),
            method: "publish_commitment".to_owned(),
            args,
        },
    )
}

/// The publication of `root` as the commitment of the anchor that holds
/// `anchor_secret`: the anchor is the account of the secret's public key.
pub fn publish_commitment_call(
    config: &QuietLedgerConfig,
    anchor_secret: &str,
    root: &[u8],
) -> (r: Result<ContractCall, SdkError>)
    requires
        is_secret_seed(anchor_secret@),
    ensures
        strkey_address(public_key_of_secret(anchor_secret@)) matches Some(ScAddress::Account(_)),
        root@.len() == 32 ==> (r matches Ok(c) && is_publish_call(
            c,
            *config,
            strkey_address(public_key_of_secret(anchor_secret@))->0,
            root@,
        )),
        root@.len() != 32 ==> (r matches Err(SdkError::UnexpectedReturnValue(m)) && m@
            == "expected exactly 32 bytes"@),
        r matches Ok(c) ==> c.args@.len() == 2 && c.args@[0] == ScValue::Address(
            strkey_address(public_key_of_secret(anchor_secret@))->0,
        ) && (c.args@[1] matches ScValue::Bytes(b) && b@ == root@),
{
    let public_key = match public_key_from_secret(anchor_secret) {
        Ok(k) => k,
        Err(m) => return Err(SdkError::Rpc(m)),
    };
    publish_commitment_call_for(config, public_key.as_str(), root)
}

/// [`publish_commitment_call`] for any text: nothing when `anchor_secret`
/// is not a secret seed strkey.
pub fn publish_commitment_call_checked(
    config: &QuietLedgerConfig,
    anchor_secret: &str,
    root: &[u8],
) -> (r: Option<Result<ContractCall, SdkError>>)
    ensures
        r is None <==> !is_secret_seed(anchor_secret@),
        is_secret_seed(anchor_secret@) ==> strkey_address(public_key_of_secret(anchor_secret@))
            matches Some(ScAddress::Account(_)),
        is_secret_seed(anchor_secret@) && root@.len() == 32 ==> (r matches Some(Ok(c))
            && is_publish_call(
            c,
            *config,
            strkey_address(public_key_of_secret(anchor_secret@))->0,
            root@,
        )),
        is_secret_seed(anchor_secret@) && root@.len() != 32 ==> (r matches Some(
            Err(SdkError::UnexpectedReturnValue(m)),
        ) && m@ == "expected exactly 32 bytes"@),
{
    if !is_valid_secret_seed(anchor_secret) {
        return None;
    }
    Some(publish_commitment_call(config, anchor_secret, root))
}

/// Whether `c` is the submission of the envelope for `tx_ref` from `sender`
/// to `recipient` with `payload_hash`.
pub open spec fn is_submit_call(
    c: ContractCall,
    config: QuietLedgerConfig,
    tx_ref: Seq<u8>,
    sender: ScAddress,
    recipient: ScAddress,
    payload_hash: Seq<u8>,
) -> bool {
    &&& c.contract_id == config.travel_rule_envelope_contract_id
    &&& c.method@ == "submit_envelope"@
    &&& c.args@.len() == 4
    &&& c.args@[0] matches ScValue::Bytes(b) && b@ == tx_ref
    &&& c.args@[1] == ScValue::Address(sender)
    &&& c.args@[2] == ScValue::Address(recipient)
    &&& c.args@[3] matches ScValue::Bytes(b) && b@ == payload_hash
}

/// The error that building a submission gives, checking in order that
/// `tx_ref` has 32 bytes, that both strkeys denote addresses and that
/// `payload_hash` has 32 bytes; nothing when all hold.
pub open spec fn submit_call_error(
    tx_ref: Seq<u8>,
    sender_public_key: Seq<char>,
    recipient_public_key: Seq<char>,
    payload_hash: Seq<u8>,
) -> Option<(bool, Seq<char>)> {
    if tx_ref.len() != 32 {
        Some((false, "expected exactly 32 bytes"@))
    } else if strkey_address(sender_public_key) is None {
        Some((true, "\"Unsupported address type\""@))
    } else if strkey_address(recipient_public_key) is None {
        Some((true, "\"Unsupported address type\""@))
    } else if payload_hash.len() != 32 {
        Some((false, "expected exactly 32 bytes"@))
    } else {
        None
    }
}

/// Whether `e` is the error that `submit_call_error` describes: an `Rpc`
/// error when the flag is set, an unexpected-value error otherwise.
pub open spec fn is_error(e: SdkError, described: (bool, Seq<char>)) -> bool {
    if described.0 {
        e matches SdkError::Rpc(m) && m@ == described.1
    } else {
        e matches SdkError::UnexpectedReturnValue(m) && m@ == described.1
    }
}

/// The submission of the envelope for `tx_ref`, sent by the account whose
/// public key strkey is `sender_public_key` to `recipient_public_key`.
pub fn submit_envelope_call_for(
    config: &QuietLedgerConfig,
    sender_public_key: &str,
    tx_ref: &[u8],
    recipient_public_key: &str,
    payload_hash: &[u8],
) -> (r: Result<ContractCall, SdkError>)
    ensures
        match submit_call_error(tx_ref@, sender_public_key@, recipient_public_key@, payload_hash@) {
            Some(d) => r matches Err(e) && is_error(e, d),
            None => r matches Ok(c) && is_submit_call(
                c,
                *config,
                tx_ref@,
                strkey_address(sender_public_key@)->0,
                strkey_address(recipient_public_key@)->0,
                payload_hash@,
            ),
        },
        r matches Ok(c) ==> c.args@.len() == 4 && (c.args@[0] matches ScValue::Bytes(b) && b@
            == tx_ref@) && c.args@[1] == ScValue::Address(strkey_address(sender_public_key@)->0)
            && c.args@[2] == ScValue::Address(strkey_address(recipient_public_key@)->0) && (
        c.args@[3] matches ScValue::Bytes(b) && b@ == payload_hash@),
{
    let tx_ref_arg = match bytes_sc_val(tx_ref) {
        Ok(v) => v,
        Err(e) => return Err(e),
    };
    let sender = match address_sc_val(sender_public_key) {
        Ok(v) => v,
        Err(e) => return Err(e),
    };
    let recipient = match address_sc_val(recipient_public_key) {
        Ok(v) => v,
        Err(e) => return Err(e),
    };
    let payload_arg = match bytes_sc_val(payload_hash) {
        Ok(v) => v,
        Err(e) => return Err(e),
    };
    let mut args: Vec<ScValue> = Vec::new();
    args.push(tx_ref_arg);
    args.push(sender);
    args.push(recipient);
    args.push(payload_arg);
    Ok(
        ContractCall {
            contract_id: config.travel_rule_envelope_contract_id.clone(),
            method: "submit_envelope".to_owned(),
            args,
        },
    )
}

/// The submission of the envelope for `tx_ref`, sent by the account that
/// holds `sender_secret`.
pub fn submit_envelope_call(
    config: &QuietLedgerConfig,
    sender_secret: &str,
    tx_ref: &[u8],
    recipient_public_key: &str,
    payload_hash: &[u8],
) -> (r: Result<ContractCall, SdkError>)
    requires
        is_secret_seed(sender_secret@),
    ensures
        strkey_address(public_key_of_secret(sender_secret@)) matches Some(ScAddress::Account(_)),
        match submit_call_error(
            tx_ref@,
            public_key_of_secret(sender_secret@),
            recipient_public_key@,
            payload_hash@,
        ) {
            Some(d) => r matches Err(e) && is_error(e, d),
            None => r matches Ok(c) && is_submit_call(
                c,
                *config,
                tx_ref@,
                strkey_address(public_key_of_secret(sender_secret@))->0,
                strkey_address(recipient_public_key@)->0,
                payload_hash@,
            ),
        },
        r matches Ok(c) ==> c.args@.len() == 4 && (c.args@[0] matches ScValue::Bytes(b) && b@
            == tx_ref@) && c.args@[1] == ScValue::Address(
            strkey_address(public_key_of_secret(sender_secret@))->0,
        ) && c.args@[2] == ScValue::Address(strkey_address(recipient_public_key@)->0) && (
        c.args@[3] matches ScValue::Bytes(b) && b@ == payload_hash@),
{
    let public_key = match public_key_from_secret(sender_secret) {
        Ok(k) => k,
        Err(m) => return Err(SdkError::Rpc(m)),
    };
    submit_envelope_call_for(config, public_key.as_str(), tx_ref, recipient_public_key, payload_hash)
}

/// [`submit_envelope_call`] for any text: nothing when `sender_secret` is
/// not a secret seed strkey.
pub fn submit_envelope_call_checked(
    config: &QuietLedgerConfig,
    sender_secret: &str,
    tx_ref: &[u8],
    recipient_public_key: &str,
    payload_hash: &[u8],
) -> (r: Option<Result<ContractCall, SdkError>>)
    ensures
        r is None <==> !is_secret_seed(sender_secret@),
        is_secret_seed(sender_secret@) ==> strkey_address(public_key_of_secret(sender_secret@))
            matches Some(ScAddress::Account(_)),
        is_secret_seed(sender_secret@) ==> match submit_call_error(
            tx_ref@,
            public_key_of_secret(sender_secret@),
            recipient_public_key@,
            payload_hash@,
        ) {
            Some(d) => r matches Some(Err(e)) && is_error(e, d),
            None => r matches Some(Ok(c)) && is_submit_call(
                c,
                *config,
                tx_ref@,
                strkey_address(public_key_of_secret(sender_secret@))->0,
                strkey_address(recipient_public_key@)->0,
                payload_hash@,
            ),
        },
{
    if !is_valid_secret_seed(sender_secret) {
        return None;
    }
    Some(submit_envelope_call(config, sender_secret, tx_ref, recipient_public_key, payload_hash))
}

/// An address sent in a field reads back as its strkey: when field `key` of
/// a value holds an address of a kind that has a strkey, reading the field
/// as an address gives that strkey. With [`address_sc_val`], whose address
/// renders back as the text it was decoded from, a sent strkey reads back
/// unchanged.
pub proof fn law_address_field_reads_back(value: ScValue, key: Seq<char>, address: ScAddress)
    requires
        field_of(value, key) == Some(ScValue::Address(address)),
        has_strkey(address),
    ensures
        address_text_field(value, key) == Some(address_strkey(address)),
{
}

/// Reading a field as bytes, a `u32` or an address gives exactly what the
/// field holds: its bytes in order, its number unchanged, its address; a
/// field of another kind, or no field, gives nothing.
pub proof fn law_typed_fields_are_what_the_field_holds(value: ScValue, key: Seq<char>)
    ensures
        forall|n: u32| field_of(value, key) == Some(ScValue::U32(n)) ==> u32_field(value, key)
            == Some(n),
        forall|b: Vec<u8>| field_of(value, key) == Some(ScValue::Bytes(b)) ==> bytes_field(
            value,
            key,
        ) == Some(b@),
        forall|a: ScAddress| field_of(value, key) == Some(ScValue::Address(a)) ==> address_field(
            value,
            key,
        ) == Some(a),
        !(field_of(value, key) matches Some(ScValue::U32(_))) ==> u32_field(value, key) is None,
        !(field_of(value, key) matches Some(ScValue::Bytes(_))) ==> bytes_field(value, key) is None,
        !(field_of(value, key) matches Some(ScValue::Address(_))) ==> address_field(value, key)
            is None,
{
}

/// A publication call sends, in this order, the anchor's address and the
/// root bytes as given, to the registry's `publish_commitment`.
pub proof fn law_publish_call_sends_anchor_then_root(
    c: ContractCall,
    config: QuietLedgerConfig,
    anchor: ScAddress,
    root: Seq<u8>,
)
    requires
        is_publish_call(c, config, anchor, root),
    ensures
        c.contract_id == config.attestation_registry_contract_id,
        c.method@ == "publish_commitment"@,
        c.args@.len() == 2,
        c.args@[0] == ScValue::Address(anchor),
        c.args@[1] matches ScValue::Bytes(b) && b@ == root,
{
}

/// A submission call sends, in this order, the transaction reference, the
/// sender's address, the recipient's address and the payload hash, to the
/// envelope contract's `submit_envelope`.
pub proof fn law_submit_call_sends_its_arguments_in_order(
    c: ContractCall,
    config: QuietLedgerConfig,
    tx_ref: Seq<u8>,
    sender: ScAddress,
    recipient: ScAddress,
    payload_hash: Seq<u8>,
)
    requires
        is_submit_call(c, config, tx_ref, sender, recipient, payload_hash),
    ensures
        c.contract_id == config.travel_rule_envelope_contract_id,
        c.method@ == "submit_envelope"@,
        c.args@.len() == 4,
        c.args@[0] matches ScValue::Bytes(b) && b@ == tx_ref,
        c.args@[1] == ScValue::Address(sender),
        c.args@[2] == ScValue::Address(recipient),
        c.args@[3] matches ScValue::Bytes(b) && b@ == payload_hash,
{
}

/// With every argument valid, the submission call is built, and it carries
/// the sender's and the recipient's addresses in their own places.
pub proof fn law_valid_submission_is_built(
    tx_ref: Seq<u8>,
    sender_public_key: Seq<char>,
    recipient_public_key: Seq<char>,
    payload_hash: Seq<u8>,
)
    requires
        tx_ref.len() == 32,
        payload_hash.len() == 32,
        strkey_address(sender_public_key) is Some,
        strkey_address(recipient_public_key) is Some,
    ensures
        submit_call_error(tx_ref, sender_public_key, recipient_public_key, payload_hash) is None,
{
}

} // verus!
