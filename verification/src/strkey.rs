//! Stellar's text encoding of keys and addresses ("G...", "C...", "M...",
//! "S..."), done by the `soroban_client` and `stellar_strkey` crates. The
//! encodings themselves (base32 with a version byte and a CRC16 checksum)
//! are not restated here: their results are named.

use vstd::prelude::*;
use soroban_client::address::{Address as ClientAddress, AddressTrait};
use soroban_client::keypair::{Keypair, KeypairBehavior};
use soroban_client::xdr::{
    AccountId, ClaimableBalanceId, ContractId, Hash as XdrHash, MuxedEd25519Account, PoolId, PublicKey,
    ScAddress as XdrAddress, Uint256,
};
use crate::scval::ScAddress;

verus! {

/// The address that a strkey text denotes, if it is an account ("G..."),
/// contract ("C...") or muxed account ("M...") strkey.
pub uninterp spec fn strkey_address(text: Seq<char>) -> Option<ScAddress>;

/// The strkey text of an account, contract or muxed-account address.
pub uninterp spec fn address_strkey(address: ScAddress) -> Seq<char>;

/// Whether a text is a well-formed ed25519 secret seed strkey ("S...").
pub uninterp spec fn is_secret_seed(text: Seq<char>) -> bool;

/// The account strkey ("G...") of the public key derived from a secret seed.
pub uninterp spec fn public_key_of_secret(secret: Seq<char>) -> Seq<char>;

/// The kinds of address that have a strkey text.
pub open spec fn has_strkey(address: ScAddress) -> bool {
    ||| address is Account
    ||| address is Contract
    ||| address is MuxedAccount
}

/// Parses a strkey with `soroban_client::address::Address::new` and reads the
/// result back as a ledger address with `to_sc_address`. The contract claims:
/// success exactly for account, contract and muxed-account strkeys, giving
/// the address the text denotes, whose strkey is the text itself (the
/// base32 decoding of `stellar_strkey` rejects non-canonical texts and every
/// payload length other than the kind's own, so encoding the decoded
/// address gives the text back); otherwise the error that `Address::new`
/// returns, rendered with `Debug`.
#[verifier::external_body]
pub(crate) fn decode_address(text: &str) -> (r: Result<ScAddress, String>)
    ensures
        match r {
            Ok(a) => strkey_address(text@) == Some(a) && has_strkey(a) && address_strkey(a)
                == text@,
            Err(m) => strkey_address(text@) is None && m@ == "\"Unsupported address type\""@,
        },
{
    let parsed = match ClientAddress::new(text) {
        Ok(a) => a.to_sc_address(),
        Err(e) => return Err(format!("{e:?}")),
    };
    match parsed {
        Ok(XdrAddress::Account(AccountId(PublicKey::PublicKeyTypeEd25519(k)))) => Ok(ScAddress::Account(k.0)),
        Ok(XdrAddress::Contract(ContractId(h))) => Ok(ScAddress::Contract(h.0)),
        Ok(XdrAddress::MuxedAccount(m)) => Ok(ScAddress::MuxedAccount { id: m.id, ed25519: m.ed25519.0 }),
        other => Err(format!("{other:?}")),
    }
}

/// Renders a ledger address as a strkey with
/// `soroban_client::address::Address::from_sc_address` and `to_string`. The
/// contract claims: account, contract and muxed-account addresses give their
/// strkey; claimable-balance and liquidity-pool addresses give the error
/// that `from_sc_address` returns, rendered with `Debug`.
#[verifier::external_body]
pub(crate) fn encode_address(address: &ScAddress) -> (r: Result<String, String>)
    ensures
        match r {
            Ok(s) => has_strkey(*address) && s@ == address_strkey(*address),
            Err(m) => !has_strkey(*address) && m@ == "\"Address type not supported\""@,
        },
{
    let x = match *address {
        ScAddress::Account(k) => XdrAddress::Account(AccountId(PublicKey::PublicKeyTypeEd25519(Uint256(k)))),
        ScAddress::Contract(h) => XdrAddress::Contract(ContractId(XdrHash(h))),
        ScAddress::MuxedAccount { id, ed25519 } => XdrAddress::MuxedAccount(MuxedEd25519Account { id, ed25519: Uint256(ed25519) }),
        ScAddress::ClaimableBalance(h) => XdrAddress::ClaimableBalance(ClaimableBalanceId::ClaimableBalanceIdTypeV0(XdrHash(h))),
        ScAddress::LiquidityPool(h) => XdrAddress::LiquidityPool(PoolId(XdrHash(h))),
    };
    match ClientAddress::from_sc_address(&x) {
        Ok(a) => Ok(a.to_string()),
        Err(e) => Err(format!("{e:?}")),
    }
}

/// Tells whether a text is an ed25519 secret seed strkey, with
/// `stellar_strkey::ed25519::PrivateKey::from_string`. The contract names the
/// answer.
#[verifier::external_body]
pub(crate) fn is_valid_secret_seed(text: &str) -> (r: bool)
    ensures
        r == is_secret_seed(text@),
{
    stellar_strkey::ed25519::PrivateKey::from_string(text).is_ok()
}

/// Derives the account strkey of a secret seed with
/// `soroban_client::keypair::Keypair::from_secret` and `public_key`. That
/// function panics on a text that is not a secret seed, which the
/// precondition rules out. The contract claims what the source shows for a
/// secret seed: `from_secret` succeeds (its only error is for a seed longer
/// than 32 bytes), and `public_key` renders the derived key as an account
/// strkey, which denotes an account address.
#[verifier::external_body]
pub(crate) fn public_key_from_secret(secret: &str) -> (r: Result<String, String>)
    requires
        is_secret_seed(secret@),
    ensures
        match r {
            Ok(s) => s@ == public_key_of_secret(secret@) && strkey_address(s@) matches Some(
                ScAddress::Account(_),
            ),
            Err(_) => false,
        },
{
    match Keypair::from_secret(secret) {
        Ok(k) => Ok(k.public_key()),
        Err(e) => Err(format!("{e:?}")),
    }
}

} // verus!
