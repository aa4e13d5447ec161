//! The values and services that a contract receives from the ledger host:
//! 32-byte hashes, addresses, the ledger sequence and the set of addresses
//! that authorized the current invocation.

use vstd::prelude::*;

verus! {

broadcast use vstd::array::group_array_axioms;

/// Compares two 32-byte arrays element by element.
pub fn bytes32_equal(a: &[u8; 32], b: &[u8; 32]) -> (r: bool)
    ensures
        r == (*a == *b),
{
    let mut i: usize = 0;
    while i < 32
        invariant
            0 <= i <= 32,
            forall|j: int| 0 <= j < i ==> a[j] == b[j],
        decreases 32 - i,
    {
        if a[i] != b[i] {
            return false;
        }
        i = i + 1;
    }
    assert(*a =~= *b);
    true
}

/// A fixed-size 32-byte value, such as a commitment root, a transaction
/// reference or a payload hash.
#[derive(Clone, Copy, Debug)]
pub struct Bytes32 {
    pub bytes: [u8; 32],
}

impl Bytes32 {
    /// Wraps 32 raw bytes.
    pub fn from_array(bytes: [u8; 32]) -> (r: Bytes32)
        ensures
            r.bytes == bytes,
    {
        Bytes32 { bytes }
    }
}

impl PartialEq for Bytes32 {
    fn eq(&self, other: &Self) -> (r: bool) {
        bytes32_equal(&self.bytes, &other.bytes)
    }
}

impl vstd::std_specs::cmp::PartialEqSpecImpl for Bytes32 {
    open spec fn obeys_eq_spec() -> bool {
        true
    }

    open spec fn eq_spec(&self, other: &Bytes32) -> bool {
        self.bytes == other.bytes
    }
}

/// An address on the ledger: an ed25519 account key or a contract id.
#[derive(Clone, Copy, Debug)]
pub enum Address {
    Account([u8; 32]),
    Contract([u8; 32]),
}

impl PartialEq for Address {
    fn eq(&self, other: &Self) -> (r: bool) {
        match (self, other) {
            (Address::Account(a), Address::Account(b)) => bytes32_equal(a, b),
            (Address::Contract(a), Address::Contract(b)) => bytes32_equal(a, b),
            _ => false,
        }
    }
}

impl vstd::std_specs::cmp::PartialEqSpecImpl for Address {
    open spec fn obeys_eq_spec() -> bool {
        true
    }

    open spec fn eq_spec(&self, other: &Address) -> bool {
        *self == *other
    }
}

/// Keys that can be compared for equality in executable code.
pub trait KeyEq: Sized {
    fn key_eq(&self, other: &Self) -> (r: bool)
        ensures
            r == (*self == *other),
    ;
}

impl KeyEq for Bytes32 {
    fn key_eq(&self, other: &Self) -> (r: bool) {
        bytes32_equal(&self.bytes, &other.bytes)
    }
}

impl KeyEq for Address {
    fn key_eq(&self, other: &Self) -> (r: bool) {
        match (self, other) {
            (Address::Account(a), Address::Account(b)) => bytes32_equal(a, b),
            (Address::Contract(a), Address::Contract(b)) => bytes32_equal(a, b),
            _ => false,
        }
    }
}

/// Which addresses have authorized the current invocation.
#[derive(Debug)]
pub enum Authorizations {
    /// Every address is taken to have authorized the invocation.
    All,
    /// Exactly the listed addresses have authorized the invocation.
    Only(Vec<Address>),
}

/// What a contract invocation learns from the ledger: the sequence number of
/// the ledger it runs in and who authorized it.
#[derive(Debug)]
pub struct Env {
    pub ledger_sequence: u32,
    pub authorizations: Authorizations,
}

impl Env {
    /// An invocation in ledger `ledger_sequence` authorized by exactly `signers`.
    pub fn new(ledger_sequence: u32, signers: Vec<Address>) -> (r: Env)
        ensures
            r.ledger_sequence == ledger_sequence,
            r.authorizations == Authorizations::Only(signers),
    {
        Env { ledger_sequence, authorizations: Authorizations::Only(signers) }
    }

    /// An invocation in ledger `ledger_sequence` that every address authorized.
    pub fn with_all_auths(ledger_sequence: u32) -> (r: Env)
        ensures
            r.ledger_sequence == ledger_sequence,
            r.authorizations == Authorizations::All,
    {
        Env { ledger_sequence, authorizations: Authorizations::All }
    }

    /// Whether `address` authorized the invocation.
    pub open spec fn authorizes(&self, address: Address) -> bool {
        match self.authorizations {
            Authorizations::All => true,
            Authorizations::Only(signers) => signers@.contains(address),
        }
    }

    /// The sequence number of the current ledger.
    pub fn sequence(&self) -> (r: u32)
        ensures
            r == self.ledger_sequence,
    {
        self.ledger_sequence
    }

    /// Checks that `address` authorized the invocation.
    pub fn require_auth(&self, address: &Address) -> (r: bool)
        ensures
            r == self.authorizes(*address),
    {
        match &self.authorizations {
            Authorizations::All => true,
            Authorizations::Only(signers) => {
                let mut i: usize = 0;
                while i < signers.len()
                    invariant
                        0 <= i <= signers@.len(),
                        self.authorizations == Authorizations::Only(*signers),
                        forall|j: int| 0 <= j < i ==> signers@[j] != *address,
                    decreases signers@.len() - i,
                {
                    if signers[i].key_eq(address) {
                        assert(signers@[i as int] == *address);
                        return true;
                    }
                    i = i + 1;
                }
                false
            },
        }
    }
}

/// An invocation that the host aborted because `address` had not authorized it.
#[derive(Clone, Copy, Debug, PartialEq)]
pub struct AuthError {
    pub address: Address,
}

/// Why an invocation failed: the contract returned one of its own errors,
/// or the host aborted it for a missing authorization.
#[derive(Debug, PartialEq)]
pub enum InvokeError<E> {
    Contract(E),
    Auth(AuthError),
}

} // verus!
