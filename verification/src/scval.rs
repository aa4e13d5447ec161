//! The contract values that the SDK sends and reads back: a plain-value
//! form of the ledger's `ScVal` and `ScAddress`, as far as this library
//! reads or writes them.

use vstd::prelude::*;

verus! {

/// An address as the ledger encodes it in a contract value.
#[derive(Clone, Copy, Debug)]
pub enum ScAddress {
    Account([u8; 32]),
    Contract([u8; 32]),
    MuxedAccount { id: u64, ed25519: [u8; 32] },
    ClaimableBalance([u8; 32]),
    LiquidityPool([u8; 32]),
}

/// A contract value. Values of the kinds this library never reads are kept
/// as `Other`, with a description of what they were.
#[derive(Debug)]
pub enum ScValue {
    Void,
    U32(u32),
    Bytes(Vec<u8>),
    Symbol(Vec<u8>),
    Address(ScAddress),
    ScMap(Option<Vec<ScMapEntry>>),
    Other(String),
}

/// One key/value entry of a contract map value, with the ledger's own
/// `Debug` rendering of the value, which error messages quote.
#[derive(Debug)]
pub struct ScMapEntry {
    pub key: ScValue,
    pub val: ScValue,
    pub val_debug: String,
}

/// Whether `value` is the symbol whose bytes are the UTF-8 encoding of `key`.
pub open spec fn is_symbol(value: ScValue, key: Seq<char>) -> bool {
    value matches ScValue::Symbol(b) && b@ == vstd::utf8::encode_utf8(key)
}

/// The first entry, from position `i` on, whose key is the symbol `key`.
pub open spec fn first_entry_with_symbol(entries: Seq<ScMapEntry>, key: Seq<char>, i: int) -> Option<
    ScMapEntry,
>
    decreases entries.len() - i,
{
    if i < 0 || i >= entries.len() {
        None
    } else if is_symbol(entries[i].key, key) {
        Some(entries[i])
    } else {
        first_entry_with_symbol(entries, key, i + 1)
    }
}

/// The entry for field `key` of a map value: its first entry whose key is
/// the symbol `key`; nothing for a value that is not a map.
pub open spec fn field_entry(value: ScValue, key: Seq<char>) -> Option<ScMapEntry> {
    match value {
        ScValue::ScMap(Some(entries)) => first_entry_with_symbol(entries@, key, 0),
        _ => None,
    }
}

/// The field `key` of a map value: the value of its first entry whose key is
/// the symbol `key`; nothing for a value that is not a map.
pub open spec fn field_of(value: ScValue, key: Seq<char>) -> Option<ScValue> {
    match field_entry(value, key) {
        Some(e) => Some(e.val),
        None => None,
    }
}

/// The `Debug` rendering of the optional field `key` of a map value, as the
/// ledger renders it: `None`, or `Some(..)` around the value's own rendering.
pub open spec fn found_text(value: ScValue, key: Seq<char>) -> Seq<char> {
    match field_entry(value, key) {
        Some(e) => "Some("@ + e.val_debug@ + ")"@,
        None => "None"@,
    }
}

/// Compares two byte slices.
pub fn bytes_equal(a: &[u8], b: &[u8]) -> (r: bool)
    ensures
        r == (a@ == b@),
{
    if a.len() != b.len() {
        return false;
    }
    let mut i: usize = 0;
    while i < a.len()
        invariant
            a@.len() == b@.len(),
            0 <= i <= a@.len(),
            forall|j: int| 0 <= j < i ==> a@[j] == b@[j],
        decreases a@.len() - i,
    {
        if a[i] != b[i] {
            return false;
        }
        i = i + 1;
    }
    assert(a@ =~= b@);
    true
}

/// Looks up the field `key` of a map value: the value of the first entry
/// whose key is the symbol `key`.
pub fn map_get<'a>(scval: &'a ScValue, key: &str) -> (r: Option<&'a ScValue>)
    ensures
        match r {
            Some(v) => field_of(*scval, key@) == Some(*v),
            None => field_of(*scval, key@) is None,
        },
{
    match map_get_entry(scval, key) {
        Some(entry) => Some(&entry.val),
        None => None,
    }
}

/// Looks up the entry for field `key` of a map value: the first entry whose
/// key is the symbol `key`.
pub fn map_get_entry<'a>(scval: &'a ScValue, key: &str) -> (r: Option<&'a ScMapEntry>)
    ensures
        match r {
            Some(e) => field_entry(*scval, key@) == Some(*e),
            None => field_entry(*scval, key@) is None,
        },
{
    let key_bytes = key.as_bytes();
    match scval {
        ScValue::ScMap(Some(entries)) => {
            let mut i: usize = 0;
            while i < entries.len()
                invariant
                    0 <= i <= entries@.len(),
                    key_bytes@ == vstd::utf8::encode_utf8(key@),
                    *scval == ScValue::ScMap(Some(*entries)),
                    first_entry_with_symbol(entries@, key@, 0) == first_entry_with_symbol(
                        entries@,
                        key@,
                        i as int,
                    ),
                decreases entries@.len() - i,
            {
                let entry = &entries[i];
                if let ScValue::Symbol(sym) = &entry.key {
                    if bytes_equal(sym.as_slice(), key_bytes) {
                        return Some(entry);
                    }
                }
                i = i + 1;
            }
            None
        },
        _ => None,
    }
}

/// Field `key` of a map value is the value of the first entry whose key is
/// the symbol `key`, whatever follows it; a map with no such entry, and a
/// value that is not a map, has no field `key`.
pub proof fn law_field_is_the_first_entry_with_the_symbol(
    entries: Vec<ScMapEntry>,
    key: Seq<char>,
    i: int,
)
    requires
        0 <= i < entries@.len(),
        is_symbol(entries@[i].key, key),
        forall|j: int| 0 <= j < i ==> !is_symbol(#[trigger] entries@[j].key, key),
    ensures
        field_of(ScValue::ScMap(Some(entries)), key) == Some(entries@[i].val),
{
    lemma_first_entry_from(entries@, key, 0, i);
}

/// A map value none of whose entries has the symbol `key` as key has no field `key`.
pub proof fn law_no_field_without_the_symbol(entries: Vec<ScMapEntry>, key: Seq<char>)
    requires
        forall|j: int| 0 <= j < entries@.len() ==> !is_symbol(#[trigger] entries@[j].key, key),
    ensures
        field_of(ScValue::ScMap(Some(entries)), key) is None,
        field_of(ScValue::ScMap(None), key) is None,
{
    lemma_no_entry_from(entries@, key, 0);
}

proof fn lemma_first_entry_from(entries: Seq<ScMapEntry>, key: Seq<char>, k: int, i: int)
    requires
        0 <= k <= i < entries.len(),
        is_symbol(entries[i].key, key),
        forall|j: int| 0 <= j < i ==> !is_symbol(#[trigger] entries[j].key, key),
    ensures
        first_entry_with_symbol(entries, key, k) == Some(entries[i]),
    decreases i - k,
{
    if k < i {
        assert(!is_symbol(entries[k].key, key));
        lemma_first_entry_from(entries, key, k + 1, i);
    }
}

proof fn lemma_no_entry_from(entries: Seq<ScMapEntry>, key: Seq<char>, k: int)
    requires
        0 <= k,
        forall|j: int| 0 <= j < entries.len() ==> !is_symbol(#[trigger] entries[j].key, key),
    ensures
        first_entry_with_symbol(entries, key, k) is None,
    decreases entries.len() - k,
{
    if k < entries.len() {
        assert(!is_symbol(entries[k].key, key));
        lemma_no_entry_from(entries, key, k + 1);
    }
}

} // verus!
