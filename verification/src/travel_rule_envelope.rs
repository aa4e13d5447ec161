//! Stores only a hash pointer to the encrypted travel-rule payload
//! (originator/beneficiary data), keyed by a transaction reference. The
//! payload itself is exchanged between anchors off-chain. Each transaction
//! reference may be submitted exactly once: a submitted envelope is never
//! overwritten.

use vstd::prelude::*;
use crate::host::{Address, AuthError, Bytes32, Env, InvokeError};
use crate::store::Store;

verus! {

/// The errors that the envelope contract returns.
#[derive(Clone, Copy, Debug, PartialEq, Eq, Structural)]
pub enum Error {
    EnvelopeAlreadySubmitted,
}

/// A submitted envelope: who sent it to whom, the hash of the off-chain
/// payload, and the ledger in which it was submitted.
#[derive(Clone, Copy, Debug, PartialEq)]
pub struct Envelope {
    pub sender: Address,
    pub recipient: Address,
    pub payload_hash: Bytes32,
    pub submitted_at_ledger: u32,
}

/// The envelope contract's storage.
pub struct TravelRuleEnvelopeContract {
    envelopes: Store<Bytes32, Envelope>,
}

/// What `submit_envelope` returns on a state `state`: the sender's missing
/// authorization aborts first, then a reference that was already used is
/// refused.
pub open spec fn submit_outcome(
    state: Map<Bytes32, Envelope>,
    env: Env,
    tx_ref: Bytes32,
    sender: Address,
) -> Result<(), InvokeError<Error>> {
    if !env.authorizes(sender) {
        Err(InvokeError::Auth(AuthError { address: sender }))
    } else if state.contains_key(tx_ref) {
        Err(InvokeError::Contract(Error::EnvelopeAlreadySubmitted))
    } else {
        Ok(())
    }
}

/// The contract's state after `submit_envelope`: the envelope is added when
/// the submission is accepted, and nothing changes otherwise.
pub open spec fn after_submit(
    state: Map<Bytes32, Envelope>,
    env: Env,
    tx_ref: Bytes32,
    sender: Address,
    recipient: Address,
    payload_hash: Bytes32,
) -> Map<Bytes32, Envelope> {
    if submit_outcome(state, env, tx_ref, sender) is Ok {
        state.insert(
            tx_ref,
            Envelope { sender, recipient, payload_hash, submitted_at_ledger: env.ledger_sequence },
        )
    } else {
        state
    }
}

impl View for TravelRuleEnvelopeContract {
    type V = Map<Bytes32, Envelope>;

    closed spec fn view(&self) -> Map<Bytes32, Envelope> {
        self.envelopes@
    }
}

impl TravelRuleEnvelopeContract {
    /// The contract's well-formedness.
    pub closed spec fn wf(&self) -> bool {
        self.envelopes.wf()
    }

    /// A contract that holds no envelope yet.
    pub fn new() -> (r: Self)
        ensures
            r.wf(),
            r@ == Map::<Bytes32, Envelope>::empty(),
    {
        TravelRuleEnvelopeContract { envelopes: Store::new() }
    }

    /// Records the envelope for `tx_ref`, stamped with the current ledger
    /// sequence. The sender must authorize the call, and a `tx_ref` that was
    /// already submitted is refused; on any failure nothing changes.
    pub fn submit_envelope(
        &mut self,
        env: &Env,
        tx_ref: Bytes32,
        sender: Address,
        recipient: Address,
        payload_hash: Bytes32,
    ) -> (r: Result<(), InvokeError<Error>>)
        requires
            old(self).wf(),
        ensures
            final(self).wf(),
            r == submit_outcome(old(self)@, *env, tx_ref, sender),
            final(self)@ == after_submit(
                old(self)@,
                *env,
                tx_ref,
                sender,
                recipient,
                payload_hash,
            ),
    {
        if !env.require_auth(&sender) {
            return Err(InvokeError::Auth(AuthError { address: sender }));
        }
        if self.envelopes.contains_key(&tx_ref) {
            return Err(InvokeError::Contract(Error::EnvelopeAlreadySubmitted));
        }
        let envelope = Envelope {
            sender,
            recipient,
            payload_hash,
            submitted_at_ledger: env.sequence(),
        };
        self.envelopes.insert(tx_ref, envelope);
        Ok(())
    }

    /// The envelope submitted for `tx_ref`, if any.
    pub fn get_envelope(&self, tx_ref: Bytes32) -> (r: Option<Envelope>)
        requires
            self.wf(),
        ensures
            r == (if self@.contains_key(tx_ref) {
                Some(self@[tx_ref])
            } else {
                None
            }),
    {
        match self.envelopes.get(&tx_ref) {
            Some(e) => Some(*e),
            None => None,
        }
    }
}

/// A read after an accepted submission gives back the envelope just
/// submitted, stamped with the ledger of the submission.
pub proof fn law_submit_then_get(
    state: Map<Bytes32, Envelope>,
    env: Env,
    tx_ref: Bytes32,
    sender: Address,
    recipient: Address,
    payload_hash: Bytes32,
)
    requires
        submit_outcome(state, env, tx_ref, sender) is Ok,
    ensures
        after_submit(state, env, tx_ref, sender, recipient, payload_hash).contains_key(tx_ref),
        after_submit(state, env, tx_ref, sender, recipient, payload_hash)[tx_ref] == (Envelope {
            sender,
            recipient,
            payload_hash,
            submitted_at_ledger: env.ledger_sequence,
        }),
{
}

/// A submitted envelope is never overwritten or removed, whatever is
/// submitted afterwards.
pub proof fn law_envelopes_are_never_overwritten(
    state: Map<Bytes32, Envelope>,
    env: Env,
    tx_ref: Bytes32,
    sender: Address,
    recipient: Address,
    payload_hash: Bytes32,
    stored: Bytes32,
)
    requires
        state.contains_key(stored),
    ensures
        after_submit(state, env, tx_ref, sender, recipient, payload_hash).contains_key(stored),
        after_submit(state, env, tx_ref, sender, recipient, payload_hash)[stored] == state[stored],
{
}

/// An authorized resubmission of a used reference is refused with
/// `EnvelopeAlreadySubmitted`.
pub proof fn law_resubmission_is_rejected(
    state: Map<Bytes32, Envelope>,
    env: Env,
    tx_ref: Bytes32,
    sender: Address,
)
    requires
        state.contains_key(tx_ref),
        env.authorizes(sender),
    ensures
        submit_outcome(state, env, tx_ref, sender) == Err::<(), InvokeError<Error>>(
            InvokeError::Contract(Error::EnvelopeAlreadySubmitted),
        ),
{
}

/// The sender's authorization and a fresh reference are all a submission
/// needs: it is then accepted and stores exactly the given envelope; without
/// the sender's authorization it is aborted and nothing changes.
pub proof fn law_authorized_fresh_submission_is_accepted(
    state: Map<Bytes32, Envelope>,
    env: Env,
    tx_ref: Bytes32,
    sender: Address,
    recipient: Address,
    payload_hash: Bytes32,
)
    ensures
        env.authorizes(sender) && !state.contains_key(tx_ref) ==> submit_outcome(
            state,
            env,
            tx_ref,
            sender,
        ) == Ok::<(), InvokeError<Error>>(()) && after_submit(
            state,
            env,
            tx_ref,
            sender,
            recipient,
            payload_hash,
        ) == state.insert(
            tx_ref,
            Envelope { sender, recipient, payload_hash, submitted_at_ledger: env.ledger_sequence },
        ),
        !env.authorizes(sender) ==> submit_outcome(state, env, tx_ref, sender) == Err::<
            (),
            InvokeError<Error>,
        >(InvokeError::Auth(AuthError { address: sender })) && after_submit(
            state,
            env,
            tx_ref,
            sender,
            recipient,
            payload_hash,
        ) == state,
{
}

} // verus!
