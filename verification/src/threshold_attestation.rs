//! k-of-n institutional co-signer attestation, checked the way a native
//! multisig check works. Each provided co-signer must (a) be a member of the
//! registered signer set, (b) appear at most once, and (c) authorize the
//! call. Meeting the threshold with fewer than `threshold` authorizing
//! signers is rejected, and a statement may be attested only once.

use vstd::prelude::*;
use crate::host::{Address, AuthError, Bytes32, Env, InvokeError, KeyEq};
use crate::store::{copied, Store};

verus! {

/// The errors that the threshold attestation contract returns.
#[derive(Clone, Copy, Debug, PartialEq, Eq, Structural)]
pub enum Error {
    AlreadyInitialized,
    NotInitialized,
    InvalidThreshold,
    UnknownSigner,
    DuplicateSigner,
    ThresholdNotMet,
    AlreadyAttested,
}

/// The registered signer set and the number of co-signers an attestation needs.
#[derive(Clone, Debug)]
pub struct Config {
    pub signers: Vec<Address>,
    pub threshold: u32,
}

/// The co-signers that attested a statement and the ledger in which they did.
#[derive(Clone, Debug)]
pub struct AttestationRecord {
    pub co_signers: Vec<Address>,
    pub recorded_at_ledger: u32,
}

/// The mathematical form of a [`Config`].
pub struct ConfigView {
    pub signers: Seq<Address>,
    pub threshold: u32,
}

/// The mathematical form of an [`AttestationRecord`].
pub struct RecordView {
    pub co_signers: Seq<Address>,
    pub recorded_at_ledger: u32,
}

impl View for Config {
    type V = ConfigView;

    open spec fn view(&self) -> ConfigView {
        ConfigView { signers: self.signers@, threshold: self.threshold }
    }
}

impl View for AttestationRecord {
    type V = RecordView;

    open spec fn view(&self) -> RecordView {
        RecordView { co_signers: self.co_signers@, recorded_at_ledger: self.recorded_at_ledger }
    }
}

/// What the contract holds: its configuration, once initialized, and the
/// attestation recorded for each statement hash.
pub struct ThresholdState {
    pub config: Option<ConfigView>,
    pub attestations: Map<Bytes32, RecordView>,
}

/// The contract's storage.
pub struct ThresholdAttestationContract {
    config: Option<Config>,
    attestations: Store<Bytes32, AttestationRecord>,
}

/// A configuration's threshold is at least one and at most the number of signers.
pub open spec fn valid_config(config: ConfigView) -> bool {
    1 <= config.threshold <= config.signers.len()
}

/// Every configuration the contract holds is valid.
pub open spec fn valid_state(state: ThresholdState) -> bool {
    state.config matches Some(c) ==> valid_config(c)
}

/// What `initialize` returns on `state`.
pub open spec fn initialize_outcome(
    state: ThresholdState,
    signers: Seq<Address>,
    threshold: u32,
) -> Result<(), Error> {
    if state.config is Some {
        Err(Error::AlreadyInitialized)
    } else if threshold == 0 || threshold > signers.len() {
        Err(Error::InvalidThreshold)
    } else {
        Ok(())
    }
}

/// Whether the co-signer at `i` occurs again later in `co_signers`.
pub open spec fn occurs_later(co_signers: Seq<Address>, i: int) -> bool {
    exists|j: int| i < j < co_signers.len() && co_signers[j] == co_signers[i]
}

/// Why the co-signer at `i` fails the checks, if it does: it is not
/// registered, it occurs again later, or it did not authorize the call.
pub open spec fn signer_failure(
    signers: Seq<Address>,
    co_signers: Seq<Address>,
    env: Env,
    i: int,
) -> Option<InvokeError<Error>> {
    if !signers.contains(co_signers[i]) {
        Some(InvokeError::Contract(Error::UnknownSigner))
    } else if occurs_later(co_signers, i) {
        Some(InvokeError::Contract(Error::DuplicateSigner))
    } else if !env.authorizes(co_signers[i]) {
        Some(InvokeError::Auth(AuthError { address: co_signers[i] }))
    } else {
        None
    }
}

/// The failure of the first co-signer, from position `i` on, that fails the checks.
pub open spec fn first_failure(
    signers: Seq<Address>,
    co_signers: Seq<Address>,
    env: Env,
    i: int,
) -> Option<InvokeError<Error>>
    decreases co_signers.len() - i,
{
    if i < 0 || i >= co_signers.len() {
        None
    } else {
        match signer_failure(signers, co_signers, env, i) {
            Some(e) => Some(e),
            None => first_failure(signers, co_signers, env, i + 1),
        }
    }
}

/// What `submit_attestation` returns on `state`.
pub open spec fn attestation_outcome(
    state: ThresholdState,
    env: Env,
    statement_hash: Bytes32,
    co_signers: Seq<Address>,
) -> Result<(), InvokeError<Error>> {
    match state.config {
        None => Err(InvokeError::Contract(Error::NotInitialized)),
        Some(config) => if state.attestations.contains_key(statement_hash) {
            Err(InvokeError::Contract(Error::AlreadyAttested))
        } else {
            match first_failure(config.signers, co_signers, env, 0) {
                Some(e) => Err(e),
                None => if co_signers.len() < config.threshold {
                    Err(InvokeError::Contract(Error::ThresholdNotMet))
                } else {
                    Ok(())
                },
            }
        },
    }
}

/// The state after `submit_attestation`: the record is added when the
/// attestation is accepted, and nothing changes otherwise.
pub open spec fn after_attestation(
    state: ThresholdState,
    env: Env,
    statement_hash: Bytes32,
    co_signers: Seq<Address>,
) -> ThresholdState {
    if attestation_outcome(state, env, statement_hash, co_signers) is Ok {
        ThresholdState {
            config: state.config,
            attestations: state.attestations.insert(
                statement_hash,
                RecordView { co_signers, recorded_at_ledger: env.ledger_sequence },
            ),
        }
    } else {
        state
    }
}

/// The state after `initialize`.
pub open spec fn after_initialize(
    state: ThresholdState,
    signers: Seq<Address>,
    threshold: u32,
) -> ThresholdState {
    if initialize_outcome(state, signers, threshold) is Ok {
        ThresholdState {
            config: Some(ConfigView { signers, threshold }),
            attestations: state.attestations,
        }
    } else {
        state
    }
}

/// Whether `v` holds `a`.
fn contains_address(v: &Vec<Address>, a: &Address) -> (r: bool)
    ensures
        r == v@.contains(*a),
{
    let mut i: usize = 0;
    while i < v.len()
        invariant
            0 <= i <= v@.len(),
            forall|j: int| 0 <= j < i ==> v@[j] != *a,
        decreases v@.len() - i,
    {
        if v[i].key_eq(a) {
            assert(v@[i as int] == *a);
            return true;
        }
        i = i + 1;
    }
    false
}

/// Whether the element at `i` occurs again later in `v`.
fn occurs_after(v: &Vec<Address>, i: usize) -> (r: bool)
    requires
        i < v.len(),
    ensures
        r == occurs_later(v@, i as int),
{
    let mut j: usize = i + 1;
    while j < v.len()
        invariant
            i < j <= v@.len(),
            forall|k: int| i < k < j ==> v@[k] != v@[i as int],
        decreases v@.len() - j,
    {
        if v[j].key_eq(&v[i]) {
            return true;
        }
        j = j + 1;
    }
    false
}

impl View for ThresholdAttestationContract {
    type V = ThresholdState;

    closed spec fn view(&self) -> ThresholdState {
        ThresholdState {
            config: match self.config {
                Some(c) => Some(c@),
                None => None,
            },
            attestations: self.attestations@.map_values(|r: AttestationRecord| r@),
        }
    }
}

impl ThresholdAttestationContract {
    /// The contract's well-formedness.
    pub closed spec fn wf(&self) -> bool {
        &&& self.attestations.wf()
        &&& valid_state(self@)
    }

    /// A well-formed contract holds a valid configuration, if any: a
    /// threshold of at least one and at most the number of signers.
    pub proof fn lemma_wf_config_is_valid(&self)
        requires
            self.wf(),
        ensures
            valid_state(self@),
    {
    }

    /// A contract that is neither initialized nor holds any attestation.
    pub fn new() -> (r: Self)
        ensures
            r.wf(),
            valid_state(r@),
            r@.config is None,
            r@.attestations == Map::<Bytes32, RecordView>::empty(),
    {
        let r = ThresholdAttestationContract { config: None, attestations: Store::new() };
        assert(r@.attestations =~= Map::<Bytes32, RecordView>::empty());
        r
    }

    /// Registers the signer set and the threshold, once. The threshold must
    /// be at least one and at most the number of signers.
    pub fn initialize(&mut self, signers: Vec<Address>, threshold: u32) -> (r: Result<(), Error>)
        requires
            old(self).wf(),
        ensures
            final(self).wf(),
            valid_state(final(self)@),
            r == initialize_outcome(old(self)@, signers@, threshold),
            final(self)@ == after_initialize(old(self)@, signers@, threshold),
    {
        if self.config.is_some() {
            return Err(Error::AlreadyInitialized);
        }
        if threshold == 0 || threshold as usize > signers.len() {
            return Err(Error::InvalidThreshold);
        }
        let ghost old_view = self@;
        self.config = Some(Config { signers, threshold });
        assert(self@.attestations == old_view.attestations);
        Ok(())
    }

    /// Records that `co_signers`, each of whom must authorize this call,
    /// jointly attest to `statement_hash`. A statement may be attested
    /// only once; on any failure nothing changes.
    pub fn submit_attestation(
        &mut self,
        env: &Env,
        statement_hash: Bytes32,
        co_signers: Vec<Address>,
    ) -> (r: Result<(), InvokeError<Error>>)
        requires
            old(self).wf(),
        ensures
            final(self).wf(),
            valid_state(final(self)@),
            r == attestation_outcome(old(self)@, *env, statement_hash, co_signers@),
            final(self)@ == after_attestation(old(self)@, *env, statement_hash, co_signers@),
    {
        let threshold = match &self.config {
            None => {
                return Err(InvokeError::Contract(Error::NotInitialized));
            },
            Some(config) => {
                if self.attestations.contains_key(&statement_hash) {
                    return Err(InvokeError::Contract(Error::AlreadyAttested));
                }
                let ghost signers_view = config.signers@;
                let n = co_signers.len();
                let mut i: usize = 0;
                #[verifier::loop_isolation(false)]
                while i < n
                    invariant
                        n == co_signers@.len(),
                        0 <= i <= n,
                        config.signers@ == signers_view,
                        first_failure(signers_view, co_signers@, *env, 0) == first_failure(
                            signers_view,
                            co_signers@,
                            *env,
                            i as int,
                        ),
                    decreases n - i,
                {
                    let signer = &co_signers[i];
                    if !contains_address(&config.signers, signer) {
                        return Err(InvokeError::Contract(Error::UnknownSigner));
                    }
                    if occurs_after(&co_signers, i) {
                        return Err(InvokeError::Contract(Error::DuplicateSigner));
                    }
                    if !env.require_auth(signer) {
                        return Err(InvokeError::Auth(AuthError { address: *signer }));
                    }
                    i = i + 1;
                }
                config.threshold
            },
        };
        if co_signers.len() < threshold as usize {
            return Err(InvokeError::Contract(Error::ThresholdNotMet));
        }
        let ghost old_view = self@;
        let record = AttestationRecord { co_signers, recorded_at_ledger: env.sequence() };
        self.attestations.insert(statement_hash, record);
        assert(self@.attestations =~= old_view.attestations.insert(
            statement_hash,
            RecordView { co_signers: record@.co_signers, recorded_at_ledger: env.ledger_sequence },
        ));
        Ok(())
    }

    /// The attestation recorded for `statement_hash`, if any.
    pub fn get_attestation(&self, statement_hash: Bytes32) -> (r: Option<AttestationRecord>)
        requires
            self.wf(),
        ensures
            match r {
                Some(record) => self@.attestations.contains_key(statement_hash) && record@
                    == self@.attestations[statement_hash],
                None => !self@.attestations.contains_key(statement_hash),
            },
    {
        match self.attestations.get(&statement_hash) {
            Some(record) => Some(
                AttestationRecord {
                    co_signers: copied(&record.co_signers),
                    recorded_at_ledger: record.recorded_at_ledger,
                },
            ),
            None => None,
        }
    }
}

/// When no co-signer from position `i` on fails the checks, each of them is
/// registered, occurs only once from there on, and authorized the call.
proof fn lemma_no_failure_from(signers: Seq<Address>, co_signers: Seq<Address>, env: Env, i: int)
    requires
        0 <= i,
        first_failure(signers, co_signers, env, i) is None,
    ensures
        forall|k: int|
            i <= k < co_signers.len() ==> #[trigger] signer_failure(signers, co_signers, env, k)
                is None,
    decreases co_signers.len() - i,
{
    if i < co_signers.len() {
        lemma_no_failure_from(signers, co_signers, env, i + 1);
    }
}

/// An accepted attestation has at least `threshold` co-signers, all of them
/// registered, pairwise distinct and authorizing the call, and its statement
/// had not been attested before: a signer listed twice never counts twice,
/// and fewer than `threshold` authorizing signers never suffice.
pub proof fn law_accepted_attestation_is_an_authorized_quorum(
    state: ThresholdState,
    env: Env,
    statement_hash: Bytes32,
    co_signers: Seq<Address>,
)
    requires
        attestation_outcome(state, env, statement_hash, co_signers) is Ok,
    ensures
        state.config is Some,
        !state.attestations.contains_key(statement_hash),
        co_signers.no_duplicates(),
        forall|i: int|
            0 <= i < co_signers.len() ==> state.config->0.signers.contains(#[trigger] co_signers[i])
                && env.authorizes(co_signers[i]),
        co_signers.len() >= state.config->0.threshold,
        co_signers.to_set().len() >= state.config->0.threshold,
{
    let config = state.config->0;
    lemma_no_failure_from(config.signers, co_signers, env, 0);
    assert forall|i: int| 0 <= i < co_signers.len() implies config.signers.contains(
        #[trigger] co_signers[i],
    ) && env.authorizes(co_signers[i]) by {
        assert(signer_failure(config.signers, co_signers, env, i) is None);
    }
    assert forall|i: int, j: int|
        0 <= i < co_signers.len() && 0 <= j < co_signers.len() && i != j implies co_signers[i]
        != co_signers[j] by {
        if i < j {
            assert(signer_failure(config.signers, co_signers, env, i) is None);
            assert(!occurs_later(co_signers, i));
        } else {
            assert(signer_failure(config.signers, co_signers, env, j) is None);
            assert(!occurs_later(co_signers, j));
        }
    }
    co_signers.unique_seq_to_set();
}

/// A list of co-signers that names someone twice is never accepted.
pub proof fn law_duplicate_co_signers_are_rejected(
    state: ThresholdState,
    env: Env,
    statement_hash: Bytes32,
    co_signers: Seq<Address>,
)
    requires
        !co_signers.no_duplicates(),
    ensures
        attestation_outcome(state, env, statement_hash, co_signers) is Err,
        after_attestation(state, env, statement_hash, co_signers) == state,
{
    if attestation_outcome(state, env, statement_hash, co_signers) is Ok {
        law_accepted_attestation_is_an_authorized_quorum(state, env, statement_hash, co_signers);
    }
}

/// A recorded attestation is never replaced or removed, and the
/// configuration never changes after it is set.
pub proof fn law_attestations_are_write_once(
    state: ThresholdState,
    env: Env,
    statement_hash: Bytes32,
    co_signers: Seq<Address>,
    recorded: Bytes32,
)
    requires
        state.attestations.contains_key(recorded),
    ensures
        after_attestation(state, env, statement_hash, co_signers).attestations.contains_key(
            recorded,
        ),
        after_attestation(state, env, statement_hash, co_signers).attestations[recorded]
            == state.attestations[recorded],
        after_attestation(state, env, statement_hash, co_signers).config == state.config,
{
}

/// A second initialization is refused with `AlreadyInitialized` and changes nothing.
pub proof fn law_initialize_only_once(state: ThresholdState, signers: Seq<Address>, threshold: u32)
    requires
        state.config is Some,
    ensures
        initialize_outcome(state, signers, threshold) == Err::<(), Error>(
            Error::AlreadyInitialized,
        ),
        after_initialize(state, signers, threshold) == state,
{
}

/// Every operation keeps the configuration valid: a threshold of at least
/// one and at most the number of registered signers.
pub proof fn law_operations_keep_the_config_valid(
    state: ThresholdState,
    env: Env,
    statement_hash: Bytes32,
    co_signers: Seq<Address>,
    signers: Seq<Address>,
    threshold: u32,
)
    requires
        valid_state(state),
    ensures
        valid_state(after_initialize(state, signers, threshold)),
        valid_state(after_attestation(state, env, statement_hash, co_signers)),
{
}

/// When every co-signer from position `i` on is registered, occurs only
/// once and authorized the call, none of them fails the checks.
proof fn lemma_all_pass_from(signers: Seq<Address>, co_signers: Seq<Address>, env: Env, i: int)
    requires
        0 <= i,
        co_signers.no_duplicates(),
        forall|k: int|
            0 <= k < co_signers.len() ==> signers.contains(#[trigger] co_signers[k])
                && env.authorizes(co_signers[k]),
    ensures
        first_failure(signers, co_signers, env, i) is None,
    decreases co_signers.len() - i,
{
    if i < co_signers.len() {
        assert(!occurs_later(co_signers, i)) by {
            if occurs_later(co_signers, i) {
                let j = choose|j: int| i < j < co_signers.len() && co_signers[j] == co_signers[i];
                assert(co_signers[j] == co_signers[i]);
            }
        }
        assert(signers.contains(co_signers[i]) && env.authorizes(co_signers[i]));
        lemma_all_pass_from(signers, co_signers, env, i + 1);
    }
}

/// k-of-n: on an initialized contract, a statement not yet attested is
/// accepted whenever its co-signers are pairwise distinct, registered,
/// authorizing, and at least `threshold` many, whatever the number of
/// registered signers; the record then holds exactly those co-signers and
/// the ledger sequence of the call.
pub proof fn law_authorized_quorum_is_accepted(
    state: ThresholdState,
    env: Env,
    statement_hash: Bytes32,
    co_signers: Seq<Address>,
)
    requires
        state.config is Some,
        !state.attestations.contains_key(statement_hash),
        co_signers.no_duplicates(),
        forall|i: int|
            0 <= i < co_signers.len() ==> state.config->0.signers.contains(#[trigger] co_signers[i])
                && env.authorizes(co_signers[i]),
        co_signers.len() >= state.config->0.threshold,
    ensures
        attestation_outcome(state, env, statement_hash, co_signers) == Ok::<
            (),
            InvokeError<Error>,
        >(()),
        after_attestation(state, env, statement_hash, co_signers).attestations.contains_key(
            statement_hash,
        ),
        after_attestation(state, env, statement_hash, co_signers).attestations[statement_hash]
            == (RecordView { co_signers, recorded_at_ledger: env.ledger_sequence }),
        after_attestation(state, env, statement_hash, co_signers).config == state.config,
{
    lemma_all_pass_from(state.config->0.signers, co_signers, env, 0);
}

/// On an uninitialized contract, every threshold from one to the number of
/// signers is accepted and stored with the signers as given; a threshold
/// of zero or above the number of signers is refused with
/// `InvalidThreshold` and nothing is stored.
pub proof fn law_initialize_accepts_every_threshold_in_range(
    state: ThresholdState,
    signers: Seq<Address>,
    threshold: u32,
)
    requires
        state.config is None,
    ensures
        1 <= threshold <= signers.len() ==> initialize_outcome(state, signers, threshold) == Ok::<
            (),
            Error,
        >(()) && after_initialize(state, signers, threshold).config == Some(
            ConfigView { signers, threshold },
        ) && after_initialize(state, signers, threshold).attestations == state.attestations,
        (threshold == 0 || threshold > signers.len()) ==> initialize_outcome(
            state,
            signers,
            threshold,
        ) == Err::<(), Error>(Error::InvalidThreshold) && after_initialize(
            state,
            signers,
            threshold,
        ) == state,
{
}

/// A call that changes the contract's state, with its arguments.
pub enum ThresholdCall {
    Initialize { signers: Seq<Address>, threshold: u32 },
    Submit { env: Env, statement_hash: Bytes32, co_signers: Seq<Address> },
}

/// The state after one call.
pub open spec fn after_call(state: ThresholdState, call: ThresholdCall) -> ThresholdState {
    match call {
        ThresholdCall::Initialize { signers, threshold } => after_initialize(
            state,
            signers,
            threshold,
        ),
        ThresholdCall::Submit { env, statement_hash, co_signers } => after_attestation(
            state,
            env,
            statement_hash,
            co_signers,
        ),
    }
}

/// The state after each of `calls`, in order.
pub open spec fn after_calls(state: ThresholdState, calls: Seq<ThresholdCall>) -> ThresholdState
    decreases calls.len(),
{
    if calls.len() == 0 {
        state
    } else {
        after_call(after_calls(state, calls.drop_last()), calls.last())
    }
}

/// Whether the call at `i` is a submission for `statement_hash` that was
/// accepted, on the state the earlier calls left.
pub open spec fn accepted_submission(
    state: ThresholdState,
    calls: Seq<ThresholdCall>,
    i: int,
    statement_hash: Bytes32,
) -> bool {
    &&& 0 <= i < calls.len()
    &&& calls[i] matches ThresholdCall::Submit { env, statement_hash: h, co_signers }
    &&& h == statement_hash
    &&& attestation_outcome(after_calls(state, calls.take(i)), env, h, co_signers) is Ok
}

/// The record that the submission at `i` stores when it is accepted.
pub open spec fn submitted_record(calls: Seq<ThresholdCall>, i: int) -> RecordView {
    match calls[i] {
        ThresholdCall::Submit { env, co_signers, .. } => RecordView {
            co_signers,
            recorded_at_ledger: env.ledger_sequence,
        },
        ThresholdCall::Initialize { .. } => RecordView {
            co_signers: Seq::empty(),
            recorded_at_ledger: 0,
        },
    }
}

/// Over any sequence of `initialize` and `submit_attestation` calls, a
/// statement has a record exactly when it had one before or a submission
/// of it was accepted; the record is the one of that accepted submission
/// (co-signers and ledger), and a record that existed before stays as it
/// was. From a new contract, `get_attestation` therefore gives the record
/// of the accepted submission of a hash, and nothing when none was accepted.
pub proof fn law_records_are_exactly_the_accepted_submissions(
    state: ThresholdState,
    calls: Seq<ThresholdCall>,
    statement_hash: Bytes32,
)
    ensures
        after_calls(state, calls).attestations.contains_key(statement_hash) <==> (
        state.attestations.contains_key(statement_hash) || exists|i: int|
            accepted_submission(state, calls, i, statement_hash)),
        forall|i: int|
            accepted_submission(state, calls, i, statement_hash) ==> after_calls(
                state,
                calls,
            ).attestations[statement_hash] == submitted_record(calls, i),
        state.attestations.contains_key(statement_hash) ==> after_calls(
            state,
            calls,
        ).attestations[statement_hash] == state.attestations[statement_hash],
    decreases calls.len(),
{
    let h = statement_hash;
    if calls.len() == 0 {
        assert forall|i: int| !accepted_submission(state, calls, i, h) by {}
    } else {
        let n = calls.len() - 1;
        let earlier = calls.drop_last();
        law_records_are_exactly_the_accepted_submissions(state, earlier, h);
        let before = after_calls(state, earlier);
        assert(calls.take(n) =~= earlier);
        assert forall|i: int| 0 <= i < n implies #[trigger] accepted_submission(state, calls, i, h)
            == accepted_submission(state, earlier, i, h) by {
            assert(calls.take(i) =~= earlier.take(i));
            assert(calls[i] == earlier[i]);
        }
        assert forall|i: int|
            0 <= i < n implies #[trigger] submitted_record(calls, i) == submitted_record(
                earlier,
                i,
            ) by {
            assert(calls[i] == earlier[i]);
        }
        assert(after_calls(state, calls) == after_call(before, calls.last()));
        match calls.last() {
            ThresholdCall::Initialize { signers, threshold } => {
                assert(!accepted_submission(state, calls, n, h));
                assert((exists|i: int| accepted_submission(state, calls, i, h)) ==> (exists|i: int|
                    accepted_submission(state, earlier, i, h))) by {
                    if exists|i: int| accepted_submission(state, calls, i, h) {
                        let i = choose|i: int| accepted_submission(state, calls, i, h);
                        assert(accepted_submission(state, earlier, i, h));
                    }
                }
                assert((exists|i: int| accepted_submission(state, earlier, i, h)) ==> (exists|i: int|
                    accepted_submission(state, calls, i, h))) by {
                    if exists|i: int| accepted_submission(state, earlier, i, h) {
                        let i = choose|i: int| accepted_submission(state, earlier, i, h);
                        assert(accepted_submission(state, calls, i, h));
                    }
                }
            },
            ThresholdCall::Submit { env, statement_hash: hh, co_signers } => {
                let accepted_last = attestation_outcome(before, env, hh, co_signers) is Ok;
                if accepted_last && hh == h {
                    assert(accepted_submission(state, calls, n, h));
                    assert(!before.attestations.contains_key(h));
                    assert forall|i: int| !accepted_submission(state, earlier, i, h) by {}
                    assert forall|i: int| accepted_submission(state, calls, i, h) implies i == n by {
                        if i < n {
                            assert(accepted_submission(state, earlier, i, h));
                        }
                    }
                } else {
                    assert(!accepted_submission(state, calls, n, h));
                    assert(after_calls(state, calls).attestations.contains_key(h)
                        == before.attestations.contains_key(h));
                    assert(before.attestations.contains_key(h) ==> after_calls(
                        state,
                        calls,
                    ).attestations[h] == before.attestations[h]);
                    assert((exists|i: int| accepted_submission(state, calls, i, h)) ==> (exists|
                        i: int,
                    | accepted_submission(state, earlier, i, h))) by {
                        if exists|i: int| accepted_submission(state, calls, i, h) {
                            let i = choose|i: int| accepted_submission(state, calls, i, h);
                            assert(accepted_submission(state, earlier, i, h));
                        }
                    }
                    assert((exists|i: int| accepted_submission(state, earlier, i, h)) ==> (exists|
                        i: int,
                    | accepted_submission(state, calls, i, h))) by {
                        if exists|i: int| accepted_submission(state, earlier, i, h) {
                            let i = choose|i: int| accepted_submission(state, earlier, i, h);
                            assert(accepted_submission(state, calls, i, h));
                        }
                    }
                }
            },
        }
    }
}

} // verus!
