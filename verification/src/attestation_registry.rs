//! Each anchor's current commitment (for instance the Merkle root of its
//! cleared-user set) and the history of the commitments it replaced. An
//! anchor may only update its own commitment: every publication must be
//! authorized by the anchor.

use vstd::prelude::*;
use crate::host::{Address, AuthError, Bytes32, Env};
use crate::store::{copied, Store};

verus! {

/// A published commitment and the ledger in which it was published.
#[derive(Clone, Copy, Debug, PartialEq)]
pub struct Commitment {
    pub root: Bytes32,
    pub published_at_ledger: u32,
}

/// What the registry holds for one anchor: its current commitment and the
/// commitments it replaced, oldest first.
pub struct AnchorState {
    pub current: Commitment,
    pub history: Seq<Commitment>,
}

/// The stored form of an [`AnchorState`].
struct AnchorRecord {
    current: Commitment,
    history: Vec<Commitment>,
}

impl View for AnchorRecord {
    type V = AnchorState;

    closed spec fn view(&self) -> AnchorState {
        AnchorState { current: self.current, history: self.history@ }
    }
}

/// The registry's storage.
pub struct AttestationRegistryContract {
    anchors: Store<Address, AnchorRecord>,
}

/// The registry's state after `anchor` publishes `commitment`: the previous
/// commitment, if there was one, is appended to the anchor's history.
pub open spec fn published(
    state: Map<Address, AnchorState>,
    anchor: Address,
    commitment: Commitment,
) -> Map<Address, AnchorState> {
    state.insert(
        anchor,
        AnchorState {
            current: commitment,
            history: if state.contains_key(anchor) {
                state[anchor].history.push(state[anchor].current)
            } else {
                Seq::empty()
            },
        },
    )
}

/// The current commitment of `anchor`, if it ever published one.
pub open spec fn commitment_of(state: Map<Address, AnchorState>, anchor: Address) -> Option<
    Commitment,
> {
    if state.contains_key(anchor) {
        Some(state[anchor].current)
    } else {
        None
    }
}

/// The commitments that `anchor` replaced, oldest first; empty for an anchor
/// that published at most once.
pub open spec fn history_of(state: Map<Address, AnchorState>, anchor: Address) -> Seq<Commitment> {
    if state.contains_key(anchor) {
        state[anchor].history
    } else {
        Seq::empty()
    }
}

impl View for AttestationRegistryContract {
    type V = Map<Address, AnchorState>;

    closed spec fn view(&self) -> Map<Address, AnchorState> {
        self.anchors@.map_values(|r: AnchorRecord| r@)
    }
}

impl AttestationRegistryContract {
    /// The registry's well-formedness.
    pub closed spec fn wf(&self) -> bool {
        self.anchors.wf()
    }

    /// A registry in which no anchor has published yet.
    pub fn new() -> (r: Self)
        ensures
            r.wf(),
            r@ == Map::<Address, AnchorState>::empty(),
    {
        let r = AttestationRegistryContract { anchors: Store::new() };
        assert(r@ =~= Map::<Address, AnchorState>::empty());
        r
    }

    /// Publishes a new commitment for `anchor`, moving the previous
    /// commitment (if any) into that anchor's history. The commitment is
    /// stamped with the current ledger sequence. Without `anchor`'s
    /// authorization the invocation is aborted and nothing changes.
    pub fn publish_commitment(&mut self, env: &Env, anchor: Address, root: Bytes32) -> (r: Result<
        (),
        AuthError,
    >)
        requires
            old(self).wf(),
        ensures
            final(self).wf(),
            env.authorizes(anchor) ==> r is Ok && final(self)@ == published(
                old(self)@,
                anchor,
                Commitment { root, published_at_ledger: env.ledger_sequence },
            ),
            !env.authorizes(anchor) ==> r == Err::<(), AuthError>(AuthError { address: anchor })
                && final(self)@ == old(self)@,
    {
        if !env.require_auth(&anchor) {
            return Err(AuthError { address: anchor });
        }
        let commitment = Commitment { root, published_at_ledger: env.sequence() };
        let ghost old_view = self@;
        let history = match self.anchors.get(&anchor) {
            Some(previous) => {
                let mut history = copied(&previous.history);
                history.push(previous.current);
                history
            },
            None => Vec::new(),
        };
        let record = AnchorRecord { current: commitment, history };
        self.anchors.insert(anchor, record);
        assert(self@ =~= published(old_view, anchor, commitment));
        Ok(())
    }

    /// The current commitment of `anchor`, if it ever published one.
    pub fn get_commitment(&self, anchor: Address) -> (r: Option<Commitment>)
        requires
            self.wf(),
        ensures
            r == commitment_of(self@, anchor),
    {
        match self.anchors.get(&anchor) {
            Some(record) => Some(record.current),
            None => None,
        }
    }

    /// The commitments that `anchor` replaced, oldest first.
    pub fn get_history(&self, anchor: Address) -> (r: Vec<Commitment>)
        requires
            self.wf(),
        ensures
            r@ == history_of(self@, anchor),
    {
        match self.anchors.get(&anchor) {
            Some(record) => copied(&record.history),
            None => Vec::new(),
        }
    }
}

/// A read after a publication gives back the commitment just published.
pub proof fn law_publish_then_get(
    state: Map<Address, AnchorState>,
    anchor: Address,
    commitment: Commitment,
)
    ensures
        commitment_of(published(state, anchor, commitment), anchor) == Some(commitment),
{
}

/// The first publication of an anchor leaves its history empty.
pub proof fn law_first_publication_has_empty_history(
    state: Map<Address, AnchorState>,
    anchor: Address,
    commitment: Commitment,
)
    requires
        !state.contains_key(anchor),
    ensures
        history_of(published(state, anchor, commitment), anchor) == Seq::<Commitment>::empty(),
{
}

/// Republishing moves the previous commitment to the end of the anchor's
/// history; nothing in the history is lost or reordered.
pub proof fn law_republish_appends_previous_to_history(
    state: Map<Address, AnchorState>,
    anchor: Address,
    commitment: Commitment,
)
    requires
        commitment_of(state, anchor) is Some,
    ensures
        history_of(published(state, anchor, commitment), anchor) == history_of(state, anchor).push(
            commitment_of(state, anchor)->0,
        ),
{
}

/// A publication by one anchor leaves every other anchor's commitment and
/// history as they were.
pub proof fn law_publish_leaves_other_anchors(
    state: Map<Address, AnchorState>,
    anchor: Address,
    other: Address,
    commitment: Commitment,
)
    requires
        other != anchor,
    ensures
        commitment_of(published(state, anchor, commitment), other) == commitment_of(state, other),
        history_of(published(state, anchor, commitment), other) == history_of(state, other),
{
}

/// The registry's state after `anchor` publishes each of `commitments`, in order.
pub open spec fn published_all(
    state: Map<Address, AnchorState>,
    anchor: Address,
    commitments: Seq<Commitment>,
) -> Map<Address, AnchorState>
    decreases commitments.len(),
{
    if commitments.len() == 0 {
        state
    } else {
        published(
            published_all(state, anchor, commitments.drop_last()),
            anchor,
            commitments.last(),
        )
    }
}

/// After an anchor's first publications, its current commitment is the last
/// one published and its history holds all earlier ones, oldest first.
pub proof fn law_history_records_every_rotation(
    state: Map<Address, AnchorState>,
    anchor: Address,
    commitments: Seq<Commitment>,
)
    requires
        !state.contains_key(anchor),
        commitments.len() > 0,
    ensures
        commitment_of(published_all(state, anchor, commitments), anchor) == Some(
            commitments.last(),
        ),
        history_of(published_all(state, anchor, commitments), anchor) == commitments.drop_last(),
    decreases commitments.len(),
{
    if commitments.len() > 1 {
        let earlier = commitments.drop_last();
        law_history_records_every_rotation(state, anchor, earlier);
        let before = published_all(state, anchor, earlier);
        assert(before.contains_key(anchor));
        assert(published_all(state, anchor, commitments) == published(
            before,
            anchor,
            commitments.last(),
        ));
        assert(earlier.drop_last().push(earlier.last()) =~= commitments.drop_last());
    } else {
        assert(commitments.drop_last() =~= Seq::<Commitment>::empty());
        assert(published_all(state, anchor, commitments.drop_last()) == state);
    }
}

/// Every commitment `anchor` has had, oldest first: its history followed by
/// its current commitment; empty for an anchor that never published.
pub open spec fn rotation_of(state: Map<Address, AnchorState>, anchor: Address) -> Seq<Commitment> {
    if state.contains_key(anchor) {
        state[anchor].history.push(state[anchor].current)
    } else {
        Seq::empty()
    }
}

/// The registry's state after each publication `(anchor, commitment)` of
/// `publications`, in order.
pub open spec fn published_each(
    state: Map<Address, AnchorState>,
    publications: Seq<(Address, Commitment)>,
) -> Map<Address, AnchorState>
    decreases publications.len(),
{
    if publications.len() == 0 {
        state
    } else {
        published(
            published_each(state, publications.drop_last()),
            publications.last().0,
            publications.last().1,
        )
    }
}

/// The commitments that `anchor` publishes in `publications`, in order.
pub open spec fn commitments_by(publications: Seq<(Address, Commitment)>, anchor: Address) -> Seq<
    Commitment,
>
    decreases publications.len(),
{
    if publications.len() == 0 {
        Seq::empty()
    } else if publications.last().0 == anchor {
        commitments_by(publications.drop_last(), anchor).push(publications.last().1)
    } else {
        commitments_by(publications.drop_last(), anchor)
    }
}

/// Whatever other anchors publish in between, an anchor's commitments are
/// kept in the order it published them: after a run of publications, the
/// anchor's rotation (history, then current commitment) is its rotation
/// before followed by the commitments it published in the run.
pub proof fn law_rotation_is_kept_across_interleaved_publications(
    state: Map<Address, AnchorState>,
    publications: Seq<(Address, Commitment)>,
    anchor: Address,
)
    ensures
        rotation_of(published_each(state, publications), anchor) == rotation_of(state, anchor)
            + commitments_by(publications, anchor),
    decreases publications.len(),
{
    if publications.len() == 0 {
        assert(rotation_of(state, anchor) + Seq::<Commitment>::empty() =~= rotation_of(
            state,
            anchor,
        ));
    } else {
        let earlier = publications.drop_last();
        law_rotation_is_kept_across_interleaved_publications(state, earlier, anchor);
        let before = published_each(state, earlier);
        let (who, c) = publications.last();
        assert(published_each(state, publications) == published(before, who, c));
        if who == anchor {
            assert(rotation_of(published(before, who, c), anchor) =~= rotation_of(
                before,
                anchor,
            ).push(c));
            assert((rotation_of(state, anchor) + commitments_by(earlier, anchor)).push(c)
                =~= rotation_of(state, anchor) + commitments_by(earlier, anchor).push(c));
        } else {
            assert(rotation_of(published(before, who, c), anchor) == rotation_of(before, anchor));
        }
    }
}

/// For an anchor that had not published before a run of publications by
/// any anchors, and published at least once in it: its current commitment
/// is the last one it published, and its history holds all its earlier
/// ones, oldest first.
pub proof fn law_history_across_interleaved_publications(
    state: Map<Address, AnchorState>,
    publications: Seq<(Address, Commitment)>,
    anchor: Address,
)
    requires
        !state.contains_key(anchor),
        commitments_by(publications, anchor).len() > 0,
    ensures
        commitment_of(published_each(state, publications), anchor) == Some(
            commitments_by(publications, anchor).last(),
        ),
        history_of(published_each(state, publications), anchor) == commitments_by(
            publications,
            anchor,
        ).drop_last(),
{
    law_rotation_is_kept_across_interleaved_publications(state, publications, anchor);
    let after = published_each(state, publications);
    let cs = commitments_by(publications, anchor);
    assert(rotation_of(state, anchor) + cs =~= cs);
    assert(after.contains_key(anchor));
    assert(after[anchor].history.push(after[anchor].current) == cs);
    assert(after[anchor].history =~= cs.drop_last());
}

} // verus!
