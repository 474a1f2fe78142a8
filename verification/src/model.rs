use vstd::prelude::*;

use crate::types::{AccountId, Error, NoteView};

verus! {

/// The abstract state of the voting system: the proposal records as
/// `(description, votes)` pairs indexed by id, the vote marks in the order
/// they were cast, the proposal counter, the fixed owner, and the
/// notifications published so far.
#[verifier::ext_equal]
pub struct SystemView {
    pub proposals: Seq<(Seq<char>, u32)>,
    pub voters: Seq<(u32, AccountId)>,
    pub count: u32,
    pub owner: AccountId,
    pub notifications: Seq<NoteView>,
}

/// The state immediately after construction by `owner`: an empty ledger and
/// registry, a zero counter, and no notifications.
pub open spec fn init_state(owner: AccountId) -> SystemView {
    SystemView {
        proposals: Seq::empty(),
        voters: Seq::empty(),
        count: 0,
        owner,
        notifications: Seq::empty(),
    }
}

/// Counter addition clamps at the largest representable value instead of
/// wrapping.
pub open spec fn sat_inc(x: u32) -> u32 {
    if x < u32::MAX {
        (x + 1) as u32
    } else {
        u32::MAX
    }
}

/// A tally clamped at the largest representable value.
pub open spec fn clamp_u32(n: nat) -> u32 {
    if n <= u32::MAX {
        n as u32
    } else {
        u32::MAX
    }
}

/// Whether `voter` has a recorded vote mark on proposal `id`.
pub open spec fn has_mark(voters: Seq<(u32, AccountId)>, id: u32, voter: AccountId) -> bool {
    exists|i: int| 0 <= i < voters.len() && voters[i] == (id, voter)
}

/// How many vote marks proposal `id` carries.
pub open spec fn marks_for(voters: Seq<(u32, AccountId)>, id: u32) -> nat
    decreases voters.len(),
{
    if voters.len() == 0 {
        0
    } else {
        marks_for(voters.drop_last(), id) + if voters.last().0 == id {
            1nat
        } else {
            0nat
        }
    }
}

/// Storing a record at `id`: replaces the record already there, or appends
/// when `id` is the next free slot.
pub open spec fn store_at(
    proposals: Seq<(Seq<char>, u32)>,
    id: u32,
    record: (Seq<char>, u32),
) -> Seq<(Seq<char>, u32)> {
    if (id as int) < proposals.len() {
        proposals.update(id as int, record)
    } else {
        proposals.push(record)
    }
}

/// Well-formedness of a system state:
/// - the counter tracks the ledger size and saturates at the largest id, so
///   the ledger never outgrows the counter by more than the one saturated slot;
/// - every vote mark points at an existing record;
/// - no `(proposal, voter)` pair is marked twice;
/// - every record's tally (except a record in the saturated slot, whose
///   re-creation can reset it) equals its number of marks, clamped.
pub open spec fn inv(m: SystemView) -> bool {
    &&& m.proposals.len() <= u32::MAX + 1
    &&& if m.proposals.len() <= u32::MAX {
        m.count == m.proposals.len()
    } else {
        m.count == u32::MAX
    }
    &&& forall|i: int|
        0 <= i < m.voters.len() ==> (#[trigger] m.voters[i]).0 < m.proposals.len()
    &&& forall|i: int, j: int|
        0 <= i < j < m.voters.len() ==> m.voters[i] != m.voters[j]
    &&& forall|k: int|
        0 <= k < m.proposals.len() && k < u32::MAX ==> (#[trigger] m.proposals[k]).1
            == clamp_u32(marks_for(m.voters, k as u32))
}

/// One creation call: the identity gate authorizes the caller against the
/// owner; on success the ledger stores a fresh record under the allocated id,
/// the counter advances (saturating), and a creation notification is
/// published. A refused call returns the state unchanged.
pub open spec fn create_step(m: SystemView, caller: AccountId, title: Seq<char>) -> (
    SystemView,
    Result<u32, Error>,
) {
    if caller != m.owner {
        (m, Err(Error::OnlyOwnerCanPerformAction))
    } else {
        let id: u32 = m.count;
        (
            SystemView {
                proposals: store_at(m.proposals, id, (title, 0u32)),
                count: sat_inc(m.count),
                notifications: m.notifications.push(NoteView::Created { id, title }),
                ..m
            },
            Ok(id),
        )
    }
}

/// One voting call: an unknown id or a repeated `(proposal, caller)` pair is
/// rejected with the state unchanged; otherwise the record's tally rises by
/// one (saturating), the mark is recorded, and a vote notification is
/// published — all three together.
pub open spec fn vote_step(m: SystemView, caller: AccountId, proposal_id: u32) -> (
    SystemView,
    Result<(), Error>,
) {
    if m.proposals.len() <= proposal_id as int {
        (m, Err(Error::ProposalDoesNotExist))
    } else if has_mark(m.voters, proposal_id, caller) {
        (m, Err(Error::AlreadyVoted))
    } else {
        let record: (Seq<char>, u32) = m.proposals[proposal_id as int];
        (
            SystemView {
                proposals: m.proposals.update(
                    proposal_id as int,
                    (record.0, sat_inc(record.1)),
                ),
                voters: m.voters.push((proposal_id, caller)),
                notifications: m.notifications.push(
                    NoteView::Cast { proposal_id, voter: caller },
                ),
                ..m
            },
            Ok(()),
        )
    }
}

/// One read: the record's description and tally, or a rejection when the id
/// has no record.
pub open spec fn lookup(m: SystemView, proposal_id: u32) -> Result<(Seq<char>, u32), Error> {
    if (proposal_id as int) < m.proposals.len() {
        Ok(m.proposals[proposal_id as int])
    } else {
        Err(Error::ProposalDoesNotExist)
    }
}

/// Appending one mark raises the count for its proposal by one and leaves
/// every other count unchanged.
pub proof fn lemma_marks_push(voters: Seq<(u32, AccountId)>, p: (u32, AccountId), id: u32)
    ensures
        marks_for(voters.push(p), id) == marks_for(voters, id) + if p.0 == id {
            1nat
        } else {
            0nat
        },
{
    assert(voters.push(p).drop_last() =~= voters);
    assert(voters.push(p).last() == p);
}

/// A proposal id that no mark points at carries no marks.
pub proof fn lemma_marks_absent(voters: Seq<(u32, AccountId)>, id: u32)
    requires
        forall|i: int| 0 <= i < voters.len() ==> (#[trigger] voters[i]).0 != id,
    ensures
        marks_for(voters, id) == 0,
    decreases voters.len(),
{
    if voters.len() > 0 {
        assert(forall|i: int|
            0 <= i < voters.drop_last().len() ==> #[trigger] voters.drop_last()[i]
                == voters[i]);
        lemma_marks_absent(voters.drop_last(), id);
    }
}

/// The freshly constructed state is well-formed.
pub proof fn lemma_init_inv(owner: AccountId)
    ensures
        inv(init_state(owner)),
{
}

/// A creation call preserves well-formedness, the owner, and the registry.
pub proof fn lemma_create_preserves_inv(m: SystemView, caller: AccountId, title: Seq<char>)
    requires
        inv(m),
    ensures
        inv(create_step(m, caller, title).0),
        create_step(m, caller, title).0.owner == m.owner,
        create_step(m, caller, title).0.voters == m.voters,
{
    if caller == m.owner {
        let id: u32 = m.count;
        let m2 = create_step(m, caller, title).0;
        if (id as int) < m.proposals.len() {
            // Only the saturated slot is ever re-created: the counter equals
            // the length below saturation, so a record below the counter
            // forces a saturated counter and the slot is the largest id.
            assert(m.proposals.len() == u32::MAX + 1);
            assert(id == u32::MAX);
        } else {
            // The fresh id carries no marks: every mark points below it.
            lemma_marks_absent(m.voters, id);
        }
    }
}

/// A voting call preserves well-formedness and everything the registry and
/// ledger do not own: the owner, the counter, the ledger size, and every
/// record's description.
pub proof fn lemma_vote_preserves_inv(m: SystemView, caller: AccountId, proposal_id: u32)
    requires
        inv(m),
    ensures
        inv(vote_step(m, caller, proposal_id).0),
        vote_step(m, caller, proposal_id).0.owner == m.owner,
        vote_step(m, caller, proposal_id).0.count == m.count,
        vote_step(m, caller, proposal_id).0.proposals.len() == m.proposals.len(),
        forall|k: int|
            0 <= k < m.proposals.len() ==> (#[trigger] vote_step(
                m,
                caller,
                proposal_id,
            ).0.proposals[k]).0 == m.proposals[k].0,
{
    if (proposal_id as int) < m.proposals.len() && !has_mark(m.voters, proposal_id, caller) {
        let m2 = vote_step(m, caller, proposal_id).0;
        assert forall|k: u32| marks_for(m2.voters, k) == marks_for(m.voters, k) + if proposal_id
            == k {
            1nat
        } else {
            0nat
        } by {
            lemma_marks_push(m.voters, (proposal_id, caller), k);
        }
        // The new mark differs from every recorded one, so marks stay distinct.
        assert(forall|i: int|
            0 <= i < m.voters.len() ==> #[trigger] m.voters[i] != (proposal_id, caller));
    }
}

} // verus!
