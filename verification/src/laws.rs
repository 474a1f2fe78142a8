use vstd::prelude::*;

use crate::model::{
    create_step, has_mark, init_state, inv, lemma_create_preserves_inv,
    lemma_vote_preserves_inv, lookup, vote_step, SystemView,
};
use crate::types::{AccountId, Error, NoteView};

verus! {

/// The state after replaying a run of creation calls, each a caller with a
/// title, oldest first.
pub open spec fn apply_creates(m: SystemView, calls: Seq<(AccountId, Seq<char>)>) -> SystemView
    decreases calls.len(),
{
    if calls.len() == 0 {
        m
    } else {
        create_step(apply_creates(m, calls.drop_last()), calls.last().0, calls.last().1).0
    }
}

/// How many of the calls act under the owner's identity — exactly the calls
/// that succeed.
pub open spec fn num_authorized(owner: AccountId, calls: Seq<(AccountId, Seq<char>)>) -> nat
    decreases calls.len(),
{
    if calls.len() == 0 {
        0
    } else {
        num_authorized(owner, calls.drop_last()) + if calls.last().0 == owner {
            1nat
        } else {
            0nat
        }
    }
}

/// The state after replaying a run of voting calls on one proposal, one per
/// caller, oldest first.
pub open spec fn apply_votes(m: SystemView, proposal_id: u32, callers: Seq<AccountId>) -> SystemView
    decreases callers.len(),
{
    if callers.len() == 0 {
        m
    } else {
        vote_step(apply_votes(m, proposal_id, callers.drop_last()), callers.last(), proposal_id).0
    }
}

/// Immediately after construction no proposal exists, and the constructing
/// caller is the only identity whose creation call can succeed.
pub proof fn lemma_initialization(owner: AccountId, caller: AccountId, title: Seq<char>)
    ensures
        init_state(owner).count == 0,
        create_step(init_state(owner), caller, title).1 is Ok <==> caller == owner,
{
}

/// Access control: a creation call by any non-owner identity fails with
/// `OnlyOwnerCanPerformAction` and leaves the state — the counter included —
/// unchanged.
pub proof fn lemma_access_control(m: SystemView, caller: AccountId, title: Seq<char>)
    requires
        caller != m.owner,
    ensures
        create_step(m, caller, title).1 == Err::<u32, Error>(Error::OnlyOwnerCanPerformAction),
        create_step(m, caller, title).0 == m,
{
}

/// A prefix of a run holds at most as many authorized calls as the whole run.
proof fn lemma_num_authorized_take(owner: AccountId, calls: Seq<(AccountId, Seq<char>)>, i: int)
    requires
        0 <= i <= calls.len(),
    ensures
        num_authorized(owner, calls.take(i)) <= num_authorized(owner, calls),
    decreases calls.len() - i,
{
    if i == calls.len() {
        assert(calls.take(i) =~= calls);
    } else {
        lemma_num_authorized_take(owner, calls.drop_last(), i);
        assert(calls.drop_last().take(i) =~= calls.take(i));
    }
}

/// After any run of creation calls the counter equals its starting value plus
/// the number of authorized calls, as long as that stays representable — the
/// counter counts exactly the successful creations.
pub proof fn lemma_creation_count(m: SystemView, calls: Seq<(AccountId, Seq<char>)>)
    requires
        inv(m),
        m.count + num_authorized(m.owner, calls) <= u32::MAX,
    ensures
        inv(apply_creates(m, calls)),
        apply_creates(m, calls).owner == m.owner,
        apply_creates(m, calls).count == m.count + num_authorized(m.owner, calls),
    decreases calls.len(),
{
    if calls.len() > 0 {
        lemma_creation_count(m, calls.drop_last());
        let prev = apply_creates(m, calls.drop_last());
        lemma_create_preserves_inv(prev, calls.last().0, calls.last().1);
    }
}

/// ID monotonicity: each authorized creation call in a run returns exactly
/// the number of authorized calls before it — ids are dense and 0-indexed.
pub proof fn lemma_id_monotonicity(m: SystemView, calls: Seq<(AccountId, Seq<char>)>, i: int)
    requires
        inv(m),
        m.count + num_authorized(m.owner, calls) <= u32::MAX,
        0 <= i < calls.len(),
        calls[i].0 == m.owner,
    ensures
        create_step(apply_creates(m, calls.take(i)), calls[i].0, calls[i].1).1 == Ok::<
            u32,
            Error,
        >((m.count + num_authorized(m.owner, calls.take(i))) as u32),
{
    lemma_num_authorized_take(m.owner, calls, i);
    lemma_creation_count(m, calls.take(i));
}

/// Round-trip: a creation by the owner always succeeds, and reading the
/// returned id back gives the stored title with a tally of zero.
pub proof fn lemma_create_get_round_trip(m: SystemView, title: Seq<char>)
    requires
        inv(m),
    ensures
        create_step(m, m.owner, title).1 is Ok,
        lookup(create_step(m, m.owner, title).0, create_step(m, m.owner, title).1->Ok_0) == Ok::<
            (Seq<char>, u32),
            Error,
        >((title, 0u32)),
{
}

/// Double-vote rejection: after an identity's vote succeeds, the same
/// identity's next vote on the same proposal fails with `AlreadyVoted` and
/// leaves the state unchanged.
pub proof fn lemma_double_vote_rejected(m: SystemView, caller: AccountId, proposal_id: u32)
    requires
        vote_step(m, caller, proposal_id).1 is Ok,
    ensures
        vote_step(vote_step(m, caller, proposal_id).0, caller, proposal_id).1 == Err::<
            (),
            Error,
        >(Error::AlreadyVoted),
        vote_step(vote_step(m, caller, proposal_id).0, caller, proposal_id).0 == vote_step(
            m,
            caller,
            proposal_id,
        ).0,
{
    let m2 = vote_step(m, caller, proposal_id).0;
    assert(m2.voters[m.voters.len() as int] == (proposal_id, caller));
    assert(has_mark(m2.voters, proposal_id, caller));
}

/// Nonexistent-proposal rejection: an id at or past the counter can neither
/// be voted on nor read, each failing with `ProposalDoesNotExist` and no
/// state change. (Stated below counter saturation: once the counter has
/// saturated, the one record at the largest id sits at, not below, it.)
pub proof fn lemma_missing_proposal_rejected(m: SystemView, caller: AccountId, id: u32)
    requires
        inv(m),
        m.proposals.len() <= u32::MAX,
        id >= m.count,
    ensures
        vote_step(m, caller, id).1 == Err::<(), Error>(Error::ProposalDoesNotExist),
        vote_step(m, caller, id).0 == m,
        lookup(m, id) == Err::<(Seq<char>, u32), Error>(Error::ProposalDoesNotExist),
{
}

/// Notification scenario: from a fresh system, one creation by the owner and
/// one vote by any identity both succeed and publish exactly one creation
/// notification and one vote notification, in that order.
pub proof fn lemma_notification_scenario(owner: AccountId, voter: AccountId, title: Seq<char>)
    ensures
        create_step(init_state(owner), owner, title).1 is Ok,
        vote_step(create_step(init_state(owner), owner, title).0, voter, 0).1 is Ok,
        vote_step(create_step(init_state(owner), owner, title).0, voter, 0).0.notifications =~= seq![
            NoteView::Created { id: 0u32, title },
            NoteView::Cast { proposal_id: 0u32, voter },
        ],
{
    let m1 = create_step(init_state(owner), owner, title).0;
    assert(!has_mark(m1.voters, 0, voter));
}

/// Vote counting: distinct identities, none of which has yet voted on
/// proposal `k`, each voting once in turn, raise its tally by exactly their
/// number and touch nothing else of the ledger.
pub proof fn lemma_vote_counting(m: SystemView, k: u32, callers: Seq<AccountId>)
    requires
        inv(m),
        (k as int) < m.proposals.len(),
        forall|i: int, j: int| 0 <= i < j < callers.len() ==> callers[i] != callers[j],
        forall|i: int| 0 <= i < callers.len() ==> !has_mark(m.voters, k, #[trigger] callers[i]),
        m.proposals[k as int].1 + callers.len() <= u32::MAX,
    ensures
        inv(apply_votes(m, k, callers)),
        apply_votes(m, k, callers).owner == m.owner,
        apply_votes(m, k, callers).count == m.count,
        apply_votes(m, k, callers).proposals.len() == m.proposals.len(),
        apply_votes(m, k, callers).proposals[k as int].1 == m.proposals[k as int].1
            + callers.len(),
        apply_votes(m, k, callers).proposals[k as int].0 == m.proposals[k as int].0,
        apply_votes(m, k, callers).voters =~= m.voters + Seq::new(
            callers.len() as nat,
            |i: int| (k, callers[i]),
        ),
    decreases callers.len(),
{
    if callers.len() > 0 {
        let init = callers.drop_last();
        let last = callers.last();
        lemma_vote_counting(m, k, init);
        let prev = apply_votes(m, k, init);
        // The last caller holds no mark yet: not in the starting registry, and
        // distinct from every caller already replayed.
        assert(!has_mark(prev.voters, k, last)) by {
            if has_mark(prev.voters, k, last) {
                let i = choose|i: int|
                    0 <= i < prev.voters.len() && prev.voters[i] == (k, last);
                if i < m.voters.len() {
                    assert(m.voters[i] == (k, last));
                    assert(callers[callers.len() - 1] == last);
                } else {
                    let j = i - m.voters.len();
                    assert(prev.voters[i] == (k, init[j]));
                    assert(callers[j] == last);
                }
            }
        }
        assert(vote_step(prev, last, k).1 is Ok);
        lemma_vote_preserves_inv(prev, last, k);
        assert(apply_votes(m, k, callers).voters =~= m.voters + Seq::new(
            callers.len() as nat,
            |i: int| (k, callers[i]),
        ));
    } else {
        assert(apply_votes(m, k, callers).voters =~= m.voters + Seq::new(
            callers.len() as nat,
            |i: int| (k, callers[i]),
        ));
    }
}

} // verus!
