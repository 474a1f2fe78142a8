use vstd::prelude::*;

use crate::model::{create_step, has_mark, init_state, lookup, vote_step, SystemView};
use crate::types::{AccountId, Error, Notification, Proposal, ProposalCreated, VoteCast};

verus! {

/// The identity gate: a pure comparison of the acting identity against the
/// owner, with no side effects. Only the creation operation is guarded by it.
pub fn authorize(acting: AccountId, owner: AccountId) -> (r: Result<(), Error>)
    ensures
        r is Ok <==> acting == owner,
        r is Err ==> r->Err_0 == Error::OnlyOwnerCanPerformAction,
{
    if acting == owner {
        Ok(())
    } else {
        Err(Error::OnlyOwnerCanPerformAction)
    }
}

/// The voting system: the proposal ledger (records plus the saturating
/// counter), the vote registry, the owner fixed at construction, and the
/// notifications published so far, in emission order.
pub struct VotingSystem {
    proposals: Vec<Proposal>,
    voters: Vec<(u32, AccountId)>,
    proposal_count: u32,
    owner: AccountId,
    events: Vec<Notification>,
}

impl View for VotingSystem {
    type V = SystemView;

    closed spec fn view(&self) -> SystemView {
        SystemView {
            proposals: Seq::new(
                self.proposals@.len(),
                |i: int| (self.proposals@[i].description@, self.proposals@[i].votes),
            ),
            voters: self.voters@,
            count: self.proposal_count,
            owner: self.owner,
            notifications: Seq::new(self.events@.len(), |i: int| self.events@[i]@),
        }
    }
}

impl VotingSystem {
    /// Constructs the system. The constructing caller becomes the owner for
    /// the system's whole lifetime; the ledger and registry start empty.
    pub fn new(caller: AccountId) -> (s: Self)
        ensures
            s@ == init_state(caller),
    {
        let s = VotingSystem {
            proposals: Vec::new(),
            voters: Vec::new(),
            proposal_count: 0,
            owner: caller,
            events: Vec::new(),
        };
        proof {
            assert(s@.proposals =~= init_state(caller).proposals);
            assert(s@.notifications =~= init_state(caller).notifications);
            assert(s@ =~= init_state(caller));
        }
        s
    }

    /// Creates a proposal: the identity gate authorizes `caller`, the ledger
    /// stores `{title, 0 votes}` under the allocated id, the counter advances
    /// (saturating), and a creation notification is published. A non-owner
    /// caller is refused with the whole state unchanged.
    pub fn create_proposal(&mut self, caller: AccountId, title: String) -> (r: Result<u32, Error>)
        ensures
            final(self)@ == create_step(old(self)@, caller, title@).0,
            r == create_step(old(self)@, caller, title@).1,
    {
        let ghost t = title@;
        match authorize(caller, self.owner) {
            Err(e) => {
                return Err(e);
            },
            Ok(()) => {},
        }
        let id = self.proposal_count;
        let record = Proposal { description: title.clone(), votes: 0 };
        if (id as usize) < self.proposals.len() {
            self.proposals.set(id as usize, record);
        } else {
            self.proposals.push(record);
        }
        self.proposal_count = if id < u32::MAX {
            id + 1
        } else {
            u32::MAX
        };
        self.events.push(Notification::Created(ProposalCreated { id, title }));
        proof {
            let m2 = create_step(old(self)@, caller, t).0;
            assert(self@.proposals =~= m2.proposals);
            assert(self@.notifications =~= m2.notifications);
            assert(self@ =~= m2);
        }
        Ok(id)
    }

    /// Casts `caller`'s vote on `proposal_id`: an unknown id or a repeated
    /// vote by the same identity is rejected with the whole state unchanged;
    /// otherwise the tally rises by one (saturating), the vote mark is
    /// recorded, and a vote notification is published — all three together.
    pub fn vote(&mut self, caller: AccountId, proposal_id: u32) -> (r: Result<(), Error>)
        ensures
            final(self)@ == vote_step(old(self)@, caller, proposal_id).0,
            r == vote_step(old(self)@, caller, proposal_id).1,
            r is Ok ==> has_mark(final(self)@.voters, proposal_id, caller),
    {
        if (proposal_id as usize) >= self.proposals.len() {
            return Err(Error::ProposalDoesNotExist);
        }
        if self.has_voted(proposal_id, caller) {
            return Err(Error::AlreadyVoted);
        }
        let idx = proposal_id as usize;
        let description = self.proposals[idx].description.clone();
        let votes = self.proposals[idx].votes;
        let new_votes = if votes < u32::MAX {
            votes + 1
        } else {
            u32::MAX
        };
        self.proposals.set(idx, Proposal { description, votes: new_votes });
        self.voters.push((proposal_id, caller));
        self.events.push(Notification::Cast(VoteCast { proposal_id, voter: caller }));
        proof {
            let m2 = vote_step(old(self)@, caller, proposal_id).0;
            assert(self@.voters[old(self)@.voters.len() as int] == (proposal_id, caller));
            assert(self@.proposals =~= m2.proposals);
            assert(self@.notifications =~= m2.notifications);
            assert(self@ =~= m2);
        }
        Ok(())
    }

    /// Reads a proposal: a copy of its description and its current tally, or
    /// a rejection when the id has no record.
    pub fn get_proposal(&self, proposal_id: u32) -> (r: Result<(String, u32), Error>)
        ensures
            r is Ok <==> lookup(self@, proposal_id) is Ok,
            r is Ok ==> ((r->Ok_0).0@, (r->Ok_0).1) == lookup(self@, proposal_id)->Ok_0,
            r is Err ==> r->Err_0 == lookup(self@, proposal_id)->Err_0,
    {
        if (proposal_id as usize) < self.proposals.len() {
            let idx = proposal_id as usize;
            Ok((self.proposals[idx].description.clone(), self.proposals[idx].votes))
        } else {
            Err(Error::ProposalDoesNotExist)
        }
    }

    /// The number of proposals created so far, which is also the next id to
    /// allocate.
    pub fn total_proposals(&self) -> (r: u32)
        ensures
            r == self@.count,
    {
        self.proposal_count
    }

    /// Whether `voter` already holds a vote mark on `proposal_id`. Absence is
    /// the default for any pair never recorded.
    pub fn has_voted(&self, proposal_id: u32, voter: AccountId) -> (r: bool)
        ensures
            r == has_mark(self@.voters, proposal_id, voter),
    {
        let mut i: usize = 0;
        while i < self.voters.len()
            invariant
                i <= self.voters.len(),
                forall|j: int| 0 <= j < i ==> self.voters@[j] != (proposal_id, voter),
            decreases self.voters.len() - i,
        {
            let entry = self.voters[i];
            if entry.0 == proposal_id && entry.1 == voter {
                assert(self.voters@[i as int] == (proposal_id, voter));
                return true;
            }
            i = i + 1;
        }
        false
    }

    /// The notifications published so far, in emission order.
    pub fn notifications(&self) -> (r: &Vec<Notification>)
        ensures
            r@.len() == self@.notifications.len(),
            forall|i: int| 0 <= i < r@.len() ==> (#[trigger] r@[i])@ == self@.notifications[i],
    {
        &self.events
    }
}

} // verus!
