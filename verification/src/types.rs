use vstd::prelude::*;

verus! {

/// An already-authenticated caller identity, as the hosting environment
/// resolves it for each call. The system never derives or validates an
/// identity itself; it only compares identities for equality.
#[derive(Clone, Copy, Debug, PartialEq, Eq, Structural)]
pub struct AccountId(pub u128);

/// The ways an operation can be refused. Every failure is returned to the
/// caller as a value and leaves the whole state unchanged.
#[derive(Clone, Copy, Debug, PartialEq, Eq, Structural)]
pub enum Error {
    /// The acting identity is not the fixed owner; creation is refused.
    OnlyOwnerCanPerformAction,
    /// The referenced proposal id has no record.
    ProposalDoesNotExist,
    /// The `(proposal, caller)` pair already holds a vote mark.
    AlreadyVoted,
}

/// A stored proposal record: its description and the tally of votes cast on
/// it. Records are created only by the creation operation and never change
/// afterwards except for the tally.
#[derive(Clone, Debug, PartialEq, Eq)]
pub struct Proposal {
    pub description: String,
    pub votes: u32,
}

/// The notification published once per successful proposal creation.
#[derive(Clone, Debug, PartialEq, Eq)]
pub struct ProposalCreated {
    pub id: u32,
    pub title: String,
}

/// The notification published once per successful vote.
#[derive(Clone, Copy, Debug, PartialEq, Eq, Structural)]
pub struct VoteCast {
    pub proposal_id: u32,
    pub voter: AccountId,
}

/// A published notification, kept in emission order.
#[derive(Clone, Debug, PartialEq, Eq)]
pub enum Notification {
    Created(ProposalCreated),
    Cast(VoteCast),
}

/// The mathematical form of a notification: a title appears as its
/// character sequence.
pub enum NoteView {
    Created { id: u32, title: Seq<char> },
    Cast { proposal_id: u32, voter: AccountId },
}

impl View for Notification {
    type V = NoteView;

    open spec fn view(&self) -> NoteView {
        match self {
            Notification::Created(n) => NoteView::Created { id: n.id, title: n.title@ },
            Notification::Cast(n) => NoteView::Cast { proposal_id: n.proposal_id, voter: n.voter },
        }
    }
}

} // verus!
