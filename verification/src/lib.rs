//! A deterministic record store for single-owner-gated proposal creation and
//! one-vote-per-identity ballot tallying. The hosting environment resolves the
//! caller identity for each call and passes it in; notifications are captured
//! in emission order instead of being sent on a live transport.

mod laws;
mod model;
mod system;
mod types;

pub use crate::laws::{
    apply_creates, apply_votes, lemma_access_control, lemma_create_get_round_trip,
    lemma_creation_count, lemma_double_vote_rejected, lemma_id_monotonicity,
    lemma_initialization, lemma_missing_proposal_rejected, lemma_notification_scenario,
    lemma_vote_counting, num_authorized,
};
pub use crate::model::{
    clamp_u32, create_step, has_mark, init_state, inv, lemma_create_preserves_inv,
    lemma_init_inv, lemma_marks_absent, lemma_marks_push, lemma_vote_preserves_inv, lookup,
    marks_for, sat_inc, store_at, vote_step, SystemView,
};
pub use crate::system::{authorize, VotingSystem};
pub use crate::types::{AccountId, Error, Notification, NoteView, Proposal, ProposalCreated, VoteCast};
