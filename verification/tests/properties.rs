use voting_system::{AccountId, Error, Notification, VotingSystem};

#[test]
fn initialization_only_owner_creates() {
    let owner = AccountId(10);
    let other = AccountId(11);
    let mut system = VotingSystem::new(owner);

    assert_eq!(system.total_proposals(), 0);
    assert_eq!(system.create_proposal(other, String::from("nope")), Err(Error::OnlyOwnerCanPerformAction));
    assert_eq!(system.create_proposal(owner, String::from("yes")), Ok(0));
}

#[test]
fn rejected_creation_changes_nothing() {
    let owner = AccountId(1);
    let other = AccountId(2);
    let mut system = VotingSystem::new(owner);
    system.create_proposal(owner, String::from("kept")).unwrap();

    assert_eq!(system.create_proposal(other, String::from("dropped")), Err(Error::OnlyOwnerCanPerformAction));

    assert_eq!(system.total_proposals(), 1);
    assert_eq!(system.get_proposal(0), Ok((String::from("kept"), 0)));
    assert_eq!(system.get_proposal(1), Err(Error::ProposalDoesNotExist));
    assert_eq!(system.notifications().len(), 1);
}

#[test]
fn ids_are_dense_and_zero_indexed() {
    let owner = AccountId(1);
    let other = AccountId(2);
    let mut system = VotingSystem::new(owner);

    assert_eq!(system.create_proposal(owner, String::from("a")), Ok(0));
    assert_eq!(system.create_proposal(other, String::from("x")), Err(Error::OnlyOwnerCanPerformAction));
    assert_eq!(system.create_proposal(owner, String::from("b")), Ok(1));
    assert_eq!(system.create_proposal(owner, String::from("c")), Ok(2));
    assert_eq!(system.total_proposals(), 3);
}

#[test]
fn create_get_round_trip() {
    let owner = AccountId(1);
    let mut system = VotingSystem::new(owner);

    let id = system.create_proposal(owner, String::from("X")).unwrap();
    assert_eq!(system.get_proposal(id), Ok((String::from("X"), 0)));
}

#[test]
fn empty_and_duplicate_descriptions_allowed() {
    let owner = AccountId(1);
    let mut system = VotingSystem::new(owner);

    assert_eq!(system.create_proposal(owner, String::new()), Ok(0));
    assert_eq!(system.create_proposal(owner, String::from("twin")), Ok(1));
    assert_eq!(system.create_proposal(owner, String::from("twin")), Ok(2));
    assert_eq!(system.get_proposal(0), Ok((String::new(), 0)));
    assert_eq!(system.get_proposal(1), Ok((String::from("twin"), 0)));
    assert_eq!(system.get_proposal(2), Ok((String::from("twin"), 0)));
}

#[test]
fn distinct_identities_each_count_once() {
    let owner = AccountId(1);
    let mut system = VotingSystem::new(owner);
    let id = system.create_proposal(owner, String::from("tally")).unwrap();

    assert!(system.vote(AccountId(21), id).is_ok());
    assert!(system.vote(AccountId(22), id).is_ok());
    assert!(system.vote(AccountId(23), id).is_ok());

    assert_eq!(system.get_proposal(id), Ok((String::from("tally"), 3)));
}

#[test]
fn owner_may_vote_like_anyone() {
    let owner = AccountId(1);
    let mut system = VotingSystem::new(owner);
    let id = system.create_proposal(owner, String::from("open to all")).unwrap();

    assert!(system.vote(owner, id).is_ok());
    assert_eq!(system.get_proposal(id).unwrap().1, 1);
}

#[test]
fn double_vote_rejected_and_tally_kept() {
    let owner = AccountId(1);
    let voter = AccountId(5);
    let mut system = VotingSystem::new(owner);
    let id = system.create_proposal(owner, String::from("once")).unwrap();

    assert!(!system.has_voted(id, voter));
    assert!(system.vote(voter, id).is_ok());
    assert!(system.has_voted(id, voter));

    assert_eq!(system.vote(voter, id), Err(Error::AlreadyVoted));
    assert_eq!(system.get_proposal(id).unwrap().1, 1);
    assert_eq!(system.notifications().len(), 2);
}

#[test]
fn same_identity_may_vote_on_each_proposal() {
    let owner = AccountId(1);
    let voter = AccountId(5);
    let mut system = VotingSystem::new(owner);
    let first = system.create_proposal(owner, String::from("first")).unwrap();
    let second = system.create_proposal(owner, String::from("second")).unwrap();

    assert!(system.vote(voter, first).is_ok());
    assert!(system.vote(voter, second).is_ok());

    assert_eq!(system.get_proposal(first).unwrap().1, 1);
    assert_eq!(system.get_proposal(second).unwrap().1, 1);
}

#[test]
fn missing_id_rejected_at_boundary() {
    let owner = AccountId(1);
    let voter = AccountId(5);
    let mut system = VotingSystem::new(owner);
    system.create_proposal(owner, String::from("only one")).unwrap();

    let next = system.total_proposals();
    assert_eq!(system.vote(voter, next), Err(Error::ProposalDoesNotExist));
    assert_eq!(system.get_proposal(next), Err(Error::ProposalDoesNotExist));
    assert_eq!(system.get_proposal(next).unwrap_err(), Error::ProposalDoesNotExist);
}

#[test]
fn one_creation_then_one_vote_notifies_in_order() {
    let owner = AccountId(1);
    let voter = AccountId(9);
    let mut system = VotingSystem::new(owner);

    system.create_proposal(owner, String::from("announced")).unwrap();
    system.vote(voter, 0).unwrap();

    let notes = system.notifications();
    assert_eq!(notes.len(), 2);
    match &notes[0] {
        Notification::Created(n) => {
            assert_eq!(n.id, 0);
            assert_eq!(n.title, "announced");
        }
        Notification::Cast(_) => panic!("the creation notification must come first"),
    }
    match &notes[1] {
        Notification::Cast(n) => {
            assert_eq!(n.proposal_id, 0);
            assert_eq!(n.voter, voter);
        }
        Notification::Created(_) => panic!("the vote notification must come second"),
    }
}

#[test]
fn identity_gate_is_a_pure_comparison() {
    assert!(voting_system::authorize(AccountId(4), AccountId(4)).is_ok());
    assert_eq!(
        voting_system::authorize(AccountId(4), AccountId(5)),
        Err(Error::OnlyOwnerCanPerformAction)
    );
}

#[test]
fn full_scenario() {
    let owner = AccountId(100);
    let v1 = AccountId(101);
    let v2 = AccountId(102);
    let any = AccountId(103);
    let mut system = VotingSystem::new(owner);

    assert_eq!(system.create_proposal(owner, String::from("A")), Ok(0));
    assert_eq!(system.create_proposal(owner, String::from("B")), Ok(1));
    assert_eq!(system.total_proposals(), 2);

    assert!(system.vote(v1, 0).is_ok());
    assert!(system.vote(v2, 0).is_ok());
    assert_eq!(system.get_proposal(0), Ok((String::from("A"), 2)));

    assert_eq!(system.vote(v1, 0), Err(Error::AlreadyVoted));
    assert_eq!(system.vote(any, 5), Err(Error::ProposalDoesNotExist));
}
