use voting_system::{AccountId, Error, VotingSystem};

#[test]
fn test_inicializacion_y_acceso_owner() {
    let alice = AccountId(1);
    let bob = AccountId(2);
    let mut contract = VotingSystem::new(alice);

    assert_eq!(contract.total_proposals(), 0);

    let res = contract.create_proposal(bob, String::from("Falla"));
    assert_eq!(res, Err(Error::OnlyOwnerCanPerformAction));
}

#[test]
fn test_creacion_propuestas_y_consulta() {
    let alice = AccountId(1);
    let mut contract = VotingSystem::new(alice);

    assert_eq!(contract.create_proposal(alice, String::from("Propuestarda0")), Ok(0));
    assert_eq!(contract.create_proposal(alice, String::from("Propuestarda00")), Ok(1));
    assert_eq!(contract.total_proposals(), 2);

    let proposal = contract.get_proposal(0).unwrap();
    assert_eq!(proposal.0, "Propuestarda0");
    assert_eq!(proposal.1, 0);
}

#[test]
fn test_registro_votos_exitoso() {
    let alice = AccountId(1);
    let bob = AccountId(2);
    let charlie = AccountId(3);
    let mut contract = VotingSystem::new(alice);

    contract.create_proposal(alice, String::from("Propuestarda1")).unwrap();

    assert!(contract.vote(bob, 0).is_ok());
    assert!(contract.vote(charlie, 0).is_ok());

    let (_, votos) = contract.get_proposal(0).unwrap();
    assert_eq!(votos, 2);
}

#[test]
fn test_reversion_doble_voto() {
    let alice = AccountId(1);
    let bob = AccountId(2);
    let mut contract = VotingSystem::new(alice);

    contract.create_proposal(alice, String::from("Unico Voto")).unwrap();

    assert!(contract.vote(bob, 0).is_ok());
    assert_eq!(contract.vote(bob, 0), Err(Error::AlreadyVoted));
}

#[test]
fn test_reversion_propuesta_inexistente() {
    let alice = AccountId(1);
    let bob = AccountId(2);
    let mut contract = VotingSystem::new(alice);

    assert_eq!(contract.vote(bob, 99), Err(Error::ProposalDoesNotExist));
    assert_eq!(contract.get_proposal(99), Err(Error::ProposalDoesNotExist));
}

#[test]
fn test_emision_de_eventos() {
    let alice = AccountId(1);
    let bob = AccountId(2);
    let mut contract = VotingSystem::new(alice);

    contract.create_proposal(alice, String::from("Evento Testeardo")).unwrap();
    contract.vote(bob, 0).unwrap();

    let emitted_events = contract.notifications();
    assert!(emitted_events.len() >= 2);
}
