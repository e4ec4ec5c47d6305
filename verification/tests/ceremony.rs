use ceremony_coordinator::coordinator::CoordinatorState;
use ceremony_coordinator::errors::{CoordinatorError, ResponseError};
use ceremony_coordinator::objects::{ContributionInfo, ContributionLocator, ContributorStatus, Task};
use ceremony_coordinator::participant::Participant;
use ceremony_coordinator::rest::{
    contribute_chunk, join_queue, perform_verify_chunks, post_contribution_info, stop_coordinator,
    CurrentContributor, NewParticipant, Secret, ServerAuth,
};
use ceremony_coordinator::tokens::TokenStore;

fn store_with_tokens(tokens: &[&str]) -> TokenStore {
    let cohort: Vec<String> = tokens.iter().map(|t| t.to_string()).collect();
    TokenStore::new(vec![cohort], 0)
}

fn fresh_state(tokens: &[&str]) -> CoordinatorState {
    let verifier = Participant::new_verifier("coordinator-verifier");
    CoordinatorState::new(store_with_tokens(tokens), vec![verifier])
}

fn enqueue(state: &mut CoordinatorState, pubkey: &str, token: &str, now: u64) {
    let np = NewParticipant::from_pubkey(state, pubkey, None, "/contributor/join_queue").unwrap();
    join_queue(state, np, &token.to_string(), 10, now).unwrap();
}

#[test]
fn happy_path() {
    // Admit C1 with a cohort-0 token; lock at round 1; contribute; verify;
    // the round advances to 2.
    let mut state = fresh_state(&["aaaaaaaaaaaaaaaaaaaa"]);
    assert_eq!(state.current_round_height(), 1);

    enqueue(&mut state, "c1", "aaaaaaaaaaaaaaaaaaaa", 5);
    assert!(state.is_queue_contributor(&Participant::new_contributor("c1")));

    // The periodic tick promotes C1 into round 1.
    assert_eq!(state.update().unwrap(), true);
    assert_eq!(state.current_round_height(), 1);
    let c1 = CurrentContributor::from_pubkey(&state, "c1", "/contributor/lock_chunk").unwrap();

    let locators = state.try_lock(c1.participant()).unwrap();
    assert_eq!(
        locators.previous_contribution,
        ContributionLocator::new(1, 0, 0, true)
    );
    assert_eq!(locators.next_contribution, ContributionLocator::new(1, 0, 1, false));

    contribute_chunk(&mut state, &c1, 0).unwrap();
    assert_eq!(state.get_pending_verifications(), Some(Task::new(1, 0, 1)));
    assert!(state.is_finished_contributor(&Participant::new_contributor("c1")));

    // The periodic tick verifies the artifact and then advances the round.
    assert_eq!(perform_verify_chunks(&mut state, true).unwrap(), None);
    assert_eq!(state.get_pending_verifications(), None);
    assert_eq!(state.update().unwrap(), true);
    assert_eq!(state.current_round_height(), 2);
}

#[test]
fn wrong_role_is_unauthorized() {
    // A valid signature from a participant that is not the current
    // contributor is refused with 401.
    let mut state = fresh_state(&["aaaaaaaaaaaaaaaaaaaa", "bbbbbbbbbbbbbbbbbbbb"]);
    enqueue(&mut state, "c1", "aaaaaaaaaaaaaaaaaaaa", 5);
    enqueue(&mut state, "c2", "bbbbbbbbbbbbbbbbbbbb", 6);
    state.update().unwrap();

    // c1 was admitted first and is the current contributor; c2 is not.
    let err = CurrentContributor::from_pubkey(&state, "c2", "/contributor/lock_chunk").unwrap_err();
    assert_eq!(err.http_status(), 401);
    match err {
        ResponseError::UnauthorizedParticipant(p, endpoint, cause) => {
            assert_eq!(p.address().as_str(), "c2");
            assert_eq!(endpoint, "/contributor/lock_chunk");
            assert_eq!(cause, "Participant is not the current contributor");
        }
        other => panic!("unexpected: {:?}", other),
    }
}

#[test]
fn invalid_token_kinds() {
    // A malformed token is a 400 with the format kind; a well-formed token
    // outside the set is a 401 naming the cohort.
    let mut state = fresh_state(&["aaaaaaaaaaaaaaaaaaaa"]);
    let np = NewParticipant::from_pubkey(&state, "c9", None, "/contributor/join_queue").unwrap();
    let err = join_queue(&mut state, np, &"zzzzzzzzzzzzzzzzzzzz".to_string(), 10, 5).unwrap_err();
    assert_eq!(err.http_status(), 400);
    assert!(matches!(err, ResponseError::InvalidTokenFormat));

    let np = NewParticipant::from_pubkey(&state, "c9", None, "/contributor/join_queue").unwrap();
    let err = join_queue(&mut state, np, &"1111111111111111111f".to_string(), 10, 5).unwrap_err();
    assert_eq!(err.http_status(), 401);
    match err {
        ResponseError::InvalidToken(cohort) => assert_eq!(cohort, 0),
        other => panic!("unexpected: {:?}", other),
    }
    assert!(!state.is_queue_contributor(&Participant::new_contributor("c9")));
}

#[test]
fn token_reuse_is_allowed_by_store_but_admission_is_unique() {
    let mut state = fresh_state(&["aaaaaaaaaaaaaaaaaaaa"]);
    enqueue(&mut state, "c1", "aaaaaaaaaaaaaaaaaaaa", 5);
    // The same participant cannot be admitted twice.
    let err =
        NewParticipant::from_pubkey(&state, "c1", None, "/contributor/join_queue").unwrap_err();
    assert_eq!(err.http_status(), 401);
}

#[test]
fn verification_failure_resets_round_and_bans() {
    // A rejected artifact rolls the round back, bans the contributor, and
    // the next queued contributor is promoted on the next tick.
    let mut state = fresh_state(&["aaaaaaaaaaaaaaaaaaaa", "bbbbbbbbbbbbbbbbbbbb"]);
    enqueue(&mut state, "c1", "aaaaaaaaaaaaaaaaaaaa", 5);
    enqueue(&mut state, "c2", "bbbbbbbbbbbbbbbbbbbb", 6);
    state.update().unwrap();
    let c1 = CurrentContributor::from_pubkey(&state, "c1", "/contributor/lock_chunk").unwrap();
    state.try_lock(c1.participant()).unwrap();
    contribute_chunk(&mut state, &c1, 0).unwrap();

    let banned = perform_verify_chunks(&mut state, false).unwrap().unwrap();
    assert_eq!(banned.address().as_str(), "c1");
    assert!(state.is_banned_participant(&Participant::new_contributor("c1")));
    assert_eq!(state.get_pending_verifications(), None);
    assert_eq!(state.current_round_height(), 1);

    // Next tick: c2 takes over the same round.
    assert_eq!(state.update().unwrap(), true);
    assert_eq!(state.current_round_height(), 1);
    assert!(state.is_current_contributor(&Participant::new_contributor("c2")));

    // The banned contributor cannot rejoin.
    let err =
        NewParticipant::from_pubkey(&state, "c1", None, "/contributor/join_queue").unwrap_err();
    match err {
        ResponseError::UnauthorizedParticipant(_, _, cause) => {
            assert_eq!(cause, "participant is banned");
        }
        other => panic!("unexpected: {:?}", other),
    }
}

#[test]
fn queue_status_and_positions() {
    let mut state = fresh_state(&["aaaaaaaaaaaaaaaaaaaa", "bbbbbbbbbbbbbbbbbbbb"]);
    enqueue(&mut state, "c1", "aaaaaaaaaaaaaaaaaaaa", 5);
    enqueue(&mut state, "c2", "bbbbbbbbbbbbbbbbbbbb", 6);
    state.update().unwrap();

    let c1 = Participant::new_contributor("c1");
    let c2 = Participant::new_contributor("c2");
    let c3 = Participant::new_contributor("c3");
    assert_eq!(state.contributor_queue_status(&c1), ContributorStatus::Round);
    // c2 has no planned round: its position is the queue size.
    assert_eq!(state.contributor_queue_status(&c2), ContributorStatus::Queue(1, 1));
    assert_eq!(state.contributor_queue_status(&c3), ContributorStatus::Other);
}

#[test]
fn heartbeat_and_drop_unresponsive() {
    let mut state = fresh_state(&["aaaaaaaaaaaaaaaaaaaa", "bbbbbbbbbbbbbbbbbbbb"]);
    enqueue(&mut state, "c1", "aaaaaaaaaaaaaaaaaaaa", 5);
    enqueue(&mut state, "c2", "bbbbbbbbbbbbbbbbbbbb", 6);

    let c1 = Participant::new_contributor("c1");
    let c2 = Participant::new_contributor("c2");
    // c1 keeps reporting; c2 goes silent.
    state.heartbeat(&c1, 100).unwrap();
    state.drop_unresponsive(110, 50).unwrap();
    assert!(state.is_queue_contributor(&c1));
    assert!(!state.is_queue_contributor(&c2));
    assert!(state.is_dropped_participant(&c2));

    // A dropped participant cannot heartbeat or rejoin.
    match state.heartbeat(&c2, 120) {
        Err(CoordinatorError::ParticipantUnknown) => {}
        other => panic!("unexpected: {:?}", other),
    }
    let err =
        NewParticipant::from_pubkey(&state, "c2", None, "/contributor/join_queue").unwrap_err();
    match err {
        ResponseError::UnauthorizedParticipant(_, _, cause) => {
            assert_eq!(cause, "participant was dropped");
        }
        other => panic!("unexpected: {:?}", other),
    }
}

#[test]
fn current_contributor_drop_frees_round() {
    let mut state = fresh_state(&["aaaaaaaaaaaaaaaaaaaa", "bbbbbbbbbbbbbbbbbbbb"]);
    enqueue(&mut state, "c1", "aaaaaaaaaaaaaaaaaaaa", 5);
    enqueue(&mut state, "c2", "bbbbbbbbbbbbbbbbbbbb", 6);
    state.update().unwrap();
    let c1 = Participant::new_contributor("c1");
    assert!(state.is_current_contributor(&c1));

    // c1 never heartbeats after promotion (stamp 5): at time 1000 with a
    // 100 tick timeout it is dropped and the next tick promotes c2, which
    // kept reporting.
    state.heartbeat(&Participant::new_contributor("c2"), 950).unwrap();
    state.drop_unresponsive(1000, 100).unwrap();
    assert!(!state.is_current_contributor(&c1));
    assert!(state.is_dropped_participant(&c1));
    assert_eq!(state.update().unwrap(), true);
    assert!(state.is_current_contributor(&Participant::new_contributor("c2")));
    assert_eq!(state.current_round_height(), 1);
}

#[test]
fn lock_errors() {
    let mut state = fresh_state(&["aaaaaaaaaaaaaaaaaaaa"]);
    enqueue(&mut state, "c1", "aaaaaaaaaaaaaaaaaaaa", 5);
    state.update().unwrap();
    let c1 = Participant::new_contributor("c1");
    let c2 = Participant::new_contributor("c2");

    match state.try_lock(&c2) {
        Err(CoordinatorError::NotCurrentContributor) => {}
        other => panic!("unexpected: {:?}", other),
    }
    state.try_lock(&c1).unwrap();
    match state.try_lock(&c1) {
        Err(CoordinatorError::ChunkAlreadyLocked) => {}
        other => panic!("unexpected: {:?}", other),
    }
    // Contributing to a chunk other than 0 is refused.
    match state.try_contribute(&c1, 3) {
        Err(CoordinatorError::WrongChunk) => {}
        other => panic!("unexpected: {:?}", other),
    }
}

#[test]
fn contribution_info_validation() {
    let mut state = fresh_state(&["aaaaaaaaaaaaaaaaaaaa"]);
    enqueue(&mut state, "c1", "aaaaaaaaaaaaaaaaaaaa", 5);
    state.update().unwrap();
    let c1 = CurrentContributor::from_pubkey(&state, "c1", "/contributor/contribution_info").unwrap();

    let good = ContributionInfo { public_key: "c1".to_string(), ceremony_round: 1 };
    post_contribution_info(&state, &c1, &good).unwrap();

    let wrong_key = ContributionInfo { public_key: "cX".to_string(), ceremony_round: 1 };
    match post_contribution_info(&state, &c1, &wrong_key) {
        Err(ResponseError::InvalidContributionInfo(m)) => {
            assert_eq!(m, "Public key in info cX doesnt' match the participant one c1");
        }
        other => panic!("unexpected: {:?}", other),
    }

    let wrong_round = ContributionInfo { public_key: "c1".to_string(), ceremony_round: 7 };
    match post_contribution_info(&state, &c1, &wrong_round) {
        Err(ResponseError::InvalidContributionInfo(m)) => {
            assert_eq!(m, "Round height in info 7 doesnt' match the current round height 1");
        }
        other => panic!("unexpected: {:?}", other),
    }
}

#[test]
fn server_auth_and_secret() {
    let state = fresh_state(&["aaaaaaaaaaaaaaaaaaaa"]);
    ServerAuth::check(&state, "coordinator-verifier", "/stop").unwrap();
    let err = ServerAuth::check(&state, "someone-else", "/stop").unwrap_err();
    assert_eq!(err.http_status(), 401);

    let expected = "shared-access-value".to_string();
    Secret::from_header(Some(&expected.clone()), &expected).unwrap();
    let err = Secret::from_header(Some(&"wrong".to_string()), &expected).unwrap_err();
    assert!(matches!(err, ResponseError::InvalidSecret));
    assert!(Secret::from_header(None, &expected).is_err());
}

#[test]
fn shutdown_blocks_mutations() {
    let mut state = fresh_state(&["aaaaaaaaaaaaaaaaaaaa"]);
    stop_coordinator(&mut state).unwrap();
    let err =
        NewParticipant::from_pubkey(&state, "c1", None, "/contributor/join_queue").unwrap_err();
    match err {
        ResponseError::UnauthorizedParticipant(_, _, cause) => {
            assert_eq!(cause, "coordinator was shut down");
        }
        other => panic!("unexpected: {:?}", other),
    }
    // A repeated stop reports a shutdown error.
    assert!(stop_coordinator(&mut state).is_err());
}

#[test]
fn promotion_prefers_earlier_admission() {
    let mut state = fresh_state(&[
        "aaaaaaaaaaaaaaaaaaaa",
        "bbbbbbbbbbbbbbbbbbbb",
        "cccccccccccccccccccc",
    ]);
    enqueue(&mut state, "late", "aaaaaaaaaaaaaaaaaaaa", 50);
    enqueue(&mut state, "early", "bbbbbbbbbbbbbbbbbbbb", 10);
    state.update().unwrap();
    assert!(state.is_current_contributor(&Participant::new_contributor("early")));
}

#[test]
fn exhausted_cohorts_end_ceremony() {
    // With no cohort list left for the current index, a well-formed token
    // is refused because the ceremony is over.
    let verifier = Participant::new_verifier("coordinator-verifier");
    let store = TokenStore::new(Vec::new(), 0);
    let mut state = CoordinatorState::new(store, vec![verifier]);
    let np = NewParticipant::from_pubkey(&state, "c1", None, "/contributor/join_queue").unwrap();
    let err = join_queue(&mut state, np, &"aaaaaaaaaaaaaaaaaaaa".to_string(), 10, 5).unwrap_err();
    assert_eq!(err.http_status(), 401);
    assert!(matches!(err, ResponseError::CeremonyIsOver));
}

#[test]
fn driver_pass_drops_and_advances() {
    // One driver pass after a verified round: the stale contributor is
    // dropped, the round completes, and the freshest waiting contributor
    // is promoted — all in the one composed step.
    let mut state = fresh_state(&[
        "aaaaaaaaaaaaaaaaaaaa",
        "bbbbbbbbbbbbbbbbbbbb",
        "cccccccccccccccccccc",
    ]);
    enqueue(&mut state, "c1", "aaaaaaaaaaaaaaaaaaaa", 5);
    enqueue(&mut state, "c2", "bbbbbbbbbbbbbbbbbbbb", 6);
    enqueue(&mut state, "c3", "cccccccccccccccccccc", 7);
    state.update().unwrap();
    let c1 = CurrentContributor::from_pubkey(&state, "c1", "/contributor/lock_chunk").unwrap();
    state.try_lock(c1.participant()).unwrap();
    contribute_chunk(&mut state, &c1, 0).unwrap();
    perform_verify_chunks(&mut state, true).unwrap();

    // c2 keeps reporting, c3 went silent since admission.
    state.heartbeat(&Participant::new_contributor("c2"), 950).unwrap();
    ceremony_coordinator::rest::perform_coordinator_update(&mut state, 1000, 100).unwrap();

    assert_eq!(state.current_round_height(), 2);
    assert!(state.is_current_contributor(&Participant::new_contributor("c2")));
    assert!(state.is_dropped_participant(&Participant::new_contributor("c3")));
    assert!(!state.is_finished_contributor(&Participant::new_contributor("c1")));
}
