//! End-to-end scenarios over the session engine: matchmaking, round
//! resolution, score progression, completion, and liveness forfeiture.

use game_sessions::identity::new_id;
use game_sessions::lifecycle::new_game;
use game_sessions::matchmaker::search_for_human_game;
use game_sessions::moves::{make_move, submit_move};
use game_sessions::response::Response;
use game_sessions::status::get_status_of_game;
use game_sessions::store::{GameStore, Mode, Opponent, Status};

fn issue(store: &mut GameStore) -> String {
    match new_id(store) {
        Response::NewIdentity { id } => id,
        r => panic!("identity issue failed: {:?}", r),
    }
}

fn create(store: &mut GameStore, user: &String, mode: Mode, now: i64) -> u64 {
    match new_game(store, user, mode, now) {
        Response::NewGame { id } => id,
        r => panic!("session creation failed: {:?}", r),
    }
}

fn session_index(store: &GameStore, id: u64) -> usize {
    store.sessions.iter().position(|s| s.id == id).unwrap()
}

#[test]
fn fresh_identities_are_distinct_32_char_tokens() {
    let mut store = GameStore::new();
    let a = issue(&mut store);
    let b = issue(&mut store);
    assert_eq!(a.chars().count(), 32);
    assert_eq!(b.chars().count(), 32);
    assert_ne!(a, b);
    assert_eq!(store.identities.len(), 2);
}

#[test]
fn first_session_id_comes_from_the_narrow_range() {
    let mut store = GameStore::new();
    let p1 = issue(&mut store);
    let sid = create(&mut store, &p1, Mode::HumanVsHuman, 100);
    assert!(1 <= sid && sid <= 100);
}

#[test]
fn new_game_initialises_the_session_row() {
    let mut store = GameStore::new();
    let p1 = issue(&mut store);
    let sid = create(&mut store, &p1, Mode::HumanVsHuman, 100);
    let s = &store.sessions[session_index(&store, sid)];
    assert_eq!(s.status, Status::Open);
    assert_eq!(s.mode, Mode::HumanVsHuman);
    assert_eq!(s.player1, p1);
    assert_eq!(s.player2, Opponent::Vacant);
    assert_eq!((s.score1, s.score2), (0, 0));
    assert_eq!(s.round, 1);
    assert_eq!(s.log, vec![16]);
    assert_eq!((s.contact1, s.contact2), (100, 100));
}

#[test]
fn new_game_for_unknown_identity_is_empty_answer() {
    let mut store = GameStore::new();
    let ghost_user = String::from("nobody");
    assert_eq!(new_game(&mut store, &ghost_user, Mode::HumanVsHuman, 100), Response::Nothing);
    assert_eq!(store.sessions.len(), 0);
}

#[test]
fn new_game_force_finishes_the_previous_open_session() {
    let mut store = GameStore::new();
    let p1 = issue(&mut store);
    let first = create(&mut store, &p1, Mode::HumanVsHuman, 100);
    let second = create(&mut store, &p1, Mode::HumanVsHuman, 200);
    assert_ne!(first, second);
    let s1 = &store.sessions[session_index(&store, first)];
    assert_eq!(s1.status, Status::Finished);
    let s2 = &store.sessions[session_index(&store, second)];
    assert_eq!(s2.status, Status::Open);
    // The force-finished session went to the archive with its log.
    assert_eq!(store.archive, vec![vec![16]]);
    // The identity now points at the new session.
    assert_eq!(store.identities[0].game, Some(second));
}

#[test]
fn matchmaker_never_assigns_a_candidate_to_its_own_session() {
    let mut store = GameStore::new();
    let p1 = issue(&mut store);
    create(&mut store, &p1, Mode::HumanVsHuman, 100);
    assert_eq!(search_for_human_game(&mut store, &p1, 100), Response::Failure);
}

#[test]
fn matchmaker_claims_the_first_eligible_session() {
    let mut store = GameStore::new();
    let p1 = issue(&mut store);
    let p2 = issue(&mut store);
    let sid = create(&mut store, &p1, Mode::HumanVsHuman, 100);
    assert_eq!(search_for_human_game(&mut store, &p2, 105), Response::MatchFound { id: sid });
    let s = &store.sessions[session_index(&store, sid)];
    assert_eq!(s.player2, Opponent::Human(p2.clone()));
    assert_eq!(s.contact2, 105);
    assert_eq!(store.identities[1].game, Some(sid));
    // A second candidate finds nothing: the seat is taken.
    let p3 = issue(&mut store);
    assert_eq!(search_for_human_game(&mut store, &p3, 106), Response::Failure);
}

#[test]
fn matchmaker_skips_bot_sessions_and_stale_creators() {
    let mut store = GameStore::new();
    let p1 = issue(&mut store);
    let p2 = issue(&mut store);
    let p3 = issue(&mut store);
    create(&mut store, &p1, Mode::HumanVsBot, 100);
    // A bot session never waits for a human.
    assert_eq!(search_for_human_game(&mut store, &p2, 100), Response::Failure);
    // A waiting session whose creator went silent past the timeout is skipped.
    let sid = create(&mut store, &p2, Mode::HumanVsHuman, 100);
    assert_eq!(search_for_human_game(&mut store, &p3, 131), Response::Failure);
    // At the very limit the creator still counts as live.
    assert_eq!(search_for_human_game(&mut store, &p3, 130), Response::MatchFound { id: sid });
}

#[test]
fn two_humans_play_one_round() {
    let mut store = GameStore::new();
    let p1 = issue(&mut store);
    let p2 = issue(&mut store);
    let sid = create(&mut store, &p1, Mode::HumanVsHuman, 100);
    // Until someone joins, the creator is told no opponent was found.
    assert_eq!(get_status_of_game(&mut store, &p1, 100), Response::NoOpponent);
    assert_eq!(search_for_human_game(&mut store, &p2, 100), Response::MatchFound { id: sid });
    // Player 1 moves first: the round waits for the opponent.
    assert_eq!(make_move(&mut store, &p1, 0, 101), Response::Empty);
    assert_eq!(
        get_status_of_game(&mut store, &p1, 101),
        Response::Report {
            status: 0,
            waiting: 1,
            your_move: Some(0),
            opponent_move: None,
            round: None,
        },
    );
    assert_eq!(
        get_status_of_game(&mut store, &p2, 101),
        Response::Report {
            status: 0,
            waiting: 0,
            your_move: None,
            opponent_move: None,
            round: None,
        },
    );
    // Player 2 answers with 1: the digit is 0 + 4*1 = 4, a win for player 2.
    assert_eq!(make_move(&mut store, &p2, 1, 102), Response::Empty);
    let s = &store.sessions[session_index(&store, sid)];
    assert_eq!((s.score1, s.score2), (0, 1));
    assert_eq!(s.round, 2);
    assert_eq!(s.log, vec![4, 15]);
}

#[test]
fn score_three_finishes_and_rejects_further_moves() {
    let mut store = GameStore::new();
    let p1 = issue(&mut store);
    let p2 = issue(&mut store);
    let sid = create(&mut store, &p1, Mode::HumanVsHuman, 100);
    search_for_human_game(&mut store, &p2, 100);
    for _ in 0..3 {
        assert_eq!(make_move(&mut store, &p1, 0, 101), Response::Empty);
        assert_eq!(make_move(&mut store, &p2, 1, 101), Response::Empty);
    }
    let s = &store.sessions[session_index(&store, sid)];
    assert_eq!(s.status, Status::Finished);
    assert_eq!((s.score1, s.score2), (0, 3));
    assert_eq!(s.log, vec![4, 4, 4, 15]);
    // The finished log went to the archive.
    assert_eq!(store.archive, vec![vec![4, 4, 4, 15]]);
    // Further moves are rejected with the final status.
    assert_eq!(make_move(&mut store, &p1, 0, 102), Response::StatusOnly { status: 1 });
    assert_eq!(make_move(&mut store, &p2, 2, 102), Response::StatusOnly { status: 1 });
    // The status poll reports the last completed round, caller-relative.
    assert_eq!(
        get_status_of_game(&mut store, &p1, 102),
        Response::Report {
            status: 1,
            waiting: 0,
            your_move: Some(0),
            opponent_move: Some(1),
            round: Some(3),
        },
    );
    assert_eq!(
        get_status_of_game(&mut store, &p2, 102),
        Response::Report {
            status: 1,
            waiting: 0,
            your_move: Some(1),
            opponent_move: Some(0),
            round: Some(3),
        },
    );
}

#[test]
fn tie_rounds_change_no_score_but_advance_the_round() {
    let mut store = GameStore::new();
    let p1 = issue(&mut store);
    let p2 = issue(&mut store);
    let sid = create(&mut store, &p1, Mode::HumanVsHuman, 100);
    search_for_human_game(&mut store, &p2, 100);
    assert_eq!(make_move(&mut store, &p1, 2, 101), Response::Empty);
    assert_eq!(make_move(&mut store, &p2, 2, 101), Response::Empty);
    let s = &store.sessions[session_index(&store, sid)];
    assert_eq!((s.score1, s.score2), (0, 0));
    assert_eq!(s.round, 2);
    assert_eq!(s.status, Status::Open);
    assert_eq!(s.log, vec![10, 15]);
}

#[test]
fn out_of_domain_move_is_rejected_without_any_change() {
    let mut store = GameStore::new();
    let p1 = issue(&mut store);
    let p2 = issue(&mut store);
    let sid = create(&mut store, &p1, Mode::HumanVsHuman, 100);
    search_for_human_game(&mut store, &p2, 100);
    assert_eq!(make_move(&mut store, &p1, 3, 101), Response::Failure);
    assert_eq!(make_move(&mut store, &p1, 200, 101), Response::Failure);
    let s = &store.sessions[session_index(&store, sid)];
    assert_eq!(s.log, vec![16]);
    assert_eq!(s.round, 1);
    // The rejection did not even refresh the caller's contact.
    assert_eq!(s.contact1, 100);
}

#[test]
fn bot_game_resolves_in_the_same_call() {
    let mut store = GameStore::new();
    let p1 = issue(&mut store);
    let sid = create(&mut store, &p1, Mode::HumanVsBot, 50);
    // The scripted player's move is injected before classification, so the
    // round never waits. With the bot answering 1 against 0, player 2 wins.
    assert_eq!(submit_move(&mut store, &p1, 0, 51, 1), Response::Empty);
    let s = &store.sessions[session_index(&store, sid)];
    assert_eq!((s.score1, s.score2), (0, 1));
    assert_eq!(s.round, 2);
    assert_eq!(s.log, vec![4, 15]);
}

#[test]
fn bot_game_never_waits_whatever_the_draw() {
    let mut store = GameStore::new();
    let p1 = issue(&mut store);
    let sid = create(&mut store, &p1, Mode::HumanVsBot, 50);
    assert_eq!(make_move(&mut store, &p1, 0, 51), Response::Empty);
    let s = &store.sessions[session_index(&store, sid)];
    assert_eq!(s.round, 2);
    assert_eq!(s.score1 + s.score2 <= 1, true);
}

#[test]
fn opponent_timeout_forfeits_on_the_next_poll() {
    let mut store = GameStore::new();
    let p1 = issue(&mut store);
    let p2 = issue(&mut store);
    let sid = create(&mut store, &p1, Mode::HumanVsHuman, 1000);
    search_for_human_game(&mut store, &p2, 1000);
    // At exactly the timeout the opponent still counts as live.
    assert_eq!(
        get_status_of_game(&mut store, &p1, 1030),
        Response::Report {
            status: 0,
            waiting: 0,
            your_move: None,
            opponent_move: None,
            round: None,
        },
    );
    // One second past it, the survivor's poll forfeits the session.
    assert_eq!(
        get_status_of_game(&mut store, &p1, 1031),
        Response::Report {
            status: 1,
            waiting: 0,
            your_move: None,
            opponent_move: None,
            round: None,
        },
    );
    let s = &store.sessions[session_index(&store, sid)];
    assert_eq!(s.status, Status::Finished);
    assert_eq!(store.archive.len(), 1);
    assert_eq!(make_move(&mut store, &p2, 0, 1031), Response::StatusOnly { status: 1 });
}

#[test]
fn polling_keeps_the_caller_alive() {
    let mut store = GameStore::new();
    let p1 = issue(&mut store);
    let p2 = issue(&mut store);
    let sid = create(&mut store, &p1, Mode::HumanVsHuman, 1000);
    search_for_human_game(&mut store, &p2, 1000);
    // Both players keep polling: nobody times out.
    for t in [1010i64, 1020, 1030, 1040] {
        get_status_of_game(&mut store, &p1, t);
        get_status_of_game(&mut store, &p2, t);
    }
    let s = &store.sessions[session_index(&store, sid)];
    assert_eq!(s.status, Status::Open);
    assert_eq!((s.contact1, s.contact2), (1040, 1040));
}

#[test]
fn status_of_identity_without_session_fails() {
    let mut store = GameStore::new();
    let p1 = issue(&mut store);
    assert_eq!(get_status_of_game(&mut store, &p1, 100), Response::Failure);
    let stranger = String::from("not-an-identity");
    assert_eq!(get_status_of_game(&mut store, &stranger, 100), Response::Failure);
    assert_eq!(make_move(&mut store, &stranger, 0, 100), Response::Failure);
    assert_eq!(search_for_human_game(&mut store, &stranger, 100), Response::Failure);
}

#[test]
fn matchmaker_takes_the_oldest_waiting_session() {
    let mut store = GameStore::new();
    let p1 = issue(&mut store);
    let p2 = issue(&mut store);
    let p3 = issue(&mut store);
    let first = create(&mut store, &p1, Mode::HumanVsHuman, 100);
    let second = create(&mut store, &p2, Mode::HumanVsHuman, 100);
    // Both sessions wait; the claim goes to the one created first.
    assert_eq!(search_for_human_game(&mut store, &p3, 101), Response::MatchFound { id: first });
    let s2 = &store.sessions[session_index(&store, second)];
    assert_eq!(s2.player2, Opponent::Vacant);
}

#[test]
fn mixed_rounds_credit_each_winner_once() {
    let mut store = GameStore::new();
    let p1 = issue(&mut store);
    let p2 = issue(&mut store);
    let sid = create(&mut store, &p1, Mode::HumanVsHuman, 100);
    search_for_human_game(&mut store, &p2, 100);
    // Round 1: 1 against 0 gives digit 1, a win for player 1.
    make_move(&mut store, &p1, 1, 101);
    make_move(&mut store, &p2, 0, 101);
    // Round 2: 2 against 2 gives digit 10, a tie.
    make_move(&mut store, &p1, 2, 102);
    make_move(&mut store, &p2, 2, 102);
    // Round 3: 0 against 1 gives digit 4, a win for player 2.
    make_move(&mut store, &p1, 0, 103);
    make_move(&mut store, &p2, 1, 103);
    let s = &store.sessions[session_index(&store, sid)];
    assert_eq!((s.score1, s.score2), (1, 1));
    assert_eq!(s.round, 4);
    assert_eq!(s.log, vec![1, 10, 4, 15]);
    assert_eq!(s.status, Status::Open);
}

#[test]
fn resubmission_overwrites_the_callers_own_slot() {
    let mut store = GameStore::new();
    let p1 = issue(&mut store);
    let p2 = issue(&mut store);
    let sid = create(&mut store, &p1, Mode::HumanVsHuman, 100);
    search_for_human_game(&mut store, &p2, 100);
    make_move(&mut store, &p1, 0, 101);
    make_move(&mut store, &p1, 2, 101);
    let s = &store.sessions[session_index(&store, sid)];
    // Still waiting for the opponent, with the caller's latest choice held.
    assert_eq!(s.log, vec![game_sessions::turn::get_global_move(2, 3)]);
    assert_eq!(s.round, 1);
}
