//! The request dispatch: one verified entry point for every endpoint.

use game_sessions::api::{formulate_response, Request};
use game_sessions::response::Response;
use game_sessions::store::{GameStore, Mode, Status};

#[test]
fn dispatch_new_id_issues_a_token() {
    let mut store = GameStore::new();
    match formulate_response(&mut store, &Request::NewId) {
        Response::NewIdentity { id } => assert_eq!(id.chars().count(), 32),
        r => panic!("unexpected answer: {:?}", r),
    }
    assert_eq!(store.identities.len(), 1);
}

#[test]
fn dispatch_new_game_reads_the_kind_field() {
    let mut store = GameStore::new();
    let token = match formulate_response(&mut store, &Request::NewId) {
        Response::NewIdentity { id } => id,
        r => panic!("unexpected answer: {:?}", r),
    };
    let req = Request::NewGame { id: token.clone(), kind: String::from("ai") };
    let sid = match formulate_response(&mut store, &req) {
        Response::NewGame { id } => id,
        r => panic!("unexpected answer: {:?}", r),
    };
    let s = store.sessions.iter().find(|s| s.id == sid).unwrap();
    assert_eq!(s.mode, Mode::HumanVsBot);
    let req = Request::NewGame { id: token.clone(), kind: String::from("human") };
    let sid2 = match formulate_response(&mut store, &req) {
        Response::NewGame { id } => id,
        r => panic!("unexpected answer: {:?}", r),
    };
    let s2 = store.sessions.iter().find(|s| s.id == sid2).unwrap();
    assert_eq!(s2.mode, Mode::HumanVsHuman);
    // Creating the second game force-finished the first.
    let s1 = store.sessions.iter().find(|s| s.id == sid).unwrap();
    assert_eq!(s1.status, Status::Finished);
}

#[test]
fn dispatch_rejects_a_malformed_move_field() {
    let mut store = GameStore::new();
    let token = match formulate_response(&mut store, &Request::NewId) {
        Response::NewIdentity { id } => id,
        r => panic!("unexpected answer: {:?}", r),
    };
    formulate_response(
        &mut store,
        &Request::NewGame { id: token.clone(), kind: String::from("ai") },
    );
    let req = Request::MakeMove { id: token.clone(), mv: String::from("abc") };
    assert_eq!(formulate_response(&mut store, &req), Response::Failure);
    let req = Request::MakeMove { id: token.clone(), mv: String::from("9") };
    assert_eq!(formulate_response(&mut store, &req), Response::Failure);
    // A well-formed move goes through and, in bot mode, resolves the round.
    let req = Request::MakeMove { id: token.clone(), mv: String::from("1") };
    assert_eq!(formulate_response(&mut store, &req), Response::Empty);
    let s = store.sessions.iter().find(|s| s.round == 2).unwrap();
    assert_eq!(s.log.len(), 2);
}

#[test]
fn dispatch_unknown_url_names_it() {
    let mut store = GameStore::new();
    let req = Request::Unknown { url: String::from("/missing") };
    match formulate_response(&mut store, &req) {
        Response::Message { text } => {
            assert_eq!(text, "The provided url /missing could not be resolved.");
        },
        r => panic!("unexpected answer: {:?}", r),
    }
}

#[test]
fn dispatch_search_pairs_two_players() {
    let mut store = GameStore::new();
    let p1 = match formulate_response(&mut store, &Request::NewId) {
        Response::NewIdentity { id } => id,
        r => panic!("unexpected answer: {:?}", r),
    };
    let p2 = match formulate_response(&mut store, &Request::NewId) {
        Response::NewIdentity { id } => id,
        r => panic!("unexpected answer: {:?}", r),
    };
    let sid = match formulate_response(
        &mut store,
        &Request::NewGame { id: p1.clone(), kind: String::from("human") },
    ) {
        Response::NewGame { id } => id,
        r => panic!("unexpected answer: {:?}", r),
    };
    assert_eq!(
        formulate_response(&mut store, &Request::SearchForHumanGame { id: p2.clone() }),
        Response::MatchFound { id: sid },
    );
    // The status poll now sees an opponent on both sides.
    match formulate_response(&mut store, &Request::GetStatusOfGame { id: p1.clone() }) {
        Response::Report { status: 0, waiting: 0, .. } => {},
        r => panic!("unexpected answer: {:?}", r),
    }
}
