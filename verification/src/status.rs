//! The status poll: what a session looks like from the calling player's own
//! perspective.

use vstd::prelude::*;

use crate::liveness::{get_status, lemma_status_probe_wf};
use crate::model::{
    has_identity, has_session, lemma_identity_idx_is, lemma_session_idx_is,
    session_idx, wf_store,
};
use crate::response::Response;
use crate::steps::{active_session_idx, my_slot, opp_slot, player_number, status_report_step};
use crate::store::{GameStore, Mode, Opponent};
use crate::turn::{get_player_1_move, get_player_2_move, SENTINEL_MOVE};

verus! {

/// Law: an identity with no active session gets the plain failure from a
/// status poll, and nothing changes.
pub proof fn lemma_no_session_fails(st: crate::model::StoreV, token: Seq<char>, now: i64)
    requires
        active_session_idx(st, token) is None,
    ensures
        status_report_step(st, token, now) == (st, crate::response::ResponseV::Failure),
{
}

/// Answer a status poll. A caller with no active session fails. The creator
/// of a human-mode session nobody has joined yet is told so. Otherwise the
/// answer is caller-relative: a finished session shows the moves of its last
/// completed round; an open round the caller has not moved in asks for a
/// move; after the caller moved, it reports waiting for the opponent. The
/// probe embedded in the call refreshes the caller's contact and can forfeit
/// the session if the opponent timed out.
pub fn get_status_of_game(store: &mut GameStore, user: &String, now: i64) -> (r: Response)
    requires
        wf_store(old(store)@),
    ensures
        wf_store(final(store)@),
        (final(store)@, r@) == status_report_step(old(store)@, user@, now),
{
    let ghost st0 = old(store)@;
    let code = match get_status(store, user, now) {
        None => {
            return Response::Failure;
        },
        Some(c) => c,
    };
    let ghost st1 = store@;
    proof {
        lemma_status_probe_wf(st0, user@, now);
    }
    let i = match store.find_identity(user) {
        None => {
            proof {
                assert(has_identity(st0, user@));
                assert(false);
            }
            return Response::Failure;
        },
        Some(i) => i,
    };
    proof {
        lemma_identity_idx_is(st0, i as int);
        lemma_identity_idx_is(st1, i as int);
    }
    let g = match store.identities[i].game {
        None => {
            proof {
                assert(false);
            }
            return Response::Failure;
        },
        Some(g) => g,
    };
    let j = match store.find_session(g) {
        None => {
            proof {
                assert(has_session(st0, g));
                let k = session_idx(st0, g);
                assert(st1.sessions[k].id == g);
                assert(false);
            }
            return Response::Failure;
        },
        Some(j) => j,
    };
    proof {
        lemma_session_idx_is(st0, j as int);
        assert(active_session_idx(st0, user@) == Some(j as int));
        assert(crate::model::wf_session(st1.sessions[j as int]));
    }
    let caller_is_p1 = store.sessions[j].player1 == *user;
    let ghost pn = player_number(st1.sessions[j as int], user@);
    proof {
        assert(st1.sessions[j as int].player1 == st0.sessions[j as int].player1);
    }
    if caller_is_p1 && store.sessions[j].mode == Mode::HumanVsHuman && matches!(
        &store.sessions[j].player2,
        Opponent::Vacant,
    ) {
        return Response::NoOpponent;
    }
    let loglen = store.sessions[j].log.len();
    if code != 0 {
        if loglen >= 2 {
            let dd = store.sessions[j].log[loglen - 2];
            let your_move = if caller_is_p1 {
                get_player_1_move(dd)
            } else {
                get_player_2_move(dd)
            };
            let opponent_move = if caller_is_p1 {
                get_player_2_move(dd)
            } else {
                get_player_1_move(dd)
            };
            proof {
                assert(your_move == my_slot(dd, pn));
                assert(opponent_move == opp_slot(dd, pn));
            }
            let round = store.sessions[j].round - 1;
            return Response::Report {
                status: 1,
                waiting: 0,
                your_move: Some(your_move),
                opponent_move: Some(opponent_move),
                round: Some(round),
            };
        }
        return Response::Report {
            status: 1,
            waiting: 0,
            your_move: None,
            opponent_move: None,
            round: None,
        };
    }
    let d = store.sessions[j].log[loglen - 1];
    let mine = if caller_is_p1 {
        get_player_1_move(d)
    } else {
        get_player_2_move(d)
    };
    proof {
        assert(mine == my_slot(d, pn));
    }
    if mine == SENTINEL_MOVE {
        Response::Report { status: 0, waiting: 0, your_move: None, opponent_move: None, round: None }
    } else {
        Response::Report {
            status: 0,
            waiting: 1,
            your_move: Some(mine),
            opponent_move: None,
            round: None,
        }
    }
}

} // verus!
