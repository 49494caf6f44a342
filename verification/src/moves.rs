//! Move submission: the turn engine's read-decode-overwrite-encode-write of
//! the open round's digit, with score progression and match completion.

use vstd::prelude::*;

use crate::liveness::{get_status, lemma_status_probe_wf, lemma_update_session_wf};
use crate::model::{
    has_identity, has_session, identity_idx, lemma_identity_idx_is, lemma_session_idx_is,
    session_idx, wf_session, wf_store, SessionV, StoreV,
};
use crate::response::Response;
use crate::steps::{
    active_session_idx, opponent_timed_out, player_number, status_probe, submit_step,
    submitted_digit, touched,
};
use crate::store::{GameStore, Mode, Status};
use crate::turn::{outcome_of, Outcomes, OPEN_MARK};

verus! {

/// Law: a round that resolves as a win for player 1 raises player 1's score
/// by one, leaves player 2's score unchanged, and advances the round counter
/// by one.
pub proof fn lemma_win1_round(
    st: StoreV,
    token: Seq<char>,
    mv: u8,
    now: i64,
    bot: u8,
    j: int,
)
    requires
        wf_store(st),
        mv <= 2,
        active_session_idx(st, token) == Some(j),
        st.sessions[j].status == Status::Open,
        !opponent_timed_out(st.sessions[j], player_number(st.sessions[j], token), now),
        outcome_of(
            submitted_digit(st.sessions[j], player_number(st.sessions[j], token), mv, bot),
        ) == Outcomes::WIN1,
    ensures
        0 <= j < st.sessions.len(),
        submit_step(st, token, mv, now, bot).0.sessions[j].score1 == st.sessions[j].score1 + 1,
        submit_step(st, token, mv, now, bot).0.sessions[j].score2 == st.sessions[j].score2,
        submit_step(st, token, mv, now, bot).0.sessions[j].round == st.sessions[j].round + 1,
        submit_step(st, token, mv, now, bot).1 == crate::response::ResponseV::Empty,
{
    match st.identities[identity_idx(st, token)].game {
        Some(g) => {
            assert(has_session(st, g));
        },
        None => {},
    }
    assert(0 <= j < st.sessions.len());
    assert(wf_session(st.sessions[j]));
    let s = st.sessions[j];
    let pn = player_number(s, token);
    let s1 = touched(s, pn, now);
    assert(player_number(s1, token) == pn);
    assert(submitted_digit(s1, pn, mv, bot) == submitted_digit(s, pn, mv, bot));
    let (st1, code) = status_probe(st, token, now);
    assert(code == Some(0u8));
    assert(st1.sessions[j] == s1);
}

/// Law: when a resolved round brings either score to 3, the session
/// transitions to Finished and its log is handed to the archive.
pub proof fn lemma_score3_finishes(
    st: StoreV,
    token: Seq<char>,
    mv: u8,
    now: i64,
    bot: u8,
    j: int,
)
    requires
        wf_store(st),
        mv <= 2,
        active_session_idx(st, token) == Some(j),
        st.sessions[j].status == Status::Open,
        !opponent_timed_out(st.sessions[j], player_number(st.sessions[j], token), now),
        ({
            let o = outcome_of(
                submitted_digit(st.sessions[j], player_number(st.sessions[j], token), mv, bot),
            );
            (o == Outcomes::WIN1 && st.sessions[j].score1 == 2) || (o == Outcomes::WIN2
                && st.sessions[j].score2 == 2)
        }),
    ensures
        0 <= j < st.sessions.len(),
        submit_step(st, token, mv, now, bot).0.sessions[j].status == Status::Finished,
        submit_step(st, token, mv, now, bot).0.archive == st.archive.push(
            submit_step(st, token, mv, now, bot).0.sessions[j].log,
        ),
{
    match st.identities[identity_idx(st, token)].game {
        Some(g) => {
            assert(has_session(st, g));
        },
        None => {},
    }
    assert(0 <= j < st.sessions.len());
    assert(wf_session(st.sessions[j]));
    let s = st.sessions[j];
    let pn = player_number(s, token);
    let s1 = touched(s, pn, now);
    assert(player_number(s1, token) == pn);
    assert(submitted_digit(s1, pn, mv, bot) == submitted_digit(s, pn, mv, bot));
    let (st1, code) = status_probe(st, token, now);
    assert(code == Some(0u8));
    assert(st1.sessions[j] == s1);
    assert(st1.archive == st.archive);
}

/// Law: a move sent to a session that is already finished changes nothing
/// and, when the move itself is in the domain, answers the final status.
pub proof fn lemma_finished_rejects(
    st: StoreV,
    token: Seq<char>,
    mv: u8,
    now: i64,
    bot: u8,
    j: int,
)
    requires
        wf_store(st),
        active_session_idx(st, token) == Some(j),
        st.sessions[j].status == Status::Finished,
    ensures
        submit_step(st, token, mv, now, bot).0 == st,
        mv <= 2 ==> submit_step(st, token, mv, now, bot).1 == (crate::response::ResponseV::StatusOnly { status: 1 }),
{
    match st.identities[identity_idx(st, token)].game {
        Some(g) => {
            assert(has_session(st, g));
        },
        None => {},
    }
    assert(0 <= j < st.sessions.len());
}

/// Submit one move for the caller at the given clock reading. In bot mode
/// the scripted player's move is drawn inside the call, so the round can
/// resolve immediately; the answer and the new store are `submit_step` for
/// whatever the draw returned.
pub fn make_move(store: &mut GameStore, user: &String, mv: u8, now: i64) -> (r: Response)
    requires
        wf_store(old(store)@),
    ensures
        wf_store(final(store)@),
        exists|bot: u8|
            bot <= 2 && (final(store)@, r@) == submit_step(old(store)@, user@, mv, now, bot),
{
    let bot = crate::entropy::random_in_range(0, 2) as u8;
    let r = submit_move(store, user, mv, now, bot);
    proof {
        assert((store@, r@) == submit_step(old(store)@, user@, mv, now, bot));
    }
    r
}

/// Submit one move for the caller, with every outside draw already made: the
/// clock reading and, for bot mode, the scripted player's move. The call is
/// exactly the `submit_step` transition.
pub fn submit_move(store: &mut GameStore, user: &String, mv: u8, now: i64, bot_move: u8) -> (r:
    Response)
    requires
        wf_store(old(store)@),
        bot_move <= 2,
    ensures
        wf_store(final(store)@),
        (final(store)@, r@) == submit_step(old(store)@, user@, mv, now, bot_move),
{
    let ghost st0 = old(store)@;
    if mv > 2 {
        return Response::Failure;
    }
    let code = get_status(store, user, now);
    let ghost st1 = store@;
    let c = match code {
        None => {
            proof {
                assert(st1 == st0);
            }
            return Response::Failure;
        },
        Some(c) => c,
    };
    if c != 0 {
        return Response::StatusOnly { status: 1 };
    }
    proof {
        lemma_status_probe_wf(st0, user@, now);
    }
    let i = match store.find_identity(user) {
        None => {
            proof {
                assert(has_identity(st0, user@));
                assert(false);
            }
            return Response::Failure;
        },
        Some(i) => i,
    };
    proof {
        lemma_identity_idx_is(st0, i as int);
        lemma_identity_idx_is(st1, i as int);
    }
    let g = match store.identities[i].game {
        None => {
            proof {
                assert(false);
            }
            return Response::Failure;
        },
        Some(g) => g,
    };
    let j = match store.find_session(g) {
        None => {
            proof {
                assert(has_session(st0, g));
                let k = session_idx(st0, g);
                assert(st1.sessions[k].id == g);
                assert(false);
            }
            return Response::Failure;
        },
        Some(j) => j,
    };
    proof {
        lemma_session_idx_is(st0, j as int);
        assert(active_session_idx(st0, user@) == Some(j as int));
        assert(st1.sessions[j as int] == touched(
            st0.sessions[j as int],
            player_number(st0.sessions[j as int], user@),
            now,
        ));
        assert(wf_session(st1.sessions[j as int]));
    }
    let caller_is_p1 = store.sessions[j].player1 == *user;
    let ghost pn = player_number(st1.sessions[j as int], user@);
    let lastpos = store.sessions[j].log.len() - 1;
    let d = store.sessions[j].log[lastpos];
    let mine = if caller_is_p1 {
        crate::turn::update_global_move(d, Some(mv), None)
    } else {
        crate::turn::update_global_move(d, None, Some(mv))
    };
    let is_bot = store.sessions[j].mode == Mode::HumanVsBot;
    let d2 = if is_bot {
        crate::turn::update_global_move(mine, None, Some(bot_move))
    } else {
        mine
    };
    proof {
        assert(d2 == submitted_digit(st1.sessions[j as int], pn, mv, bot_move));
    }
    let outcome = Outcomes::get_outcome(d2);
    let resolved = outcome == Outcomes::TIE || outcome == Outcomes::WIN1 || outcome
        == Outcomes::WIN2;
    let mut s = store.sessions.remove(j);
    let ghost s_pre = st1.sessions[j as int];
    if !resolved {
        let _ = s.log.pop();
        s.log.push(d2);
        proof {
            assert(s.log@ =~= s_pre.log.update(s_pre.log.len() - 1, d2));
            assert(s@ == SessionV { log: s_pre.log.update(s_pre.log.len() - 1, d2), ..s_pre });
            lemma_update_session_wf(st1, j as int, s@);
        }
        store.sessions.insert(j, s);
        proof {
            assert(store@.sessions =~= st1.sessions.update(j as int, store@.sessions[j as int]));
        }
        Response::Empty
    } else {
        if outcome == Outcomes::WIN1 {
            s.score1 = s.score1 + 1;
        }
        if outcome == Outcomes::WIN2 {
            s.score2 = s.score2 + 1;
        }
        let _ = s.log.pop();
        s.log.push(d2);
        s.log.push(OPEN_MARK);
        s.round = s.log.len();
        let over = s.score1 == 3 || s.score2 == 3;
        if over {
            s.status = Status::Finished;
        }
        let archived = if over {
            Some(GameStore::copy_log(&s.log))
        } else {
            None
        };
        proof {
            let sc1 = if outcome_of(d2) == Outcomes::WIN1 {
                (s_pre.score1 + 1) as u8
            } else {
                s_pre.score1
            };
            let sc2 = if outcome_of(d2) == Outcomes::WIN2 {
                (s_pre.score2 + 1) as u8
            } else {
                s_pre.score2
            };
            let log2 = s_pre.log.update(s_pre.log.len() - 1, d2).push(OPEN_MARK);
            assert(s.log@ =~= log2);
            assert(s@ == SessionV {
                status: if sc1 == 3 || sc2 == 3 {
                    Status::Finished
                } else {
                    Status::Open
                },
                score1: sc1,
                score2: sc2,
                log: log2,
                round: s_pre.round + 1,
                ..s_pre
            });
            lemma_update_session_wf(st1, j as int, s@);
        }
        store.sessions.insert(j, s);
        proof {
            assert(store@.sessions =~= st1.sessions.update(j as int, store@.sessions[j as int]));
        }
        match archived {
            Some(log) => {
                store.push_archive(log);
            },
            None => {},
        }
        Response::Empty
    }
}

} // verus!
