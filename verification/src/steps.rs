//! The handlers as mathematical transitions. Each request kind has a spec
//! function from the store (and the inputs the outside world supplies: the
//! clock reading and any random draws) to the next store and the response.
//! The executable handlers promise to equal these transitions, so every law
//! of the engine is a statement about the functions in this module.

use vstd::prelude::*;

use crate::model::{
    has_identity, has_session, identity_idx, session_idx, IdentityV, OpponentV, SessionV, StoreV,
};
use crate::response::ResponseV;
use crate::store::{Mode, Status};
use crate::turn::{
    is_resolved, outcome_of, slot1_of, slot2_of, update_digit, Outcomes, OPEN_MARK, SENTINEL_MOVE,
    UNDEFINED_MARK,
};

verus! {

/// How long an opponent may stay silent, in seconds, before a status poll
/// from the surviving player forfeits the session.
pub const TIMEOUT_SECS: i64 = 30;

/// A player whose last contact is older than the timeout has quit.
pub open spec fn timed_out(contact: i64, now: i64) -> bool {
    contact + TIMEOUT_SECS < now
}

/// The caller's seat: 1 when the token is the creator's, else 2.
pub open spec fn player_number(s: SessionV, token: Seq<char>) -> int {
    if s.player1 == token {
        1
    } else {
        2
    }
}

/// The slot of a combined digit belonging to the given seat.
pub open spec fn my_slot(d: u8, pn: int) -> u8 {
    if pn == 1 {
        slot1_of(d)
    } else {
        slot2_of(d)
    }
}

/// The slot of a combined digit belonging to the other seat.
pub open spec fn opp_slot(d: u8, pn: int) -> u8 {
    if pn == 1 {
        slot2_of(d)
    } else {
        slot1_of(d)
    }
}

/// The session with the given seat's contact timestamp set to `now`.
pub open spec fn touched(s: SessionV, pn: int, now: i64) -> SessionV {
    if pn == 1 {
        SessionV { contact1: now, ..s }
    } else {
        SessionV { contact2: now, ..s }
    }
}

/// Whether the caller's opponent has quit: for the creator, a human in the
/// second seat whose contact is stale (an empty seat and the scripted player
/// never time out); for the second seat, a stale creator.
pub open spec fn opponent_timed_out(s: SessionV, pn: int, now: i64) -> bool {
    if pn == 1 {
        s.player2 matches OpponentV::Human(_) && timed_out(s.contact2, now)
    } else {
        timed_out(s.contact1, now)
    }
}

/// The index of the session the identity is playing in, if it has one.
pub open spec fn active_session_idx(st: StoreV, token: Seq<char>) -> Option<int> {
    if has_identity(st, token) {
        match st.identities[identity_idx(st, token)].game {
            Some(g) => if has_session(st, g) {
                Some(session_idx(st, g))
            } else {
                None
            },
            None => None,
        }
    } else {
        None
    }
}

/// The liveness-monitoring status probe embedded in every status or move
/// call. `None`: the caller has no active session. `Some(1)`: the session is
/// over, whether it already was or the opponent just timed out of it (the
/// forfeited session is finished and its log archived). `Some(0)`: the
/// session is open and the caller's contact timestamp was refreshed.
pub open spec fn status_probe(st: StoreV, token: Seq<char>, now: i64) -> (StoreV, Option<u8>) {
    match active_session_idx(st, token) {
        None => (st, None),
        Some(j) => {
            let s = st.sessions[j];
            if s.status == Status::Finished {
                (st, Some(1u8))
            } else {
                let pn = player_number(s, token);
                let s1 = touched(s, pn, now);
                if opponent_timed_out(s, pn, now) {
                    (
                        StoreV {
                            sessions: st.sessions.update(j, SessionV { status: Status::Finished, ..s1 }),
                            archive: st.archive.push(s.log),
                            ..st
                        },
                        Some(1u8),
                    )
                } else {
                    (StoreV { sessions: st.sessions.update(j, s1), ..st }, Some(0u8))
                }
            }
        },
    }
}

/// The open round's digit after a submission: the caller's slot is
/// overwritten with the move; in bot mode the scripted player's slot is then
/// overwritten with the bot's draw.
pub open spec fn submitted_digit(s: SessionV, pn: int, mv: u8, bot: u8) -> u8 {
    let mine = if pn == 1 {
        update_digit(s.log.last(), Some(mv), None)
    } else {
        update_digit(s.log.last(), None, Some(mv))
    };
    if s.mode == Mode::HumanVsBot {
        update_digit(mine, None, Some(bot))
    } else {
        mine
    }
}

/// One move submission. An out-of-domain move is rejected outright. A caller
/// without an open session gets the failure or the final status. Otherwise
/// the caller's slot of the open digit is overwritten; in bot mode the
/// scripted player's slot is then overwritten with `bot`. If the digit is
/// still waiting it is merely stored. A resolved digit credits the winner,
/// opens the next round, and, once a score reaches 3, finishes the session
/// and archives its log.
pub open spec fn submit_step(st: StoreV, token: Seq<char>, mv: u8, now: i64, bot: u8) -> (
    StoreV,
    ResponseV,
) {
    if mv > 2 {
        (st, ResponseV::Failure)
    } else {
        let (st1, code) = status_probe(st, token, now);
        match code {
            None => (st, ResponseV::Failure),
            Some(c) => {
                if c != 0 {
                    (st1, ResponseV::StatusOnly { status: 1 })
                } else {
                    match active_session_idx(st, token) {
                        None => (st, ResponseV::Failure),
                        Some(j) => {
                            let s = st1.sessions[j];
                            let pn = player_number(s, token);
                            let d2 = submitted_digit(s, pn, mv, bot);
                            if is_resolved(d2) {
                                let sc1 = if outcome_of(d2) == Outcomes::WIN1 {
                                    (s.score1 + 1) as u8
                                } else {
                                    s.score1
                                };
                                let sc2 = if outcome_of(d2) == Outcomes::WIN2 {
                                    (s.score2 + 1) as u8
                                } else {
                                    s.score2
                                };
                                let log2 = s.log.update(s.log.len() - 1, d2).push(OPEN_MARK);
                                let over = sc1 == 3 || sc2 == 3;
                                let s2 = SessionV {
                                    status: if over {
                                        Status::Finished
                                    } else {
                                        Status::Open
                                    },
                                    score1: sc1,
                                    score2: sc2,
                                    log: log2,
                                    round: s.round + 1,
                                    ..s
                                };
                                (
                                    StoreV {
                                        sessions: st1.sessions.update(j, s2),
                                        archive: if over {
                                            st1.archive.push(log2)
                                        } else {
                                            st1.archive
                                        },
                                        ..st1
                                    },
                                    ResponseV::Empty,
                                )
                            } else {
                                let s2 = SessionV { log: s.log.update(s.log.len() - 1, d2), ..s };
                                (
                                    StoreV { sessions: st1.sessions.update(j, s2), ..st1 },
                                    ResponseV::Empty,
                                )
                            }
                        },
                    }
                }
            },
        }
    }
}

/// One status poll. A caller without an active session fails. The creator of
/// a human-mode session still waiting for a second player is told so.
/// Otherwise the answer reports, from the caller's perspective: a finished
/// session with the moves of its last completed round; an open round the
/// caller has not moved in; or the caller's own move while the opponent is
/// still due.
pub open spec fn status_report_step(st: StoreV, token: Seq<char>, now: i64) -> (
    StoreV,
    ResponseV,
) {
    let (st1, code) = status_probe(st, token, now);
    match code {
        None => (st1, ResponseV::Failure),
        Some(c) => match active_session_idx(st, token) {
            None => (st1, ResponseV::Failure),
            Some(j) => {
                let s = st1.sessions[j];
                let pn = player_number(s, token);
                if pn == 1 && s.mode == Mode::HumanVsHuman && s.player2 is Vacant {
                    (st1, ResponseV::NoOpponent)
                } else if c != 0 {
                    if s.log.len() >= 2 {
                        let dd = s.log[s.log.len() - 2];
                        (
                            st1,
                            ResponseV::Report {
                                status: 1,
                                waiting: 0,
                                your_move: Some(my_slot(dd, pn)),
                                opponent_move: Some(opp_slot(dd, pn)),
                                round: Some(s.round - 1),
                            },
                        )
                    } else {
                        (
                            st1,
                            ResponseV::Report {
                                status: 1,
                                waiting: 0,
                                your_move: None,
                                opponent_move: None,
                                round: None,
                            },
                        )
                    }
                } else {
                    let d = s.log.last();
                    if my_slot(d, pn) == SENTINEL_MOVE {
                        (
                            st1,
                            ResponseV::Report {
                                status: 0,
                                waiting: 0,
                                your_move: None,
                                opponent_move: None,
                                round: None,
                            },
                        )
                    } else {
                        (
                            st1,
                            ResponseV::Report {
                                status: 0,
                                waiting: 1,
                                your_move: Some(my_slot(d, pn)),
                                opponent_move: None,
                                round: None,
                            },
                        )
                    }
                }
            },
        },
    }
}

/// A waiting session the candidate may claim: open, second seat empty, not
/// created by the candidate, and its creator has not gone silent past the
/// timeout.
pub open spec fn eligible(s: SessionV, token: Seq<char>, now: i64) -> bool {
    &&& s.status == Status::Open
    &&& s.player2 is Vacant
    &&& s.player1 != token
    &&& !timed_out(s.contact1, now)
}

/// The first claimable session in creation order, if any.
pub open spec fn first_eligible(ss: Seq<SessionV>, token: Seq<char>, now: i64) -> Option<int>
    decreases ss.len(),
{
    if ss.len() == 0 {
        None
    } else if eligible(ss[0], token, now) {
        Some(0)
    } else {
        match first_eligible(ss.drop_first(), token, now) {
            Some(k) => Some(k + 1),
            None => None,
        }
    }
}

/// One matchmaking call. An unknown candidate, or no claimable session,
/// is a plain failure. Otherwise the first claimable session in creation
/// order gets the candidate in its second seat with a fresh contact
/// timestamp, and the candidate's session pointer moves to it.
pub open spec fn search_step(st: StoreV, token: Seq<char>, now: i64) -> (StoreV, ResponseV) {
    if !has_identity(st, token) {
        (st, ResponseV::Failure)
    } else {
        match first_eligible(st.sessions, token, now) {
            None => (st, ResponseV::Failure),
            Some(j) => {
                let s = st.sessions[j];
                let s1 = SessionV { player2: OpponentV::Human(token), contact2: now, ..s };
                let i = identity_idx(st, token);
                let x1 = IdentityV { game: Some(s.id), ..st.identities[i] };
                (
                    StoreV {
                        sessions: st.sessions.update(j, s1),
                        identities: st.identities.update(i, x1),
                        ..st
                    },
                    ResponseV::MatchFound { id: s.id },
                )
            },
        }
    }
}

/// A session as created: empty scores, round 1 open on the placeholder, both
/// contact timestamps at now, and the second seat empty unless the scripted
/// player takes it.
pub open spec fn fresh_session(sid: u64, token: Seq<char>, mode: Mode, now: i64) -> SessionV {
    SessionV {
        id: sid,
        status: Status::Open,
        mode: mode,
        player1: token,
        player2: if mode == Mode::HumanVsBot {
            OpponentV::Bot
        } else {
            OpponentV::Vacant
        },
        score1: 0,
        score2: 0,
        contact1: now,
        contact2: now,
        log: seq![UNDEFINED_MARK],
        round: 1,
    }
}

/// Force-finish the session the pointer leads to, if it exists and is still
/// open: no winner is computed, the log is archived as it stands.
pub open spec fn finish_prior(st: StoreV, game: Option<u64>) -> StoreV {
    match game {
        None => st,
        Some(g) => {
            if has_session(st, g) && st.sessions[session_idx(st, g)].status == Status::Open {
                let j = session_idx(st, g);
                let s = st.sessions[j];
                StoreV {
                    sessions: st.sessions.update(j, SessionV { status: Status::Finished, ..s }),
                    archive: st.archive.push(s.log),
                    ..st
                }
            } else {
                st
            }
        },
    }
}

/// One session creation with the allocated id `sid`. An unknown identity gets
/// the empty answer and changes nothing. Otherwise any open session the
/// identity still owns is force-finished first, the new session is appended,
/// and the identity's pointer moves to it.
pub open spec fn new_game_step(st: StoreV, token: Seq<char>, mode: Mode, now: i64, sid: u64) -> (
    StoreV,
    ResponseV,
) {
    if !has_identity(st, token) {
        (st, ResponseV::Nothing)
    } else {
        let i = identity_idx(st, token);
        let st1 = finish_prior(st, st.identities[i].game);
        let st2 = StoreV {
            sessions: st1.sessions.push(fresh_session(sid, token, mode, now)),
            identities: st1.identities.update(i, IdentityV { token: token, game: Some(sid) }),
            ..st1
        };
        (st2, ResponseV::NewGame { id: sid })
    }
}

/// A new identity row for a fresh token, with no session yet.
pub open spec fn register_identity(st: StoreV, token: Seq<char>) -> StoreV {
    StoreV { identities: st.identities.push(IdentityV { token: token, game: None }), ..st }
}

} // verus!
