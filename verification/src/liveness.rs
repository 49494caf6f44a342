//! The liveness monitor. Every status or move call from a player probes the
//! caller's session: it refreshes the caller's contact timestamp and, if the
//! opponent has been silent past the timeout, forfeits the session on the
//! spot. There is no background sweep: a session both players abandon stays
//! open.

use vstd::prelude::*;

use crate::model::{
    has_session, identity_idx, lemma_identity_idx_is, lemma_session_idx_is,
    participates, pointer_ok, session_idx, wf_session, wf_store, SessionV, StoreV,
};
use crate::steps::{
    active_session_idx, opponent_timed_out, player_number, status_probe, timed_out, touched,
    TIMEOUT_SECS,
};
use crate::store::{GameStore, Opponent, Status};

verus! {

/// Whether a contact timestamp is stale, computed without overflowing.
pub fn timed_out_check(contact: i64, now: i64) -> (r: bool)
    ensures
        r == timed_out(contact, now),
{
    if contact <= i64::MAX - TIMEOUT_SECS {
        contact + TIMEOUT_SECS < now
    } else {
        false
    }
}

/// Replacing one session row with one that keeps its id, its creator, and
/// everyone seated in it keeps the whole store well formed.
pub proof fn lemma_update_session_wf(st: StoreV, j: int, s2: SessionV)
    requires
        wf_store(st),
        0 <= j < st.sessions.len(),
        s2.id == st.sessions[j].id,
        wf_session(s2),
        s2.player1 == st.sessions[j].player1,
        forall|t: Seq<char>| participates(st.sessions[j], t) ==> participates(s2, t),
    ensures
        wf_store(StoreV { sessions: st.sessions.update(j, s2), ..st }),
{
    let st2 = StoreV { sessions: st.sessions.update(j, s2), ..st };
    assert forall|a: int, b: int| 0 <= a < b < st2.sessions.len() implies st2.sessions[a].id
        != st2.sessions[b].id by {
        assert(st2.sessions[a].id == st.sessions[a].id);
        assert(st2.sessions[b].id == st.sessions[b].id);
    }
    assert forall|k: int| 0 <= k < st2.sessions.len() implies wf_session(
        #[trigger] st2.sessions[k],
    ) by {
        if k != j {
            assert(st2.sessions[k] == st.sessions[k]);
        }
        assert(wf_session(st.sessions[k]));
    }
    assert forall|i: int| 0 <= i < st2.identities.len() implies pointer_ok(
        st2,
        #[trigger] st2.identities[i],
    ) by {
        assert(pointer_ok(st, st.identities[i]));
        match st.identities[i].game {
            Some(g) => {
                let k = session_idx(st, g);
                assert(has_session(st, g));
                assert(0 <= k < st.sessions.len() && st.sessions[k].id == g);
                assert(st2.sessions[k].id == g);
                lemma_session_idx_is(st2, k);
                assert(participates(st2.sessions[k], st.identities[i].token));
            },
            None => {},
        }
    }
}

/// The status probe leaves the store well formed. It never touches the
/// identity rows, never changes which sessions exist, and only appends to
/// the archive.
pub proof fn lemma_status_probe_wf(st: StoreV, token: Seq<char>, now: i64)
    requires
        wf_store(st),
    ensures
        wf_store(status_probe(st, token, now).0),
        status_probe(st, token, now).0.identities == st.identities,
        status_probe(st, token, now).0.sessions.len() == st.sessions.len(),
        forall|k: int|
            0 <= k < st.sessions.len() ==> status_probe(st, token, now).0.sessions[k].id
                == st.sessions[k].id,
{
    let st1 = status_probe(st, token, now).0;
    match active_session_idx(st, token) {
        None => {},
        Some(j) => {
            match st.identities[identity_idx(st, token)].game {
                Some(g) => {
                    assert(has_session(st, g));
                },
                None => {},
            }
            assert(0 <= j < st.sessions.len());
            let s = st.sessions[j];
            if s.status == Status::Finished {
            } else {
                let pn = player_number(s, token);
                let s1 = touched(s, pn, now);
                let snew = if opponent_timed_out(s, pn, now) {
                    SessionV { status: Status::Finished, ..s1 }
                } else {
                    s1
                };
                lemma_update_session_wf(st, j, snew);
                assert(st1.sessions == st.sessions.update(j, snew));
                assert(wf_store(st1));
                assert forall|k: int| 0 <= k < st.sessions.len() implies st1.sessions[k].id
                    == st.sessions[k].id by {
                    if k != j {
                        assert(st1.sessions[k] == st.sessions[k]);
                    }
                }
            }
        },
    }
}

/// Law: when the opponent's contact age exceeds the timeout at the moment of
/// a status probe from the surviving player of an open session, the session
/// becomes finished, its log is archived, and the probe reports the game
/// over.
pub proof fn lemma_timeout_forfeits(st: StoreV, token: Seq<char>, now: i64, j: int)
    requires
        wf_store(st),
        active_session_idx(st, token) == Some(j),
        st.sessions[j].status == Status::Open,
        opponent_timed_out(st.sessions[j], player_number(st.sessions[j], token), now),
    ensures
        0 <= j < st.sessions.len(),
        status_probe(st, token, now).1 == Some(1u8),
        status_probe(st, token, now).0.sessions[j].status == Status::Finished,
        status_probe(st, token, now).0.archive == st.archive.push(st.sessions[j].log),
{
    match st.identities[identity_idx(st, token)].game {
        Some(g) => {
            assert(has_session(st, g));
        },
        None => {},
    }
    assert(0 <= j < st.sessions.len());
}

/// The embedded status probe of every status or move call: `None` when the
/// caller has no active session; otherwise whether the session is over
/// (`Some(1)`) or still open (`Some(0)`), refreshing the caller's contact and
/// forfeiting the session if the opponent timed out.
pub fn get_status(store: &mut GameStore, user: &String, now: i64) -> (r: Option<u8>)
    requires
        wf_store(old(store)@),
    ensures
        wf_store(final(store)@),
        (final(store)@, r) == status_probe(old(store)@, user@, now),
{
    proof {
        lemma_status_probe_wf(old(store)@, user@, now);
    }
    let i = match store.find_identity(user) {
        None => {
            return None;
        },
        Some(i) => i,
    };
    proof {
        lemma_identity_idx_is(old(store)@, i as int);
    }
    let g = match store.identities[i].game {
        None => {
            return None;
        },
        Some(g) => g,
    };
    let j = match store.find_session(g) {
        None => {
            proof {
                assert(!has_session(old(store)@, g));
            }
            return None;
        },
        Some(j) => j,
    };
    proof {
        lemma_session_idx_is(old(store)@, j as int);
        assert(active_session_idx(old(store)@, user@) == Some(j as int));
    }
    if store.sessions[j].status == Status::Finished {
        return Some(1);
    }
    let caller_is_p1 = store.sessions[j].player1 == *user;
    let quit = if caller_is_p1 {
        match &store.sessions[j].player2 {
            Opponent::Human(_) => timed_out_check(store.sessions[j].contact2, now),
            _ => false,
        }
    } else {
        timed_out_check(store.sessions[j].contact1, now)
    };
    let ghost pn = player_number(old(store)@.sessions[j as int], user@);
    let archived = if quit {
        Some(GameStore::copy_log(&store.sessions[j].log))
    } else {
        None
    };
    let mut s = store.sessions.remove(j);
    if caller_is_p1 {
        s.contact1 = now;
    } else {
        s.contact2 = now;
    }
    if quit {
        s.status = Status::Finished;
    }
    proof {
        assert(quit == opponent_timed_out(old(store)@.sessions[j as int], pn, now));
        assert(s@ == if quit {
            SessionV {
                status: Status::Finished,
                ..touched(old(store)@.sessions[j as int], pn, now)
            }
        } else {
            touched(old(store)@.sessions[j as int], pn, now)
        });
    }
    store.sessions.insert(j, s);
    proof {
        assert(store@.sessions =~= old(store)@.sessions.update(
            j as int,
            store@.sessions[j as int],
        ));
    }
    match archived {
        Some(log) => {
            store.push_archive(log);
            Some(1)
        },
        None => Some(0),
    }
}

} // verus!
