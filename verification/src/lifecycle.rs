//! Session creation: force-finishing the creator's previous open session,
//! allocating a fresh session id, and writing the new row.

use vstd::prelude::*;

use vstd::seq_lib::seq_to_set_is_finite;
use vstd::set_lib::{lemma_int_range, lemma_len_subset, set_int_range};

use crate::liveness::lemma_update_session_wf;
use crate::model::{
    has_session, lemma_identity_idx_is, lemma_session_idx_is,
    participates, pointer_ok, session_idx, wf_session, wf_store, IdentityV, SessionV, StoreV,
};
use crate::response::Response;
use crate::steps::{finish_prior, fresh_session, new_game_step};
use crate::store::{GameStore, Mode, Opponent, Session, Status};
use crate::turn::UNDEFINED_MARK;

verus! {

/// A store's session rows cannot fill a range one longer than the row count:
/// some id among `1..=len+1` names no session.
proof fn lemma_some_id_free(st: StoreV, bound: int)
    requires
        bound == st.sessions.len() + 1,
        bound <= u64::MAX,
    ensures
        exists|m: int|
            #![trigger has_session(st, (m as u64))]
            1 <= m <= bound && !has_session(st, (m as u64)),
{
    broadcast use seq_to_set_is_finite;

    if forall|m: int|
        #![trigger has_session(st, (m as u64))]
        1 <= m <= bound ==> has_session(st, (m as u64)) {
        let ids = st.sessions.map_values(|s: SessionV| s.id as int);
        assert forall|m: int| 1 <= m < bound + 1 implies ids.to_set().contains(m) by {
            assert(has_session(st, (m as u64)));
            let k = choose|k: int| 0 <= k < st.sessions.len() && st.sessions[k].id == (m as u64);
            assert(ids[k] == m);
            assert(ids.contains(m));
        }
        assert(set_int_range(1, bound + 1).subset_of(ids.to_set()));
        lemma_int_range(1, bound + 1);
        lemma_len_subset(set_int_range(1, bound + 1), ids.to_set());
        ids.lemma_cardinality_of_set();
        assert(false);
    }
}

/// The smallest-indexed scan that is sure to succeed: some id in
/// `1..=len+1` names no session, and the first such id is returned.
pub fn first_free_session_id(store: &GameStore) -> (sid: u64)
    requires
        wf_store(store@),
        store@.sessions.len() < u64::MAX,
    ensures
        sid >= 1,
        !has_session(store@, sid),
{
    let bound = store.sessions.len() as u64;
    let mut c: u64 = 1;
    while c <= bound
        invariant
            wf_store(store@),
            bound == store@.sessions.len() as u64,
            bound < u64::MAX,
            1 <= c <= bound + 1,
            forall|m: int|
                #![trigger has_session(store@, (m as u64))]
                1 <= m < c ==> has_session(store@, (m as u64)),
        decreases bound + 1 - c,
    {
        match store.find_session(c) {
            None => {
                return c;
            },
            Some(j) => {
                proof {
                    lemma_session_idx_is(store@, j as int);
                }
            },
        }
        c = c + 1;
    }
    match store.find_session(c) {
        None => c,
        Some(_) => {
            proof {
                assert(forall|m: int|
                    #![trigger has_session(store@, (m as u64))]
                    1 <= m <= bound + 1 ==> has_session(store@, (m as u64)));
                lemma_some_id_free(store@, bound as int + 1);
                let m = choose|m: int|
                    #![trigger has_session(store@, (m as u64))]
                    1 <= m <= bound + 1 && !has_session(store@, (m as u64));
                assert(has_session(store@, (m as u64)));
                assert(false);
            }
            c
        },
    }
}

/// How many random draws the id allocator makes before falling back to the
/// deterministic scan.
pub const ID_ATTEMPTS: u64 = 16;

/// A power of ten, for the widening id range.
fn pow10(n: u32) -> (r: u64)
    requires
        n <= 9,
    ensures
        1 <= r <= 1_000_000_000,
{
    if n == 0 {
        1
    } else if n == 1 {
        10
    } else if n == 2 {
        100
    } else if n == 3 {
        1_000
    } else if n == 4 {
        10_000
    } else if n == 5 {
        100_000
    } else if n == 6 {
        1_000_000
    } else if n == 7 {
        10_000_000
    } else if n == 8 {
        100_000_000
    } else {
        1_000_000_000
    }
}

/// Allocate a session id nothing in the store carries: draw from a numeric
/// range that starts at two decimal digits and widens by one digit on every
/// collision, keeping ids short; after too many collisions fall back to the
/// scan that cannot fail.
pub fn allocate_session_id(store: &GameStore) -> (sid: u64)
    requires
        wf_store(store@),
        store@.sessions.len() < u64::MAX,
    ensures
        sid >= 1,
        !has_session(store@, sid),
{
    let mut width: u32 = 2;
    let mut k: u64 = 0;
    while k < ID_ATTEMPTS
        invariant
            2 <= width <= 9,
        decreases ID_ATTEMPTS - k,
    {
        let hi = pow10(width);
        let cand = crate::entropy::random_in_range(1, hi);
        if store.find_session(cand).is_none() {
            return cand;
        }
        if width < 9 {
            width = width + 1;
        }
        k = k + 1;
    }
    first_free_session_id(store)
}

/// Appending a fresh-id session and pointing a known identity at it keeps
/// the store well formed.
proof fn lemma_create_wf(st: StoreV, i: int, s_new: SessionV)
    requires
        wf_store(st),
        0 <= i < st.identities.len(),
        wf_session(s_new),
        !has_session(st, s_new.id),
        s_new.player1 == st.identities[i].token,
    ensures
        wf_store(
            StoreV {
                sessions: st.sessions.push(s_new),
                identities: st.identities.update(
                    i,
                    IdentityV { token: st.identities[i].token, game: Some(s_new.id) },
                ),
                ..st
            },
        ),
{
    let st2 = StoreV {
        sessions: st.sessions.push(s_new),
        identities: st.identities.update(
            i,
            IdentityV { token: st.identities[i].token, game: Some(s_new.id) },
        ),
        ..st
    };
    let n = st.sessions.len() as int;
    assert forall|a: int, b: int| 0 <= a < b < st2.identities.len() implies st2.identities[a].token
        != st2.identities[b].token by {
        assert(st2.identities[a].token == st.identities[a].token);
        assert(st2.identities[b].token == st.identities[b].token);
    }
    assert forall|a: int, b: int| 0 <= a < b < st2.sessions.len() implies st2.sessions[a].id
        != st2.sessions[b].id by {
        if b < n {
            assert(st.sessions[a].id != st.sessions[b].id);
        } else {
            assert(st2.sessions[b] == s_new);
            if st.sessions[a].id == s_new.id {
                assert(has_session(st, s_new.id));
            }
        }
    }
    assert forall|k: int| 0 <= k < st2.sessions.len() implies wf_session(
        #[trigger] st2.sessions[k],
    ) by {
        if k < n {
            assert(st2.sessions[k] == st.sessions[k]);
            assert(wf_session(st.sessions[k]));
        }
    }
    assert forall|k: int| 0 <= k < st2.identities.len() implies pointer_ok(
        st2,
        #[trigger] st2.identities[k],
    ) by {
        if k == i {
            assert(st2.sessions[n] == s_new);
            lemma_session_idx_is(st2, n);
            assert(participates(s_new, st.identities[i].token));
        } else {
            assert(st2.identities[k] == st.identities[k]);
            assert(pointer_ok(st, st.identities[k]));
            match st.identities[k].game {
                Some(g) => {
                    let m = session_idx(st, g);
                    assert(0 <= m < st.sessions.len() && st.sessions[m].id == g);
                    assert(st2.sessions[m].id == g);
                    lemma_session_idx_is(st2, m);
                    assert(participates(st2.sessions[m], st2.identities[k].token));
                },
                None => {},
            }
        }
    }
}

/// Create a session under an already-allocated fresh id: an unknown identity
/// gets the empty answer; otherwise any open session the identity still owns
/// is force-finished and archived, the new row is written, and the identity's
/// pointer moves to it.
pub fn new_game_with_id(
    store: &mut GameStore,
    user: &String,
    mode: Mode,
    now: i64,
    sid: u64,
) -> (r: Response)
    requires
        wf_store(old(store)@),
        !has_session(old(store)@, sid),
    ensures
        wf_store(final(store)@),
        (final(store)@, r@) == new_game_step(old(store)@, user@, mode, now, sid),
{
    let ghost st0 = old(store)@;
    let i = match store.find_identity(user) {
        None => {
            return Response::Nothing;
        },
        Some(i) => i,
    };
    proof {
        lemma_identity_idx_is(st0, i as int);
    }
    // Force-finish the identity's previous session if it is still open.
    match store.identities[i].game {
        None => {},
        Some(g) => {
            match store.find_session(g) {
                None => {
                    proof {
                        assert(!has_session(st0, g));
                    }
                },
                Some(k) => {
                    proof {
                        lemma_session_idx_is(st0, k as int);
                    }
                    if store.sessions[k].status == Status::Open {
                        let archived = GameStore::copy_log(&store.sessions[k].log);
                        let mut s = store.sessions.remove(k);
                        s.status = Status::Finished;
                        proof {
                            assert(s@ == SessionV {
                                status: Status::Finished,
                                ..st0.sessions[k as int]
                            });
                            lemma_update_session_wf(st0, k as int, s@);
                        }
                        store.sessions.insert(k, s);
                        store.push_archive(archived);
                        proof {
                            assert(store@.sessions =~= st0.sessions.update(
                                k as int,
                                store@.sessions[k as int],
                            ));
                        }
                    }
                },
            }
        },
    }
    let ghost st1 = finish_prior(st0, st0.identities[i as int].game);
    proof {
        assert(store@ == st1);
        assert(wf_store(st1));
        if has_session(st1, sid) {
            let m = session_idx(st1, sid);
            assert(0 <= m < st1.sessions.len() && st1.sessions[m].id == sid);
            assert(st0.sessions[m].id == sid);
            assert(has_session(st0, sid));
        }
        assert(!has_session(st1, sid));
    }
    let token = user.clone();
    let mut log: Vec<u8> = Vec::new();
    log.push(UNDEFINED_MARK);
    let s_new = Session {
        id: sid,
        status: Status::Open,
        mode: mode,
        player1: token,
        player2: if mode == Mode::HumanVsBot {
            Opponent::Bot
        } else {
            Opponent::Vacant
        },
        score1: 0,
        score2: 0,
        contact1: now,
        contact2: now,
        log: log,
        round: 1,
    };
    proof {
        assert(s_new.log@ =~= seq![UNDEFINED_MARK]);
        assert(s_new@ == fresh_session(sid, user@, mode, now));
        assert(st1.identities[i as int].token == user@);
        lemma_create_wf(st1, i as int, s_new@);
    }
    store.push_session(s_new);
    let mut x = store.identities.remove(i);
    x.game = Some(sid);
    store.identities.insert(i, x);
    proof {
        assert(store@.identities =~= st1.identities.update(
            i as int,
            IdentityV { token: user@, game: Some(sid) },
        ));
    }
    Response::NewGame { id: sid }
}

/// Create a session for the identity: allocate a fresh id at random, then
/// write the new row as `new_game_step` says. Only the id is left to the
/// draw; for a known identity the call always succeeds.
pub fn new_game(store: &mut GameStore, user: &String, mode: Mode, now: i64) -> (r: Response)
    requires
        wf_store(old(store)@),
        old(store)@.sessions.len() < u64::MAX,
    ensures
        wf_store(final(store)@),
        exists|sid: u64|
            sid >= 1 && !has_session(old(store)@, sid) && (final(store)@, r@) == new_game_step(
                old(store)@,
                user@,
                mode,
                now,
                sid,
            ),
{
    let sid = allocate_session_id(store);
    let r = new_game_with_id(store, user, mode, now, sid);
    proof {
        assert((store@, r@) == new_game_step(old(store)@, user@, mode, now, sid));
    }
    r
}

} // verus!
