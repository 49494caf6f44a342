//! The matchmaker: pair a waiting identity with the first claimable open
//! session in creation order.

use vstd::prelude::*;

use crate::model::{
    has_identity, has_session, identity_idx, lemma_identity_idx_is, lemma_session_idx_is,
    participates, pointer_ok, session_idx, wf_session, wf_store, IdentityV, OpponentV, SessionV,
    StoreV,
};
use crate::response::{Response, ResponseV};
use crate::steps::{eligible, first_eligible, search_step};
use crate::store::{GameStore, Opponent, Status};

verus! {

/// When nothing in the row order is claimable, there is no first claimable
/// session.
pub proof fn lemma_first_eligible_none(ss: Seq<SessionV>, token: Seq<char>, now: i64)
    requires
        forall|k: int| 0 <= k < ss.len() ==> !eligible(#[trigger] ss[k], token, now),
    ensures
        first_eligible(ss, token, now) is None,
    decreases ss.len(),
{
    if ss.len() == 0 {
    } else {
        assert(!eligible(ss[0], token, now));
        assert(forall|k: int|
            0 <= k < ss.drop_first().len() ==> #[trigger] ss.drop_first()[k] == ss[k + 1]);
        lemma_first_eligible_none(ss.drop_first(), token, now);
    }
}

/// A claimable row before which nothing is claimable is the first one.
pub proof fn lemma_first_eligible_at(ss: Seq<SessionV>, token: Seq<char>, now: i64, n: int)
    requires
        0 <= n < ss.len(),
        eligible(ss[n], token, now),
        forall|k: int| 0 <= k < n ==> !eligible(#[trigger] ss[k], token, now),
    ensures
        first_eligible(ss, token, now) == Some(n),
    decreases n,
{
    if n == 0 {
    } else {
        assert(!eligible(ss[0], token, now));
        assert(forall|k: int|
            0 <= k < ss.drop_first().len() ==> #[trigger] ss.drop_first()[k] == ss[k + 1]);
        lemma_first_eligible_at(ss.drop_first(), token, now, n - 1);
    }
}

/// What the first claimable index means: it is in range, claimable, and
/// nothing before it is.
pub proof fn lemma_first_eligible_sound(ss: Seq<SessionV>, token: Seq<char>, now: i64)
    ensures
        match first_eligible(ss, token, now) {
            Some(j) => 0 <= j < ss.len() && eligible(ss[j], token, now) && forall|k: int|
                0 <= k < j ==> !eligible(#[trigger] ss[k], token, now),
            None => forall|k: int| 0 <= k < ss.len() ==> !eligible(#[trigger] ss[k], token, now),
        },
    decreases ss.len(),
{
    if ss.len() == 0 {
    } else if eligible(ss[0], token, now) {
    } else {
        lemma_first_eligible_sound(ss.drop_first(), token, now);
        assert(forall|k: int|
            0 <= k < ss.drop_first().len() ==> #[trigger] ss.drop_first()[k] == ss[k + 1]);
        match first_eligible(ss.drop_first(), token, now) {
            Some(k) => {
                assert(first_eligible(ss, token, now) == Some(k + 1));
                assert(eligible(ss[k + 1], token, now));
                assert forall|m: int| 0 <= m < k + 1 implies !eligible(
                    #[trigger] ss[m],
                    token,
                    now,
                ) by {
                    if m > 0 {
                        assert(ss.drop_first()[m - 1] == ss[m]);
                        assert(!eligible(ss.drop_first()[m - 1], token, now));
                    }
                }
            },
            None => {
                assert forall|m: int| 0 <= m < ss.len() implies !eligible(
                    #[trigger] ss[m],
                    token,
                    now,
                ) by {
                    if m > 0 {
                        assert(ss.drop_first()[m - 1] == ss[m]);
                        assert(!eligible(ss.drop_first()[m - 1], token, now));
                    }
                }
            },
        }
    }
}

/// Claiming a claimable session for a known identity keeps the store well
/// formed.
proof fn lemma_search_claim_wf(st: StoreV, token: Seq<char>, now: i64, j: int, i: int)
    requires
        wf_store(st),
        0 <= j < st.sessions.len(),
        eligible(st.sessions[j], token, now),
        0 <= i < st.identities.len(),
        st.identities[i].token == token,
    ensures
        wf_store(
            StoreV {
                sessions: st.sessions.update(
                    j,
                    SessionV { player2: OpponentV::Human(token), contact2: now, ..st.sessions[j] },
                ),
                identities: st.identities.update(
                    i,
                    IdentityV { game: Some(st.sessions[j].id), ..st.identities[i] },
                ),
                ..st
            },
        ),
{
    let s1 = SessionV { player2: OpponentV::Human(token), contact2: now, ..st.sessions[j] };
    let x1 = IdentityV { game: Some(st.sessions[j].id), ..st.identities[i] };
    let st2 = StoreV {
        sessions: st.sessions.update(j, s1),
        identities: st.identities.update(i, x1),
        ..st
    };
    assert forall|a: int, b: int| 0 <= a < b < st2.identities.len() implies st2.identities[a].token
        != st2.identities[b].token by {
        assert(st2.identities[a].token == st.identities[a].token);
        assert(st2.identities[b].token == st.identities[b].token);
    }
    assert forall|a: int, b: int| 0 <= a < b < st2.sessions.len() implies st2.sessions[a].id
        != st2.sessions[b].id by {
        assert(st2.sessions[a].id == st.sessions[a].id);
        assert(st2.sessions[b].id == st.sessions[b].id);
    }
    assert forall|k: int| 0 <= k < st2.sessions.len() implies wf_session(
        #[trigger] st2.sessions[k],
    ) by {
        assert(wf_session(st.sessions[k]));
        if k == j {
            assert(st2.sessions[k] == s1);
        } else {
            assert(st2.sessions[k] == st.sessions[k]);
        }
    }
    assert forall|k: int| 0 <= k < st2.identities.len() implies pointer_ok(
        st2,
        #[trigger] st2.identities[k],
    ) by {
        assert(pointer_ok(st, st.identities[k]));
        if k == i {
            assert(st2.sessions[j].id == st.sessions[j].id);
            lemma_session_idx_is(st2, j);
            assert(participates(st2.sessions[j], token));
        } else {
            match st.identities[k].game {
                Some(g) => {
                    let m = session_idx(st, g);
                    assert(0 <= m < st.sessions.len() && st.sessions[m].id == g);
                    assert(st2.sessions[m].id == g);
                    lemma_session_idx_is(st2, m);
                    assert(participates(st.sessions[m], st.identities[k].token));
                    assert(participates(st2.sessions[m], st2.identities[k].token));
                },
                None => {},
            }
        }
    }
}

/// Law: the matchmaker never assigns a candidate to a session that candidate
/// created; when it answers with a session id, that session existed, its
/// creator is someone else, and the candidate now holds its second seat.
pub proof fn lemma_no_self_match(st: StoreV, token: Seq<char>, now: i64)
    requires
        wf_store(st),
    ensures
        search_step(st, token, now).1 matches ResponseV::MatchFound { id } ==> {
            &&& has_session(st, id)
            &&& st.sessions[session_idx(st, id)].player1 != token
            &&& search_step(st, token, now).0.sessions[session_idx(st, id)].player2
                == OpponentV::Human(token)
        },
{
    lemma_first_eligible_sound(st.sessions, token, now);
    if has_identity(st, token) {
        match first_eligible(st.sessions, token, now) {
            Some(j) => {
                lemma_session_idx_is(st, j);
            },
            None => {},
        }
    }
}

/// Scan the open sessions in creation order and claim the first one the
/// candidate may join: its second seat is taken for the candidate, the
/// candidate's contact is stamped, and the candidate's session pointer moves
/// to it. No claimable session, or an unknown candidate, is a plain failure.
pub fn search_for_human_game(store: &mut GameStore, user: &String, now: i64) -> (r: Response)
    requires
        wf_store(old(store)@),
    ensures
        wf_store(final(store)@),
        (final(store)@, r@) == search_step(old(store)@, user@, now),
{
    let ghost st0 = old(store)@;
    let i = match store.find_identity(user) {
        None => {
            return Response::Failure;
        },
        Some(i) => i,
    };
    proof {
        lemma_identity_idx_is(st0, i as int);
    }
    let n = store.sessions.len();
    let mut j: usize = 0;
    while j < n
        invariant
            st0 == old(store)@,
            wf_store(store@),
            store@ == st0,
            n == store@.sessions.len(),
            j <= n,
            i < store@.identities.len(),
            store@.identities[i as int].token == user@,
            identity_idx(st0, user@) == i as int,
            has_identity(st0, user@),
            forall|k: int| 0 <= k < j ==> !eligible(#[trigger] st0.sessions[k], user@, now),
        decreases n - j,
    {
        let open = store.sessions[j].status == Status::Open;
        let vacant = matches!(&store.sessions[j].player2, Opponent::Vacant);
        let not_creator = !(store.sessions[j].player1 == *user);
        let fresh = !crate::liveness::timed_out_check(store.sessions[j].contact1, now);
        if open && vacant && not_creator && fresh {
            proof {
                assert(eligible(st0.sessions[j as int], user@, now));
                lemma_first_eligible_at(st0.sessions, user@, now, j as int);
                lemma_search_claim_wf(st0, user@, now, j as int, i as int);
            }
            let sid = store.sessions[j].id;
            let mut s = store.sessions.remove(j);
            s.player2 = Opponent::Human(user.clone());
            s.contact2 = now;
            proof {
                assert(s@ == SessionV {
                    player2: OpponentV::Human(user@),
                    contact2: now,
                    ..st0.sessions[j as int]
                });
            }
            store.sessions.insert(j, s);
            proof {
                assert(store@.sessions =~= st0.sessions.update(
                    j as int,
                    store@.sessions[j as int],
                ));
            }
            let mut x = store.identities.remove(i);
            x.game = Some(sid);
            proof {
                assert(x@ == IdentityV { game: Some(sid), ..st0.identities[i as int] });
            }
            store.identities.insert(i, x);
            proof {
                assert(store@.identities =~= st0.identities.update(
                    i as int,
                    store@.identities[i as int],
                ));
                assert(store@.sessions == st0.sessions.update(
                    j as int,
                    SessionV {
                        player2: OpponentV::Human(user@),
                        contact2: now,
                        ..st0.sessions[j as int]
                    },
                ));
                assert(store@.identities == st0.identities.update(
                    i as int,
                    IdentityV { game: Some(sid), ..st0.identities[i as int] },
                ));
                assert(store@.archive == st0.archive);
            }
            return Response::MatchFound { id: sid };
        }
        j = j + 1;
    }
    proof {
        lemma_first_eligible_none(st0.sessions, user@, now);
    }
    Response::Failure
}

} // verus!
