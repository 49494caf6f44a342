//! The mathematical model of the store: ghost mirrors of the row types, the
//! well-formedness invariant every handler preserves, and spec-level lookup
//! of rows by token or session id.

use vstd::prelude::*;

use crate::store::{Mode, Status};
use crate::turn::{is_open_digit, is_resolved};

verus! {

/// Ghost mirror of an identity row.
pub ghost struct IdentityV {
    pub token: Seq<char>,
    pub game: Option<u64>,
}

/// Ghost mirror of a session's second seat.
pub ghost enum OpponentV {
    Vacant,
    Bot,
    Human(Seq<char>),
}

/// Ghost mirror of a session row.
pub ghost struct SessionV {
    pub id: u64,
    pub status: Status,
    pub mode: Mode,
    pub player1: Seq<char>,
    pub player2: OpponentV,
    pub score1: u8,
    pub score2: u8,
    pub contact1: i64,
    pub contact2: i64,
    pub log: Seq<u8>,
    pub round: int,
}

/// Ghost mirror of the whole store.
pub ghost struct StoreV {
    pub identities: Seq<IdentityV>,
    pub sessions: Seq<SessionV>,
    pub archive: Seq<Seq<u8>>,
}

/// A session row that the turn engine can work on:
/// - scores never pass 3, and a session still open has not reached 3;
/// - the log holds at least the current round's digit, the placeholder can
///   stand only as its first entry, every earlier round is resolved, and
///   exactly the last entry is open;
/// - the round counter equals the number of log entries;
/// - the second seat holds the scripted player exactly in bot mode, and a
///   human in the second seat is never the creator.
pub open spec fn wf_session(s: SessionV) -> bool {
    &&& s.score1 <= 3
    &&& s.score2 <= 3
    &&& (s.status == Status::Open ==> s.score1 < 3 && s.score2 < 3)
    &&& s.log.len() >= 1
    &&& s.round == s.log.len()
    &&& (forall|i: int| 0 <= i < s.log.len() ==> s.log[i] <= 16)
    &&& (forall|i: int| 1 <= i < s.log.len() ==> s.log[i] <= 15)
    &&& (forall|i: int| 0 <= i < s.log.len() - 1 ==> is_resolved(s.log[i]))
    &&& is_open_digit(s.log.last())
    &&& ((s.player2 is Bot) <==> s.mode == Mode::HumanVsBot)
    &&& (s.player2 matches OpponentV::Human(t) ==> t != s.player1)
}

/// There is a session row with this id.
pub open spec fn has_session(st: StoreV, id: u64) -> bool {
    exists|j: int| 0 <= j < st.sessions.len() && st.sessions[j].id == id
}

/// The index of the session row with this id (unique in a well-formed store).
pub open spec fn session_idx(st: StoreV, id: u64) -> int {
    choose|j: int| 0 <= j < st.sessions.len() && st.sessions[j].id == id
}

/// There is an identity row with this token.
pub open spec fn has_identity(st: StoreV, token: Seq<char>) -> bool {
    exists|i: int| 0 <= i < st.identities.len() && st.identities[i].token == token
}

/// The index of the identity row with this token (unique in a well-formed store).
pub open spec fn identity_idx(st: StoreV, token: Seq<char>) -> int {
    choose|i: int| 0 <= i < st.identities.len() && st.identities[i].token == token
}

/// The token takes part in the session: as its creator or in its second seat.
pub open spec fn participates(s: SessionV, token: Seq<char>) -> bool {
    s.player1 == token || s.player2 == OpponentV::Human(token)
}

/// An identity row's session pointer leads to an existing session that the
/// identity takes part in.
pub open spec fn pointer_ok(st: StoreV, x: IdentityV) -> bool {
    x.game matches Some(g) ==> {
        &&& has_session(st, g)
        &&& participates(st.sessions[session_idx(st, g)], x.token)
    }
}

/// The store invariant: tokens and session ids are unique, every session row
/// is well formed, and every identity's session pointer is intact.
pub open spec fn wf_store(st: StoreV) -> bool {
    &&& (forall|i: int, j: int|
        0 <= i < j < st.identities.len() ==> st.identities[i].token != st.identities[j].token)
    &&& (forall|i: int, j: int|
        0 <= i < j < st.sessions.len() ==> st.sessions[i].id != st.sessions[j].id)
    &&& (forall|j: int| 0 <= j < st.sessions.len() ==> wf_session(#[trigger] st.sessions[j]))
    &&& (forall|i: int| 0 <= i < st.identities.len() ==> pointer_ok(st, #[trigger] st.identities[i]))
}

/// In a store with unique session ids, a row that carries the id is the one
/// and only witness, so `session_idx` names exactly that row.
pub proof fn lemma_session_idx_is(st: StoreV, j: int)
    requires
        forall|a: int, b: int|
            0 <= a < b < st.sessions.len() ==> st.sessions[a].id != st.sessions[b].id,
        0 <= j < st.sessions.len(),
    ensures
        has_session(st, st.sessions[j].id),
        session_idx(st, st.sessions[j].id) == j,
{
    let id = st.sessions[j].id;
    assert(has_session(st, id));
    let k = session_idx(st, id);
    if k < j {
        assert(st.sessions[k].id != st.sessions[j].id);
    } else if k > j {
        assert(st.sessions[j].id != st.sessions[k].id);
    }
}

/// In a store with unique tokens, a row that carries the token is the one
/// and only witness, so `identity_idx` names exactly that row.
pub proof fn lemma_identity_idx_is(st: StoreV, i: int)
    requires
        forall|a: int, b: int|
            0 <= a < b < st.identities.len() ==> st.identities[a].token != st.identities[b].token,
        0 <= i < st.identities.len(),
    ensures
        has_identity(st, st.identities[i].token),
        identity_idx(st, st.identities[i].token) == i,
{
    let tok = st.identities[i].token;
    assert(has_identity(st, tok));
    let k = identity_idx(st, tok);
    if k < i {
        assert(st.identities[k].token != st.identities[i].token);
    } else if k > i {
        assert(st.identities[i].token != st.identities[k].token);
    }
}

} // verus!
