//! The row store: sessions and identities as plain in-memory rows, plus the
//! append-only archive of finished games. All state the request handlers
//! read or mutate lives here; the handlers receive it by `&mut` reference.

use vstd::prelude::*;

use crate::model::{IdentityV, OpponentV, SessionV, StoreV};

verus! {

/// Whether a session is against another human or against the scripted player.
#[derive(Clone, Copy, Debug, PartialEq, Eq, Structural)]
pub enum Mode {
    HumanVsHuman,
    HumanVsBot,
}

/// A session accepts moves while `Open` and never reopens once `Finished`.
#[derive(Clone, Copy, Debug, PartialEq, Eq, Structural)]
pub enum Status {
    Open,
    Finished,
}

/// The second seat of a session: empty while waiting, the scripted player in
/// bot mode, or the identity token of the human who claimed the seat.
#[derive(Debug, PartialEq, Eq)]
pub enum Opponent {
    Vacant,
    Bot,
    Human(String),
}

/// One session row.
#[derive(Debug, PartialEq, Eq)]
pub struct Session {
    pub id: u64,
    pub status: Status,
    pub mode: Mode,
    pub player1: String,
    pub player2: Opponent,
    pub score1: u8,
    pub score2: u8,
    pub contact1: i64,
    pub contact2: i64,
    pub log: Vec<u8>,
    pub round: usize,
}

/// One identity row: the token and the session the identity last played in.
#[derive(Debug, PartialEq, Eq)]
pub struct Identity {
    pub token: String,
    pub game: Option<u64>,
}

/// The whole store: identity rows, session rows in creation order, and the
/// append-only archive holding the move log of each finished session.
#[derive(Debug, PartialEq, Eq)]
pub struct GameStore {
    pub identities: Vec<Identity>,
    pub sessions: Vec<Session>,
    pub archive: Vec<Vec<u8>>,
}

impl View for Opponent {
    type V = OpponentV;

    open spec fn view(&self) -> OpponentV {
        match self {
            Opponent::Vacant => OpponentV::Vacant,
            Opponent::Bot => OpponentV::Bot,
            Opponent::Human(t) => OpponentV::Human(t@),
        }
    }
}

impl View for Session {
    type V = SessionV;

    open spec fn view(&self) -> SessionV {
        SessionV {
            id: self.id,
            status: self.status,
            mode: self.mode,
            player1: self.player1@,
            player2: self.player2@,
            score1: self.score1,
            score2: self.score2,
            contact1: self.contact1,
            contact2: self.contact2,
            log: self.log@,
            round: self.round as int,
        }
    }
}

impl View for Identity {
    type V = IdentityV;

    open spec fn view(&self) -> IdentityV {
        IdentityV { token: self.token@, game: self.game }
    }
}

impl View for GameStore {
    type V = StoreV;

    open spec fn view(&self) -> StoreV {
        StoreV {
            identities: self.identities@.map_values(|x: Identity| x@),
            sessions: self.sessions@.map_values(|s: Session| s@),
            archive: self.archive@.map_values(|l: Vec<u8>| l@),
        }
    }
}

impl GameStore {
    /// An empty store: no identities, no sessions, nothing archived.
    pub fn new() -> (r: GameStore)
        ensures
            r@.identities =~= Seq::<IdentityV>::empty(),
            r@.sessions =~= Seq::<SessionV>::empty(),
            r@.archive =~= Seq::<Seq<u8>>::empty(),
    {
        GameStore { identities: Vec::new(), sessions: Vec::new(), archive: Vec::new() }
    }

    /// The index of the identity row holding `token`, scanning in row order.
    pub fn find_identity(&self, token: &String) -> (r: Option<usize>)
        ensures
            match r {
                Some(i) => i < self@.identities.len() && self@.identities[i as int].token == token@
                    && forall|k: int| 0 <= k < i ==> self@.identities[k].token != token@,
                None => forall|k: int|
                    0 <= k < self@.identities.len() ==> self@.identities[k].token != token@,
            },
    {
        let n = self.identities.len();
        let mut i: usize = 0;
        while i < n
            invariant
                n == self@.identities.len(),
                i <= n,
                forall|k: int| 0 <= k < i ==> self@.identities[k].token != token@,
            decreases n - i,
        {
            if self.identities[i].token == *token {
                return Some(i);
            }
            i = i + 1;
        }
        None
    }

    /// The index of the session row with the given id, scanning in row order.
    pub fn find_session(&self, id: u64) -> (r: Option<usize>)
        ensures
            match r {
                Some(j) => j < self@.sessions.len() && self@.sessions[j as int].id == id
                    && forall|k: int| 0 <= k < j ==> self@.sessions[k].id != id,
                None => forall|k: int|
                    0 <= k < self@.sessions.len() ==> self@.sessions[k].id != id,
            },
    {
        let n = self.sessions.len();
        let mut j: usize = 0;
        while j < n
            invariant
                n == self@.sessions.len(),
                j <= n,
                forall|k: int| 0 <= k < j ==> self@.sessions[k].id != id,
            decreases n - j,
        {
            if self.sessions[j].id == id {
                return Some(j);
            }
            j = j + 1;
        }
        None
    }

    /// Replace the session row at `j`, leaving every other row alone.
    pub fn set_session(&mut self, j: usize, s: Session)
        requires
            j < old(self)@.sessions.len(),
        ensures
            final(self)@.sessions == old(self)@.sessions.update(j as int, s@),
            final(self)@.identities == old(self)@.identities,
            final(self)@.archive == old(self)@.archive,
    {
        let _ = self.sessions.remove(j);
        self.sessions.insert(j, s);
        proof {
            assert(self@.sessions =~= old(self)@.sessions.update(j as int, s@));
        }
    }

    /// Replace the identity row at `i`, leaving every other row alone.
    pub fn set_identity(&mut self, i: usize, x: Identity)
        requires
            i < old(self)@.identities.len(),
        ensures
            final(self)@.identities == old(self)@.identities.update(i as int, x@),
            final(self)@.sessions == old(self)@.sessions,
            final(self)@.archive == old(self)@.archive,
    {
        let _ = self.identities.remove(i);
        self.identities.insert(i, x);
        proof {
            assert(self@.identities =~= old(self)@.identities.update(i as int, x@));
        }
    }

    /// A copy of a move log, for handing a finished session to the archive.
    pub fn copy_log(log: &Vec<u8>) -> (r: Vec<u8>)
        ensures
            r@ == log@,
    {
        let n = log.len();
        let mut r: Vec<u8> = Vec::new();
        let mut i: usize = 0;
        while i < n
            invariant
                n == log@.len(),
                i <= n,
                r@ == log@.subrange(0, i as int),
            decreases n - i,
        {
            r.push(log[i]);
            proof {
                assert(r@ =~= log@.subrange(0, i + 1 as int));
            }
            i = i + 1;
        }
        proof {
            assert(r@ =~= log@);
        }
        r
    }

    /// Append one record to the archive.
    pub fn push_archive(&mut self, log: Vec<u8>)
        ensures
            final(self)@.archive == old(self)@.archive.push(log@),
            final(self)@.identities == old(self)@.identities,
            final(self)@.sessions == old(self)@.sessions,
    {
        self.archive.push(log);
        proof {
            assert(self@.archive =~= old(self)@.archive.push(log@));
        }
    }

    /// Append one identity row.
    pub fn push_identity(&mut self, x: Identity)
        ensures
            final(self)@.identities == old(self)@.identities.push(x@),
            final(self)@.sessions == old(self)@.sessions,
            final(self)@.archive == old(self)@.archive,
    {
        self.identities.push(x);
        proof {
            assert(self@.identities =~= old(self)@.identities.push(x@));
        }
    }

    /// Append one session row.
    pub fn push_session(&mut self, s: Session)
        ensures
            final(self)@.sessions == old(self)@.sessions.push(s@),
            final(self)@.identities == old(self)@.identities,
            final(self)@.archive == old(self)@.archive,
    {
        self.sessions.push(s);
        proof {
            assert(self@.sessions =~= old(self)@.sessions.push(s@));
        }
    }
}

} // verus!
