//! The response payloads the handlers produce. Each variant corresponds to
//! one body shape of the protocol; turning a variant into its wire form is
//! the caller's business, not the engine's.

use vstd::prelude::*;

verus! {

/// What a handler answers.
#[derive(Debug, PartialEq, Eq)]
pub enum Response {
    /// An empty body: an unknown identity asked for a new game.
    Nothing,
    /// `{success: false}`: unknown identity, no active session, no match
    /// found, or a rejected move.
    Failure,
    /// `{}`: a move was accepted.
    Empty,
    /// `{message: ...}`: an unresolvable url.
    Message { text: String },
    /// `{id: ...}`: a freshly issued identity token.
    NewIdentity { id: String },
    /// `{id: ...}`: the id of a freshly created session.
    NewGame { id: u64 },
    /// `{success: true, id: ...}`: the candidate joined this session.
    MatchFound { id: u64 },
    /// `{status: ...}`: a move sent to a game that is already over.
    StatusOnly { status: u8 },
    /// `{opponent_found: false}`: still waiting for a second player.
    NoOpponent,
    /// `{opponent_found: true, ...}`: the state of the caller's session,
    /// expressed from the caller's own perspective.
    Report {
        status: u8,
        waiting: u8,
        your_move: Option<u8>,
        opponent_move: Option<u8>,
        round: Option<usize>,
    },
}

/// Ghost mirror of `Response`.
pub ghost enum ResponseV {
    Nothing,
    Failure,
    Empty,
    Message { text: Seq<char> },
    NewIdentity { id: Seq<char> },
    NewGame { id: u64 },
    MatchFound { id: u64 },
    StatusOnly { status: u8 },
    NoOpponent,
    Report {
        status: u8,
        waiting: u8,
        your_move: Option<u8>,
        opponent_move: Option<u8>,
        round: Option<int>,
    },
}

impl View for Response {
    type V = ResponseV;

    open spec fn view(&self) -> ResponseV {
        match self {
            Response::Nothing => ResponseV::Nothing,
            Response::Failure => ResponseV::Failure,
            Response::Empty => ResponseV::Empty,
            Response::Message { text } => ResponseV::Message { text: text@ },
            Response::NewIdentity { id } => ResponseV::NewIdentity { id: id@ },
            Response::NewGame { id } => ResponseV::NewGame { id: *id },
            Response::MatchFound { id } => ResponseV::MatchFound { id: *id },
            Response::StatusOnly { status } => ResponseV::StatusOnly { status: *status },
            Response::NoOpponent => ResponseV::NoOpponent,
            Response::Report { status, waiting, your_move, opponent_move, round } => {
                ResponseV::Report {
                    status: *status,
                    waiting: *waiting,
                    your_move: *your_move,
                    opponent_move: *opponent_move,
                    round: match round {
                        Some(n) => Some(*n as int),
                        None => None,
                    },
                }
            },
        }
    }
}

} // verus!
