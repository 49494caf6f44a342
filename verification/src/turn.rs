//! The turn engine: each round of a session is a single base-16 digit that
//! jointly encodes both players' current choices. A real move is a value in
//! `0..3`; the value `3` is the sentinel meaning "not yet submitted". The
//! digit is `m1 + 4 * m2`. One value above the digit range, `UNDEFINED_MARK`,
//! stands for "round not yet started" (the log's initial placeholder).

use vstd::prelude::*;

verus! {

/// A player's move value meaning "not yet submitted for this round".
pub const SENTINEL_MOVE: u8 = 3;

/// The combined digit of a round in which neither player has moved yet.
pub const OPEN_MARK: u8 = 15;

/// The placeholder that stands where no round has been started at all.
/// It is one past the largest combined digit, so it is not a digit itself.
pub const UNDEFINED_MARK: u8 = 16;

/// Player 1's slot of a combined digit: the low two bits. Any value outside
/// the digit range (in particular `UNDEFINED_MARK`) reads as the sentinel.
pub open spec fn slot1_of(d: u8) -> u8 {
    if d <= 15 {
        (d % 4) as u8
    } else {
        SENTINEL_MOVE
    }
}

/// Player 2's slot of a combined digit: the high two bits. Any value outside
/// the digit range (in particular `UNDEFINED_MARK`) reads as the sentinel.
pub open spec fn slot2_of(d: u8) -> u8 {
    if d <= 15 {
        (d / 4) as u8
    } else {
        SENTINEL_MOVE
    }
}

/// The combined digit holding move `m1` for player 1 and `m2` for player 2.
pub open spec fn encode_moves(m1: u8, m2: u8) -> u8
    recommends
        m1 <= 3,
        m2 <= 3,
{
    (m1 + 4 * m2) as u8
}

/// The combined digit after overwriting the given slots, keeping the others.
pub open spec fn update_digit(d: u8, player_1_move: Option<u8>, player_2_move: Option<u8>) -> u8 {
    let m1 = match player_1_move {
        Some(m) => m,
        None => slot1_of(d),
    };
    let m2 = match player_2_move {
        Some(m) => m,
        None => slot2_of(d),
    };
    encode_moves(m1, m2)
}

/// How a round stands once its combined digit is classified.
#[derive(Clone, Copy, Debug, PartialEq, Eq, Structural)]
pub enum Outcomes {
    WIN1,
    WIN2,
    TIE,
    WAITING,
    UNDEFINED,
}

/// The outcome of a combined digit. The table is fixed: `{1,6,8}` are wins
/// for player 1, `{2,4,9}` for player 2, `{0,5,10}` ties; the placeholder is
/// undefined; everything else still waits for at least one move.
pub open spec fn outcome_of(d: u8) -> Outcomes {
    if d == 0 || d == 5 || d == 10 {
        Outcomes::TIE
    } else if d == 1 || d == 6 || d == 8 {
        Outcomes::WIN1
    } else if d == 2 || d == 4 || d == 9 {
        Outcomes::WIN2
    } else if d == UNDEFINED_MARK {
        Outcomes::UNDEFINED
    } else {
        Outcomes::WAITING
    }
}

/// A digit whose round is over: one of the win or tie digits.
pub open spec fn is_resolved(d: u8) -> bool {
    outcome_of(d) == Outcomes::TIE || outcome_of(d) == Outcomes::WIN1 || outcome_of(d)
        == Outcomes::WIN2
}

/// A digit (or the placeholder) on which a round is still open.
pub open spec fn is_open_digit(d: u8) -> bool {
    outcome_of(d) == Outcomes::WAITING || outcome_of(d) == Outcomes::UNDEFINED
}

impl Outcomes {
    /// Classify a combined digit.
    pub fn get_outcome(global_move: u8) -> (r: Outcomes)
        ensures
            r == outcome_of(global_move),
    {
        if global_move == 0 || global_move == 5 || global_move == 10 {
            Outcomes::TIE
        } else if global_move == 1 || global_move == 6 || global_move == 8 {
            Outcomes::WIN1
        } else if global_move == 2 || global_move == 4 || global_move == 9 {
            Outcomes::WIN2
        } else if global_move == UNDEFINED_MARK {
            Outcomes::UNDEFINED
        } else {
            Outcomes::WAITING
        }
    }
}

/// The combined digit for the two given moves.
pub fn get_global_move(player_1_move: u8, player_2_move: u8) -> (r: u8)
    requires
        player_1_move <= 3,
        player_2_move <= 3,
    ensures
        r == encode_moves(player_1_move, player_2_move),
        r <= 15,
{
    player_1_move + 4 * player_2_move
}

/// Player 1's move held in a combined digit.
pub fn get_player_1_move(global_move: u8) -> (r: u8)
    ensures
        r == slot1_of(global_move),
{
    if global_move <= 15 {
        global_move % 4
    } else {
        SENTINEL_MOVE
    }
}

/// Player 2's move held in a combined digit.
pub fn get_player_2_move(global_move: u8) -> (r: u8)
    ensures
        r == slot2_of(global_move),
{
    if global_move <= 15 {
        global_move / 4
    } else {
        SENTINEL_MOVE
    }
}

/// Overwrite the given slots of a combined digit, keeping the other slots.
pub fn update_global_move(global_move: u8, player_1_move: Option<u8>, player_2_move: Option<u8>) -> (r: u8)
    requires
        (player_1_move matches Some(m) ==> m <= 3),
        (player_2_move matches Some(m) ==> m <= 3),
    ensures
        r == update_digit(global_move, player_1_move, player_2_move),
        r <= 15,
{
    let m1 = match player_1_move {
        Some(m) => m,
        None => get_player_1_move(global_move),
    };
    let m2 = match player_2_move {
        Some(m) => m,
        None => get_player_2_move(global_move),
    };
    get_global_move(m1, m2)
}

/// Encoding and decoding are exact inverses: for all moves in the domain,
/// decoding the combined digit yields the two moves back.
pub proof fn lemma_encode_decode(m1: u8, m2: u8)
    requires
        m1 <= 3,
        m2 <= 3,
    ensures
        encode_moves(m1, m2) <= 15,
        slot1_of(encode_moves(m1, m2)) == m1,
        slot2_of(encode_moves(m1, m2)) == m2,
{
}

/// The fixed outcome table: which digits are wins and ties, that a digit
/// holding the sentinel in either slot is still waiting, and that only the
/// placeholder is undefined.
pub proof fn lemma_outcome_table(d: u8)
    ensures
        (outcome_of(d) == Outcomes::WIN1) <==> (d == 1 || d == 6 || d == 8),
        (outcome_of(d) == Outcomes::WIN2) <==> (d == 2 || d == 4 || d == 9),
        (outcome_of(d) == Outcomes::TIE) <==> (d == 0 || d == 5 || d == 10),
        (outcome_of(d) == Outcomes::UNDEFINED) <==> (d == UNDEFINED_MARK),
        d <= 15 && (slot1_of(d) == SENTINEL_MOVE || slot2_of(d) == SENTINEL_MOVE)
            ==> outcome_of(d) == Outcomes::WAITING,
        d <= 15 && outcome_of(d) == Outcomes::WAITING
            ==> (slot1_of(d) == SENTINEL_MOVE || slot2_of(d) == SENTINEL_MOVE),
        is_resolved(d) <==> (slot1_of(d) < 3 && slot2_of(d) < 3 && d <= 15),
{
}

} // verus!
