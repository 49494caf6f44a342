//! The turn engine's encoding, outcome table, and the request-field parsing.

use game_sessions::api::{eq_str, parse_move, unresolved_message};
use game_sessions::turn::{
    get_global_move, get_player_1_move, get_player_2_move, update_global_move, Outcomes,
    OPEN_MARK, SENTINEL_MOVE, UNDEFINED_MARK,
};

#[test]
fn encode_decode_round_trip_all_pairs() {
    for m1 in 0u8..4 {
        for m2 in 0u8..4 {
            let d = get_global_move(m1, m2);
            assert_eq!(get_player_1_move(d), m1);
            assert_eq!(get_player_2_move(d), m2);
        }
    }
}

#[test]
fn encode_is_low_plus_four_times_high() {
    assert_eq!(get_global_move(0, 1), 4);
    assert_eq!(get_global_move(1, 0), 1);
    assert_eq!(get_global_move(2, 2), 10);
    assert_eq!(get_global_move(3, 3), 15);
}

#[test]
fn outcome_table_win1() {
    for d in [1u8, 6, 8] {
        assert_eq!(Outcomes::get_outcome(d), Outcomes::WIN1);
    }
}

#[test]
fn outcome_table_win2() {
    for d in [2u8, 4, 9] {
        assert_eq!(Outcomes::get_outcome(d), Outcomes::WIN2);
    }
}

#[test]
fn outcome_table_tie() {
    for d in [0u8, 5, 10] {
        assert_eq!(Outcomes::get_outcome(d), Outcomes::TIE);
    }
}

#[test]
fn outcome_table_waiting_on_sentinel_slots() {
    for d in 0u8..16 {
        let sentinel_in_slot =
            get_player_1_move(d) == SENTINEL_MOVE || get_player_2_move(d) == SENTINEL_MOVE;
        if sentinel_in_slot {
            assert_eq!(Outcomes::get_outcome(d), Outcomes::WAITING);
        } else {
            assert_ne!(Outcomes::get_outcome(d), Outcomes::WAITING);
        }
    }
}

#[test]
fn outcome_undefined_only_for_placeholder() {
    assert_eq!(Outcomes::get_outcome(UNDEFINED_MARK), Outcomes::UNDEFINED);
    for d in 0u8..16 {
        assert_ne!(Outcomes::get_outcome(d), Outcomes::UNDEFINED);
    }
}

#[test]
fn update_overwrites_only_the_given_slot() {
    // Start from the fresh open digit: both slots sentinel.
    let d = update_global_move(OPEN_MARK, Some(2), None);
    assert_eq!(get_player_1_move(d), 2);
    assert_eq!(get_player_2_move(d), SENTINEL_MOVE);
    let d2 = update_global_move(d, None, Some(0));
    assert_eq!(get_player_1_move(d2), 2);
    assert_eq!(get_player_2_move(d2), 0);
}

#[test]
fn update_on_placeholder_reads_sentinels() {
    let d = update_global_move(UNDEFINED_MARK, Some(1), None);
    assert_eq!(d, get_global_move(1, SENTINEL_MOVE));
}

#[test]
fn parse_move_accepts_digit_strings() {
    assert_eq!(parse_move("0"), Some(0));
    assert_eq!(parse_move("2"), Some(2));
    assert_eq!(parse_move("10"), Some(10));
    assert_eq!(parse_move("255"), Some(255));
    assert_eq!(parse_move("007"), Some(7));
}

#[test]
fn parse_move_rejects_bad_fields() {
    assert_eq!(parse_move(""), None);
    assert_eq!(parse_move("a"), None);
    assert_eq!(parse_move("-1"), None);
    assert_eq!(parse_move("2x"), None);
    assert_eq!(parse_move("256"), None);
    assert_eq!(parse_move("999999999999999999999"), None);
}

#[test]
fn eq_str_compares_contents() {
    assert!(eq_str("human", "human"));
    assert!(!eq_str("human", "humans"));
    assert!(!eq_str("human", "huma"));
    assert!(!eq_str("human", "humaX"));
    assert!(eq_str("", ""));
}

#[test]
fn unresolved_message_embeds_the_url() {
    let m = unresolved_message("/nope");
    assert_eq!(m, "The provided url /nope could not be resolved.");
}
