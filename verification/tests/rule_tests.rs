use casino_bot::bets::{
    ask_bet, cover_bet, given_bet, resolve_bet, slots_multiplier, BetError, MAX_BET, MIN_BET,
};
use casino_bot::clock::{
    daily, must_wait, DailyAnswer, Timestamp, DAILY_REWARD, FIRST_SECOND, GLOBAL_COOLDOWN_SECS,
    LAST_SECOND,
};
use casino_bot::keepalive::{keepalive_response, listen_address};
use casino_bot::storage::{decode_holds, encode_holds};

fn at(secs: i64, nanos: u32) -> Timestamp {
    Timestamp { secs, nanos }
}

fn word(s: &str) -> Option<String> {
    Some(s.to_string())
}

#[test]
fn the_limits_are_those_of_the_house() {
    assert_eq!(MIN_BET, 10);
    assert_eq!(MAX_BET, 50_000);
    assert_eq!(DAILY_REWARD, 1_000);
    assert_eq!(GLOBAL_COOLDOWN_SECS, 3);
}

#[test]
fn a_bet_is_given_or_taken_from_the_default() {
    assert_eq!(resolve_bet(&word("100"), 0, Some(100)), Ok(100));
    assert_eq!(resolve_bet(&None, 50, Some(100)), Ok(50));
    assert_eq!(resolve_bet(&word("10"), 50, Some(10)), Ok(10));
    assert_eq!(resolve_bet(&word("50000"), 0, Some(50_000)), Ok(50_000));
    assert_eq!(given_bet(&word("+20")), Some(20));
    assert_eq!(given_bet(&word("twenty")), Some(0));
    assert_eq!(given_bet(&None), None);
}

#[test]
fn a_missing_bet_is_refused() {
    assert_eq!(resolve_bet(&None, 0, Some(100)), Err(BetError::Missing));
    assert_eq!(resolve_bet(&word("0"), 50, Some(100)), Err(BetError::Missing));
    assert_eq!(resolve_bet(&word("-5"), 50, Some(100)), Err(BetError::Missing));
    assert_eq!(resolve_bet(&word("abc"), 50, Some(100)), Err(BetError::Missing));
    assert_eq!(resolve_bet(&word("99999999999"), 50, Some(100)), Err(BetError::Missing));
}

#[test]
fn a_bet_out_of_bounds_is_refused() {
    assert_eq!(resolve_bet(&word("9"), 0, Some(100)), Err(BetError::OutOfBounds));
    assert_eq!(resolve_bet(&word("50001"), 0, Some(100_000)), Err(BetError::OutOfBounds));
    assert_eq!(ask_bet(None, 5), Err(BetError::OutOfBounds));
}

#[test]
fn a_bet_that_is_not_covered_is_refused() {
    assert_eq!(resolve_bet(&word("100"), 0, Some(99)), Err(BetError::Invalid));
    assert_eq!(resolve_bet(&word("100"), 0, None), Err(BetError::Invalid));
    assert_eq!(cover_bet(10, Some(-1)), Err(BetError::Invalid));
    assert_eq!(cover_bet(10, Some(10)), Ok(10));
}

#[test]
fn the_slot_machine_pays_for_four_faces() {
    let paid: Vec<(u8, i32)> =
        (0..=255u8).map(|v| (v, slots_multiplier(v))).filter(|p| p.1 != 0).collect();
    assert_eq!(paid, vec![(1, 3), (22, 3), (43, 3), (64, 10)]);
}

#[test]
fn a_game_waits_for_three_whole_seconds() {
    assert!(!must_wait(at(100, 0), None));
    assert!(must_wait(at(100, 0), Some(at(100, 0))));
    assert!(must_wait(at(102, 999_999_999), Some(at(100, 0))));
    assert!(!must_wait(at(103, 0), Some(at(100, 0))));
    assert!(must_wait(at(103, 0), Some(at(100, 1))));
    assert!(!must_wait(at(103, 1), Some(at(100, 1))));
    assert!(must_wait(at(100, 0), Some(at(5_000, 0))));
}

#[test]
fn the_first_reward_is_granted() {
    assert_eq!(daily(at(0, 0), None), DailyAnswer::Claim);
}

#[test]
fn a_reward_waits_for_a_day() {
    let last = Some(at(1_000_000, 500));
    assert_eq!(daily(at(1_086_400, 500), last), DailyAnswer::Claim);
    assert_eq!(daily(at(1_086_400, 499), last), DailyAnswer::Wait { hours: 0, mins: 0 });
    assert_eq!(daily(at(1_000_000, 500), last), DailyAnswer::Wait { hours: 24, mins: 0 });
    assert_eq!(daily(at(1_000_000, 501), last), DailyAnswer::Wait { hours: 23, mins: 59 });
    assert_eq!(daily(at(1_003_600, 500), last), DailyAnswer::Wait { hours: 23, mins: 0 });
    assert_eq!(daily(at(1_003_661, 500), last), DailyAnswer::Wait { hours: 22, mins: 58 });
    assert_eq!(daily(at(996_400, 500), last), DailyAnswer::Wait { hours: 25, mins: 0 });
    assert_eq!(daily(at(1_000_000_000, 0), last), DailyAnswer::Claim);
}

#[test]
fn the_calendar_has_two_ends() {
    assert!(at(FIRST_SECOND, 0).is_valid());
    assert!(at(LAST_SECOND, 999_999_999).is_valid());
    assert!(!at(FIRST_SECOND - 1, 0).is_valid());
    assert!(!at(LAST_SECOND + 1, 0).is_valid());
    assert!(!at(0, 1_000_000_000).is_valid());
    assert!(chrono::DateTime::from_timestamp(FIRST_SECOND, 0).is_some());
    assert!(chrono::DateTime::from_timestamp(LAST_SECOND, 999_999_999).is_some());
    assert!(chrono::DateTime::from_timestamp(FIRST_SECOND - 1, 0).is_none());
    assert!(chrono::DateTime::from_timestamp(LAST_SECOND + 1, 0).is_none());
    assert!(!must_wait(at(LAST_SECOND, 999_999_999), Some(at(FIRST_SECOND, 0))));
    assert!(must_wait(at(FIRST_SECOND, 0), Some(at(LAST_SECOND, 999_999_999))));
    assert_eq!(
        daily(at(FIRST_SECOND, 0), Some(at(LAST_SECOND, 999_999_999))),
        DailyAnswer::Wait { hours: 4_595_796_719, mins: 59 }
    );
}

#[test]
fn waits_agree_with_the_calendar() {
    for (now, last) in [(at(5, 7), at(3, 9)), (at(-5, 7), at(-90_000, 9)), (at(80_000, 1), at(0, 2))] {
        let to = chrono::DateTime::from_timestamp(now.secs, now.nanos).unwrap();
        let from = chrono::DateTime::from_timestamp(last.secs, last.nanos).unwrap();
        let passed = to.signed_duration_since(from);
        assert_eq!(must_wait(now, Some(last)), passed.num_seconds() < 3);
        let left = chrono::Duration::hours(24) - passed;
        let expected = if passed.num_hours() >= 24 {
            DailyAnswer::Claim
        } else {
            DailyAnswer::Wait { hours: left.num_hours(), mins: left.num_minutes() % 60 }
        };
        assert_eq!(daily(now, Some(last)), expected);
    }
}

#[test]
fn hold_marks_are_stored_as_json() {
    assert_eq!(encode_holds(&vec![true, false, true]), "[true,false,true]");
    assert_eq!(encode_holds(&vec![false]), "[false]");
    assert_eq!(encode_holds(&Vec::new()), "[]");
}

#[test]
fn stored_hold_marks_read_back() {
    for holds in [vec![], vec![true], vec![false; 5], vec![true, false, true, true, false]] {
        assert_eq!(decode_holds(&encode_holds(&holds)), holds);
    }
    assert_eq!(decode_holds(" [ true , false ] "), vec![true, false]);
}

#[test]
fn damaged_hold_marks_are_none() {
    assert!(decode_holds("").is_empty());
    assert!(decode_holds("[1]").is_empty());
    assert!(decode_holds("[true").is_empty());
    assert!(decode_holds("null").is_empty());
}

#[test]
fn the_keep_alive_server_says_ok() {
    assert_eq!(
        keepalive_response(),
        "HTTP/1.1 200 OK\r\nContent-Length: 2\r\nConnection: close\r\n\r\nOK"
    );
    assert_eq!(listen_address(None), "0.0.0.0:8080");
    assert_eq!(listen_address(Some("3000".to_string())), "0.0.0.0:3000");
}
