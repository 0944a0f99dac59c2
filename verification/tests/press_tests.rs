use casino_bot::bets::BetError;
use casino_bot::blackjack::{deal, take_card, BlackjackGame};
use casino_bot::cards::{ordered_deck, Card};
use casino_bot::events::{Event, PlayerStats};
use casino_bot::games::{finish_poker, hit, hold, stand};
use casino_bot::ledger::{Action, LedgerOp, Query};
use casino_bot::payload::{write_dice, write_flip, write_hold};
use casino_bot::poker;
use casino_bot::press::{PressStage, Pressing};
use casino_bot::reply::{Notice, Reply};

fn player(tokens: i32) -> PlayerStats {
    PlayerStats {
        tokens,
        debt: 0,
        lang: "uk".to_string(),
        default_bet: 0,
        last_daily: None,
        games_played: 0,
        biggest_win: 90,
    }
}

fn hear(pressing: &mut Pressing, event: Event) -> Vec<Action> {
    assert!(pressing.accepts(&event));
    pressing.resume(event)
}

fn press(data: &str) -> (Pressing, Vec<Action>) {
    let (mut pressing, actions) = Pressing::start(42, Some(data.to_string()), true);
    assert_eq!(actions, vec![Action::Ask(Query::Stats)]);
    let actions = hear(&mut pressing, Event::Stats(Some(player(100))));
    assert_eq!(pressing.lang, "uk");
    (pressing, actions)
}

fn confirmed(mut actions: Vec<Action>) -> Vec<Action> {
    actions.push(Action::Acknowledge { must_succeed: false });
    actions
}

fn shown(notice: Notice) -> Action {
    Action::Edit(Reply::Notice(notice))
}

#[test]
fn a_press_without_a_message_is_only_confirmed() {
    let (pressing, actions) = Pressing::start(42, Some("bj_hit".to_string()), false);
    assert_eq!(pressing.stage, PressStage::Done);
    assert_eq!(actions, vec![Action::Acknowledge { must_succeed: true }]);
}

#[test]
fn an_unknown_button_does_nothing() {
    assert_eq!(press("hello").1, confirmed(vec![]));
    assert_eq!(press("flip_h_10").1, confirmed(vec![]));
    assert_eq!(press("dice_1").1, confirmed(vec![]));
    let (mut pressing, _) = Pressing::start(42, None, true);
    assert_eq!(hear(&mut pressing, Event::Stats(None)), confirmed(vec![]));
    assert_eq!(pressing.lang, "");
}

#[test]
fn without_a_game_there_is_no_move() {
    for data in ["bj_hit", "bj_stand", "bj_x"] {
        let (mut pressing, actions) = press(data);
        assert_eq!(actions, vec![Action::Ask(Query::Blackjack)]);
        assert_eq!(hear(&mut pressing, Event::Blackjack(None)), confirmed(vec![]));
    }
    for data in ["p_hold_0", "p_draw", "p_x", "p_hold_x"] {
        let (mut pressing, actions) = press(data);
        assert_eq!(actions, vec![Action::Ask(Query::Poker)]);
        assert_eq!(hear(&mut pressing, Event::Poker(None)), confirmed(vec![]));
    }
}

#[test]
fn blackjack_is_played_by_its_buttons() {
    let game = || deal(50, ordered_deck());
    let (mut pressing, _) = press("bj_hit");
    assert_eq!(hear(&mut pressing, Event::Blackjack(Some(game()))), confirmed(hit(game())));
    let (mut pressing, _) = press("bj_stand");
    assert_eq!(
        hear(&mut pressing, Event::Blackjack(Some(game()))),
        confirmed(stand(game(), 90))
    );
    let (mut pressing, _) = press("bj_double");
    assert_eq!(hear(&mut pressing, Event::Blackjack(Some(game()))), confirmed(vec![]));
    assert_eq!(pressing.stage, PressStage::Done);
}

#[test]
fn poker_is_played_by_its_buttons() {
    let game = || poker::deal(50, ordered_deck());
    let (mut pressing, _) = press(&write_hold(3));
    assert_eq!(hear(&mut pressing, Event::Poker(Some(game()))), confirmed(hold(game(), 3)));
    let (mut pressing, _) = press("p_draw");
    assert_eq!(
        hear(&mut pressing, Event::Poker(Some(game()))),
        confirmed(finish_poker(game(), 90))
    );
    let (mut pressing, _) = press("p_hold_many");
    assert_eq!(hear(&mut pressing, Event::Poker(Some(game()))), confirmed(vec![]));
}

#[test]
fn damaged_games_are_noticed() {
    let empty = || BlackjackGame { bet: 10, player: vec![], dealer: vec![], deck: vec![] };
    let (pressing, _) = press("bj_hit");
    assert!(!pressing.accepts(&Event::Blackjack(Some(empty()))));
    let (pressing, _) = press("bj_stand");
    assert!(!pressing.accepts(&Event::Blackjack(Some(empty()))));
    let (pressing, _) = press("bj_x");
    assert!(pressing.accepts(&Event::Blackjack(Some(empty()))));
    let (pressing, _) = press("p_draw");
    let bare = poker::PokerGame { bet: 10, hand: vec![], holds: vec![], deck: vec![] };
    assert!(!pressing.accepts(&Event::Poker(Some(bare.clone()))));
    let (pressing, _) = press("p_hold_0");
    assert!(pressing.accepts(&Event::Poker(Some(bare))));
}

#[test]
fn another_players_bet_is_refused() {
    let refused = confirmed(vec![Action::Alert(Notice::WrongUser)]);
    assert_eq!(press(&write_flip(true, 10, 43)).1, refused);
    assert_eq!(press(&write_dice(1, 10, 43)).1, refused);
    assert_eq!(press("flip_h_10_x").1, refused);
}

#[test]
fn an_uncovered_flip_or_roll_is_refused() {
    let refused = confirmed(vec![shown(Notice::BetRefused(BetError::Invalid))]);
    let (mut pressing, actions) = press(&write_flip(true, 101, 42));
    assert_eq!(actions, vec![Action::Ask(Query::Stats)]);
    assert_eq!(hear(&mut pressing, Event::Stats(Some(player(100)))), refused);
    let (mut pressing, actions) = press(&write_dice(1, 101, 42));
    assert_eq!(actions, vec![Action::Ask(Query::Stats)]);
    assert_eq!(hear(&mut pressing, Event::Stats(Some(player(100)))), refused);
    let (mut pressing, _) = press(&write_flip(true, 10, 42));
    assert_eq!(hear(&mut pressing, Event::Stats(None)), refused);
}

fn flip(data: &str, heads: bool) -> Vec<Action> {
    let (mut pressing, _) = press(data);
    pressing.resume_with(Event::Stats(Some(player(100))), heads)
}

#[test]
fn a_flip_is_won_by_the_side_that_shows() {
    let charge = || {
        vec![Action::Ledger(LedgerOp::Charge(60)), Action::Ledger(LedgerOp::CountGame)]
    };
    for (data, heads, won) in [
        (write_flip(true, 60, 42), true, true),
        (write_flip(true, 60, 42), false, false),
        (write_flip(false, 60, 42), false, true),
        (write_flip(false, 60, 42), true, false),
        ("flip_x_60_42".to_string(), true, false),
        ("flip_x_60_42".to_string(), false, false),
    ] {
        let mut expected = charge();
        if won {
            expected.push(Action::Ledger(LedgerOp::Credit { amount: 120, record: true }));
            expected.push(shown(Notice::FlipWin { heads, winnings: 120, record: true }));
        } else {
            expected.push(shown(Notice::FlipLose { heads, bet: 60 }));
        }
        assert_eq!(flip(&data, heads), confirmed(expected));
    }
}

#[test]
fn a_coin_has_two_sides() {
    let mut sides = [false, false];
    for _ in 0..200 {
        let (mut pressing, _) = press(&write_flip(true, 60, 42));
        let actions = hear(&mut pressing, Event::Stats(Some(player(100))));
        match &actions[actions.len() - 2] {
            Action::Edit(Reply::Notice(Notice::FlipWin { heads: true, .. })) => sides[0] = true,
            Action::Edit(Reply::Notice(Notice::FlipLose { heads: false, .. })) => sides[1] = true,
            other => panic!("{:?}", other),
        }
    }
    assert_eq!(sides, [true, true]);
}

#[test]
fn a_roll_is_won_by_the_right_guess() {
    for (value, ends) in [
        (
            Some(6),
            vec![
                Action::Wait(2),
                Action::Ledger(LedgerOp::Credit { amount: 100, record: true }),
                Action::Send(Reply::Notice(Notice::DiceWin { winnings: 100, record: true })),
            ],
        ),
        (
            Some(5),
            vec![
                Action::Wait(2),
                Action::Send(Reply::Notice(Notice::DiceLose { value: 5, bet: 20 })),
            ],
        ),
        (
            None,
            vec![
                Action::Wait(2),
                Action::Send(Reply::Notice(Notice::DiceLose { value: 0, bet: 20 })),
            ],
        ),
    ] {
        let (mut pressing, _) = press(&write_dice(6, 20, 42));
        assert_eq!(
            hear(&mut pressing, Event::Stats(Some(player(100)))),
            vec![
                Action::Ledger(LedgerOp::Charge(20)),
                Action::Ledger(LedgerOp::CountGame),
                shown(Notice::Rolling),
                Action::Ask(Query::Dice),
            ]
        );
        assert_eq!(hear(&mut pressing, Event::Rolled(value)), confirmed(ends));
        assert_eq!(pressing.stage, PressStage::Done);
    }
}

#[test]
fn winnings_outside_the_integers_are_noticed() {
    let (pressing, _) = press("flip_h_2000000000_42");
    assert!(!pressing.accepts(&Event::Stats(Some(player(i32::MAX)))));
    assert!(pressing.accepts(&Event::Stats(Some(player(100)))));
    let (pressing, _) = press("flip_x_2000000000_42");
    assert!(pressing.accepts(&Event::Stats(Some(player(i32::MAX)))));
    let (mut pressing, _) = press("dice_6_2000000000_42");
    hear(&mut pressing, Event::Stats(Some(player(i32::MAX))));
    assert!(!pressing.accepts(&Event::Rolled(Some(6))));
    assert!(pressing.accepts(&Event::Rolled(Some(5))));
}

#[test]
fn an_answer_out_of_place_ends_the_press() {
    let (mut pressing, _) = press("bj_hit");
    assert!(hear(&mut pressing, Event::Rolled(None)).is_empty());
    assert_eq!(pressing.stage, PressStage::Done);
    let game = take_card(deal(10, ordered_deck()));
    assert!(hear(&mut pressing, Event::Blackjack(Some(game))).is_empty());
}

struct Account {
    tokens: i32,
    debt: i32,
    casino: i32,
    games: i32,
}

fn book(account: &mut Account, actions: &[Action]) {
    for action in actions {
        if let Action::Ledger(op) = action {
            match op {
                LedgerOp::Charge(n) => account.tokens -= n,
                LedgerOp::CountGame => account.games += 1,
                LedgerOp::Credit { amount, .. } => account.tokens += amount,
                LedgerOp::Borrow(n) => {
                    account.tokens += n;
                    account.debt += n;
                }
                LedgerOp::Repay(n) => {
                    account.tokens -= n;
                    account.debt -= n;
                }
                LedgerOp::CasinoPays(n) => account.casino -= n,
                LedgerOp::CasinoReceives(n) => account.casino += n,
                _ => {}
            }
        }
    }
}

#[test]
fn a_flip_wins_or_loses_the_bet() {
    for (heads, tokens) in [(true, 160), (false, 40)] {
        let mut account = Account { tokens: 100, debt: 0, casino: 0, games: 0 };
        book(&mut account, &flip(&write_flip(true, 60, 42), heads));
        assert_eq!((account.tokens, account.games), (tokens, 1));
    }
}

#[test]
fn loans_leave_the_total_alone() {
    let mut account = Account { tokens: 0, debt: 0, casino: 1_000, games: 0 };
    book(&mut account, &casino_bot::conversation::lend(0, 1_000).1);
    assert_eq!((account.tokens, account.debt, account.casino), (500, 500, 500));
    let repay = casino_bot::conversation::answer_command(
        casino_bot::events::Command::PayLoan(200),
        &player(500),
    );
    book(&mut account, &repay.1);
    assert_eq!((account.tokens, account.debt, account.casino), (300, 300, 700));
}

#[test]
fn a_blackjack_game_costs_the_bet_and_pays_twice() {
    let mut account = Account { tokens: 100, debt: 0, casino: 0, games: 0 };
    let card = |label: &str, weight: i32| Card {
        suit: "♠️".to_string(),
        label: label.to_string(),
        weight,
    };
    let deck = vec![card("8", 8), card("9", 9), card("K", 10), card("Q", 10)];
    book(&mut account, &casino_bot::games::open_blackjack(40, deck.clone()));
    assert_eq!((account.tokens, account.games), (60, 1));
    book(&mut account, &stand(deal(40, deck), 0));
    assert_eq!((account.tokens, account.games), (140, 1));
}
