use casino_bot::cards::{new_deck, Card};
use casino_bot::games::{finish_poker, hold, may_finish, open_poker};
use casino_bot::hand_rank::HandRank;
use casino_bot::ledger::{Action, LedgerOp};
use casino_bot::poker::{count_unheld, deal, draw, toggle, PokerGame};
use casino_bot::reply::{PokerStage, Reply};

fn card(label: &str) -> Card {
    Card {
        suit: "♥️".to_string(),
        label: label.to_string(),
        weight: match label {
            "J" | "Q" | "K" => 10,
            "A" => 11,
            n => n.parse().unwrap(),
        },
    }
}

fn hand(labels: &[&str]) -> Vec<Card> {
    labels.iter().map(|l| card(l)).collect()
}

fn mixed(cards: &[(&str, &str)]) -> Vec<Card> {
    cards
        .iter()
        .map(|(suit, label)| Card { suit: suit.to_string(), ..card(label) })
        .collect()
}

#[test]
fn five_cards_are_dealt_and_none_is_held() {
    let game = deal(20, hand(&["2", "3", "4", "5", "6", "7", "8"]));
    assert_eq!(game.bet, 20);
    assert_eq!(game.hand, hand(&["8", "7", "6", "5", "4"]));
    assert_eq!(game.holds, vec![false; 5]);
    assert_eq!(game.deck, hand(&["2", "3"]));
}

#[test]
fn opening_poker_takes_the_bet_counts_keeps_and_shows() {
    let actions = open_poker(20, hand(&["2", "3", "4", "5", "6", "7", "8"]));
    assert_eq!(
        actions,
        vec![
            Action::Ledger(LedgerOp::Charge(20)),
            Action::Ledger(LedgerOp::CountGame),
            Action::SavePoker(deal(20, hand(&["2", "3", "4", "5", "6", "7", "8"]))),
            Action::Send(Reply::Poker {
                hand: hand(&["8", "7", "6", "5", "4"]),
                holds: vec![false; 5],
                stage: PokerStage::Holding,
            }),
        ]
    );
}

#[test]
fn a_card_is_held_and_let_go() {
    let game = deal(20, hand(&["2", "3", "4", "5", "6", "7"]));
    let held = toggle(game.clone(), 2);
    assert_eq!(held.holds, vec![false, false, true, false, false]);
    assert_eq!(toggle(held, 2), game);
    assert_eq!(toggle(game.clone(), 5), game);
    assert_eq!(toggle(game.clone(), usize::MAX), game);
}

#[test]
fn a_hold_is_kept_and_shown() {
    let game = deal(20, hand(&["2", "3", "4", "5", "6", "7"]));
    let actions = hold(game.clone(), 0);
    let held = toggle(game, 0);
    assert_eq!(
        actions,
        vec![
            Action::SavePoker(held.clone()),
            Action::Edit(Reply::Poker {
                hand: held.hand,
                holds: held.holds,
                stage: PokerStage::Holding,
            }),
        ]
    );
}

#[test]
fn the_draw_replaces_what_is_not_held_from_left_to_right() {
    let game = PokerGame {
        bet: 10,
        hand: hand(&["2", "3", "4", "5", "6"]),
        holds: vec![true, false, true, false, false],
        deck: hand(&["7", "8", "9", "10", "J"]),
    };
    assert_eq!(count_unheld(&game), 3);
    let end = draw(game);
    assert_eq!(end.hand, hand(&["2", "J", "4", "10", "9"]));
    assert_eq!(end.deck, hand(&["7", "8"]));
}

#[test]
fn missing_marks_keep_their_cards() {
    let game = PokerGame {
        bet: 10,
        hand: hand(&["2", "3", "4"]),
        holds: vec![false],
        deck: hand(&["7"]),
    };
    assert_eq!(draw(game).hand, hand(&["7", "3", "4"]));
}

#[test]
fn a_good_hand_is_paid_and_announced() {
    let cards = mixed(&[("♠️", "J"), ("♥️", "J"), ("♦️", "4"), ("♣️", "2"), ("♠️", "3")]);
    let game = PokerGame { bet: 30, hand: cards, holds: vec![true; 5], deck: Vec::new() };
    assert!(may_finish(&game));
    let actions = finish_poker(game.clone(), 5);
    assert_eq!(
        actions,
        vec![
            Action::Ledger(LedgerOp::ClearPoker),
            Action::Ledger(LedgerOp::Credit { amount: 30, record: true }),
            Action::Edit(Reply::Poker {
                hand: game.hand,
                holds: game.holds,
                stage: PokerStage::Finished {
                    rank: HandRank::JacksOrBetter,
                    bet: 30,
                    winnings: 30,
                    record: true,
                },
            }),
        ]
    );
}

#[test]
fn a_poor_hand_is_not_paid() {
    let cards = mixed(&[("♠️", "J"), ("♥️", "9"), ("♦️", "4"), ("♣️", "2"), ("♠️", "3")]);
    let game = PokerGame { bet: 30, hand: cards, holds: vec![true; 5], deck: Vec::new() };
    let actions = finish_poker(game, 5);
    assert_eq!(actions.len(), 2);
    assert!(matches!(
        actions[1],
        Action::Edit(Reply::Poker {
            stage: PokerStage::Finished {
                rank: HandRank::HighCard,
                bet: 30,
                winnings: 0,
                record: false,
            },
            ..
        })
    ));
}

#[test]
fn hands_that_cannot_be_drawn_are_noticed() {
    let four = PokerGame {
        bet: 10,
        hand: hand(&["2", "3", "4", "6"]),
        holds: vec![false; 5],
        deck: hand(&["7"]),
    };
    assert!(!may_finish(&four));
    let none = PokerGame { bet: 10, hand: Vec::new(), holds: Vec::new(), deck: Vec::new() };
    assert!(!may_finish(&none));
    let royal = PokerGame {
        bet: 20_000_000,
        hand: hand(&["10", "J", "Q", "K", "A"]),
        holds: vec![true; 5],
        deck: Vec::new(),
    };
    assert!(!may_finish(&royal));
    assert!(may_finish(&PokerGame { bet: 50_000, ..royal }));
}

#[test]
fn a_hand_from_a_full_deck_can_always_be_drawn() {
    for i in 0..32usize {
        let mut game = deal(50_000, new_deck());
        for k in 0..5usize {
            if i & (1 << k) != 0 {
                game = toggle(game, k);
            }
        }
        assert!(may_finish(&game));
        let end = draw(game);
        for a in 0..5usize {
            for b in 0..a {
                assert_ne!(end.hand[a], end.hand[b]);
            }
        }
    }
}
