use casino_bot::blackjack::{
    bj_score, can_add_up, can_dealer_finish, compare, deal, may_hit, may_stand, play_dealer,
    take_card, BlackjackGame, Outcome,
};
use casino_bot::cards::{new_deck, Card};
use casino_bot::games::{bj_status, hit, open_blackjack, stand};
use casino_bot::ledger::{Action, LedgerOp};
use casino_bot::reply::{BlackjackStage, Reply};

fn card(label: &str) -> Card {
    Card {
        suit: "♠️".to_string(),
        label: label.to_string(),
        weight: match label {
            "J" | "Q" | "K" => 10,
            "A" => 11,
            n => n.parse().unwrap(),
        },
    }
}

fn hand(labels: &[&str]) -> Vec<Card> {
    labels.iter().map(|l| card(l)).collect()
}

fn heavy(weight: i32) -> Card {
    Card { suit: "♠️".to_string(), label: "X".to_string(), weight }
}

fn game(bet: i32, player: &[&str], dealer: &[&str], deck: &[&str]) -> BlackjackGame {
    BlackjackGame { bet, player: hand(player), dealer: hand(dealer), deck: hand(deck) }
}

#[test]
fn aces_count_eleven_or_one() {
    assert_eq!(bj_score(&hand(&[])), 0);
    assert_eq!(bj_score(&hand(&["K", "A"])), 21);
    assert_eq!(bj_score(&hand(&["A", "A"])), 12);
    assert_eq!(bj_score(&hand(&["A", "A", "A", "A"])), 14);
    assert_eq!(bj_score(&hand(&["A", "9", "A"])), 21);
    assert_eq!(bj_score(&hand(&["K", "Q", "A"])), 21);
    assert_eq!(bj_score(&hand(&["K", "Q", "2"])), 22);
    assert_eq!(bj_score(&hand(&["K", "Q", "2", "A"])), 23);
    assert_eq!(bj_score(&hand(&["7", "8"])), 15);
}

#[test]
fn sums_outside_the_integers_are_noticed() {
    assert!(can_add_up(&vec![heavy(i32::MAX)]));
    assert!(!can_add_up(&vec![heavy(i32::MAX), heavy(1)]));
    assert!(!can_add_up(&vec![heavy(i32::MAX), heavy(1), heavy(-1)]));
    assert!(!can_add_up(&vec![heavy(i32::MIN), heavy(-1)]));
}

#[test]
fn the_deal_alternates_hands_not_cards() {
    let game = deal(100, hand(&["2", "3", "4", "5", "6", "7"]));
    assert_eq!(game.bet, 100);
    assert_eq!(game.player, hand(&["7", "6"]));
    assert_eq!(game.dealer, hand(&["5", "4"]));
    assert_eq!(game.deck, hand(&["2", "3"]));
}

#[test]
fn a_hit_takes_the_last_card_of_the_deck() {
    let next = take_card(game(10, &["2", "3"], &["4", "5"], &["6", "K"]));
    assert_eq!(next.player, hand(&["2", "3", "K"]));
    assert_eq!(next.deck, hand(&["6"]));
    assert_eq!(next.dealer, hand(&["4", "5"]));
}

#[test]
fn the_dealer_draws_to_seventeen() {
    let end = play_dealer(game(10, &["2", "3"], &["2", "3"], &["9", "5", "6", "4"]));
    assert_eq!(end.dealer, hand(&["2", "3", "4", "6", "5"]));
    assert_eq!(end.deck, hand(&["9"]));
    let stands = play_dealer(game(10, &["2"], &["K", "7"], &["9"]));
    assert_eq!(stands.dealer, hand(&["K", "7"]));
    let soft = play_dealer(game(10, &["2"], &["A", "6"], &["9"]));
    assert_eq!(soft.dealer, hand(&["A", "6"]));
}

#[test]
fn a_dealer_without_cards_cannot_finish() {
    assert!(!can_dealer_finish(&hand(&["2", "3"]), &hand(&["4"])));
    assert!(can_dealer_finish(&hand(&["2", "3"]), &hand(&["4", "K"])));
    assert!(!can_dealer_finish(&Vec::new(), &Vec::new()));
}

#[test]
fn scores_are_compared() {
    assert_eq!(compare(20, 19), Outcome::Won);
    assert_eq!(compare(17, 22), Outcome::Won);
    assert_eq!(compare(18, 18), Outcome::Pushed);
    assert_eq!(compare(17, 18), Outcome::Lost);
}

#[test]
fn the_table_hides_the_second_card_of_the_dealer() {
    let player = hand(&["K", "5"]);
    let dealer = hand(&["A", "9"]);
    let hidden = bj_status(&player, &dealer, false);
    assert_eq!(hidden.player_score, 15);
    assert_eq!(hidden.dealer, hand(&["A"]));
    assert_eq!(hidden.dealer_score, 11);
    let open = bj_status(&player, &dealer, true);
    assert_eq!(open.player, player);
    assert_eq!(open.dealer, dealer);
    assert_eq!(open.dealer_score, 20);
}

#[test]
fn opening_takes_the_bet_counts_keeps_and_shows() {
    let actions = open_blackjack(100, hand(&["2", "3", "4", "5", "6", "7"]));
    let kept = game(100, &["7", "6"], &["5", "4"], &["2", "3"]);
    assert_eq!(
        actions,
        vec![
            Action::Ledger(LedgerOp::Charge(100)),
            Action::Ledger(LedgerOp::CountGame),
            Action::SaveBlackjack(kept),
            Action::Send(Reply::Blackjack {
                table: bj_status(&hand(&["7", "6"]), &hand(&["5", "4"]), false),
                stage: BlackjackStage::Playing,
            }),
        ]
    );
}

#[test]
fn a_hit_goes_on_up_to_twenty_one() {
    let actions = hit(game(50, &["K", "5"], &["9", "8"], &["2", "6"]));
    assert_eq!(
        actions,
        vec![
            Action::SaveBlackjack(game(50, &["K", "5", "6"], &["9", "8"], &["2"])),
            Action::Edit(Reply::Blackjack {
                table: bj_status(&hand(&["K", "5", "6"]), &hand(&["9", "8"]), false),
                stage: BlackjackStage::Playing,
            }),
        ]
    );
}

#[test]
fn a_hit_above_twenty_one_ends_the_game() {
    let actions = hit(game(50, &["K", "5"], &["9", "8"], &["2", "7"]));
    assert_eq!(
        actions,
        vec![
            Action::Ledger(LedgerOp::ClearBlackjack),
            Action::Edit(Reply::Blackjack {
                table: bj_status(&hand(&["K", "5", "7"]), &hand(&["9", "8"]), true),
                stage: BlackjackStage::Bust { bet: 50 },
            }),
        ]
    );
}

fn end_of(actions: &[Action]) -> BlackjackStage {
    match actions.last() {
        Some(Action::Edit(Reply::Blackjack { stage, .. })) => *stage,
        _ => panic!("no table"),
    }
}

#[test]
fn a_won_game_pays_twice_the_bet() {
    let actions = stand(game(50, &["K", "Q"], &["9", "8"], &["2"]), 60);
    assert_eq!(actions[0], Action::Ledger(LedgerOp::ClearBlackjack));
    assert_eq!(actions[1], Action::Ledger(LedgerOp::Credit { amount: 100, record: true }));
    assert_eq!(actions.len(), 3);
    assert_eq!(end_of(&actions), BlackjackStage::Won { bet: 50, record: true });
    let again = stand(game(50, &["K", "Q"], &["9", "8"], &["2"]), 100);
    assert_eq!(again[1], Action::Ledger(LedgerOp::Credit { amount: 100, record: false }));
    assert_eq!(end_of(&again), BlackjackStage::Won { bet: 50, record: false });
}

#[test]
fn a_pushed_game_gives_the_bet_back() {
    let actions = stand(game(50, &["K", "8"], &["9", "9"], &["2"]), 0);
    assert_eq!(actions[1], Action::Ledger(LedgerOp::Credit { amount: 50, record: true }));
    assert_eq!(end_of(&actions), BlackjackStage::Pushed);
}

#[test]
fn a_lost_game_pays_nothing() {
    let actions = stand(game(50, &["K", "7"], &["9", "9"], &["2"]), 0);
    assert_eq!(actions.len(), 2);
    assert_eq!(end_of(&actions), BlackjackStage::Lost { bet: 50 });
}

#[test]
fn the_dealer_can_go_over() {
    let actions = stand(game(50, &["2", "3"], &["9", "7"], &["2", "K"]), 1000);
    assert_eq!(actions[1], Action::Ledger(LedgerOp::Credit { amount: 100, record: false }));
    assert_eq!(end_of(&actions), BlackjackStage::Won { bet: 50, record: false });
}

#[test]
fn games_that_cannot_be_played_are_noticed() {
    assert!(!may_hit(&game(10, &["2"], &["3"], &[])));
    assert!(!may_hit(&game(10, &["2"], &[], &["3"])));
    assert!(may_hit(&game(10, &["K", "Q"], &[], &["3"])));
    assert!(may_hit(&game(10, &["2"], &["3"], &["3"])));
    assert!(!may_stand(&game(10, &["2"], &["3"], &[])));
    assert!(may_stand(&game(10, &["2"], &["K", "7"], &[])));
    assert!(!may_stand(&game(i32::MAX, &["K", "8"], &["K", "7"], &[])));
    assert!(may_stand(&game(i32::MAX, &["K", "6"], &["K", "7"], &[])));
    let mut odd = game(10, &["2"], &["K", "7"], &["3"]);
    odd.player = vec![heavy(i32::MAX), heavy(1)];
    assert!(!may_stand(&odd));
    assert!(!may_hit(&odd));
}

#[test]
fn a_game_from_a_full_deck_can_be_played_to_the_end() {
    for _ in 0..50 {
        let mut game = deal(10, new_deck());
        loop {
            assert!(may_hit(&game));
            assert!(may_stand(&game));
            let end = play_dealer(game.clone());
            assert!(bj_score(&end.dealer) >= 17);
            assert_eq!(end.player.len() + end.dealer.len() + end.deck.len(), 52);
            game = take_card(game);
            if bj_score(&game.player) > 21 {
                break;
            }
        }
    }
}
