use casino_bot::cards::Card;
use casino_bot::hand_rank::{can_rank, poker_rank, poker_rank_key, HandRank};

fn hand(cards: &[(&str, &str)]) -> Vec<Card> {
    cards
        .iter()
        .map(|(suit, label)| Card {
            suit: suit.to_string(),
            label: label.to_string(),
            weight: match *label {
                "J" | "Q" | "K" => 10,
                "A" => 11,
                n => n.parse().unwrap(),
            },
        })
        .collect()
}

fn ranked(cards: &[(&str, &str)]) -> HandRank {
    let hand = hand(cards);
    assert!(can_rank(&hand));
    poker_rank(&hand)
}

#[test]
fn royal_flush_beats_all() {
    let royal = [("♠️", "A"), ("♠️", "10"), ("♠️", "Q"), ("♠️", "J"), ("♠️", "K")];
    assert_eq!(ranked(&royal), HandRank::RoyalFlush);
    assert_eq!(poker_rank_key(&hand(&royal)), "rank_royal_flush");
    assert_eq!(HandRank::RoyalFlush.multiplier(), 250);
}

#[test]
fn straight_flush_is_a_straight_in_one_suit() {
    let run = [("♥️", "5"), ("♥️", "9"), ("♥️", "7"), ("♥️", "8"), ("♥️", "6")];
    assert_eq!(ranked(&run), HandRank::StraightFlush);
    assert_eq!(poker_rank_key(&hand(&run)), "rank_straight_flush");
    assert_eq!(HandRank::StraightFlush.multiplier(), 50);
    let wheel = [("♥️", "A"), ("♥️", "2"), ("♥️", "3"), ("♥️", "4"), ("♥️", "5")];
    assert_eq!(ranked(&wheel), HandRank::StraightFlush);
}

#[test]
fn four_of_a_kind() {
    let four = [("♠️", "9"), ("♥️", "9"), ("♦️", "9"), ("♣️", "9"), ("♠️", "2")];
    assert_eq!(ranked(&four), HandRank::FourOfAKind);
    assert_eq!(poker_rank_key(&hand(&four)), "rank_four_of_a_kind");
    assert_eq!(HandRank::FourOfAKind.multiplier(), 25);
}

#[test]
fn full_house() {
    let full = [("♠️", "9"), ("♥️", "9"), ("♦️", "9"), ("♣️", "2"), ("♠️", "2")];
    assert_eq!(ranked(&full), HandRank::FullHouse);
    assert_eq!(poker_rank_key(&hand(&full)), "rank_full_house");
    assert_eq!(HandRank::FullHouse.multiplier(), 9);
}

#[test]
fn flush() {
    let flush = [("♠️", "9"), ("♠️", "2"), ("♠️", "K"), ("♠️", "3"), ("♠️", "A")];
    assert_eq!(ranked(&flush), HandRank::Flush);
    assert_eq!(poker_rank_key(&hand(&flush)), "rank_flush");
    assert_eq!(HandRank::Flush.multiplier(), 6);
}

#[test]
fn straight_may_begin_or_end_with_the_ace() {
    let high = [("♠️", "10"), ("♥️", "J"), ("♠️", "Q"), ("♠️", "K"), ("♠️", "A")];
    assert_eq!(ranked(&high), HandRank::Straight);
    let low = [("♠️", "A"), ("♥️", "2"), ("♠️", "3"), ("♠️", "4"), ("♠️", "5")];
    assert_eq!(ranked(&low), HandRank::Straight);
    let around = [("♠️", "K"), ("♥️", "A"), ("♠️", "2"), ("♠️", "3"), ("♠️", "4")];
    assert_eq!(ranked(&around), HandRank::HighCard);
    assert_eq!(poker_rank_key(&hand(&low)), "rank_straight");
    assert_eq!(HandRank::Straight.multiplier(), 4);
}

#[test]
fn three_of_a_kind() {
    let three = [("♠️", "Q"), ("♥️", "Q"), ("♦️", "Q"), ("♣️", "2"), ("♠️", "3")];
    assert_eq!(ranked(&three), HandRank::ThreeOfAKind);
    assert_eq!(poker_rank_key(&hand(&three)), "rank_three_of_a_kind");
    assert_eq!(HandRank::ThreeOfAKind.multiplier(), 3);
}

#[test]
fn two_pair() {
    let pairs = [("♠️", "Q"), ("♥️", "Q"), ("♦️", "3"), ("♣️", "2"), ("♠️", "3")];
    assert_eq!(ranked(&pairs), HandRank::TwoPair);
    assert_eq!(poker_rank_key(&hand(&pairs)), "rank_two_pair");
    assert_eq!(HandRank::TwoPair.multiplier(), 2);
}

#[test]
fn only_a_pair_of_jacks_or_better_counts() {
    let jacks = [("♠️", "J"), ("♥️", "J"), ("♦️", "4"), ("♣️", "2"), ("♠️", "3")];
    assert_eq!(ranked(&jacks), HandRank::JacksOrBetter);
    assert_eq!(poker_rank_key(&hand(&jacks)), "rank_jacks_or_better");
    assert_eq!(HandRank::JacksOrBetter.multiplier(), 1);
    let tens = [("♠️", "10"), ("♥️", "10"), ("♦️", "4"), ("♣️", "2"), ("♠️", "A")];
    assert_eq!(ranked(&tens), HandRank::HighCard);
    assert_eq!(poker_rank_key(&hand(&tens)), "rank_high_card");
    assert_eq!(HandRank::HighCard.multiplier(), 0);
}

#[test]
fn the_order_of_the_cards_does_not_matter() {
    let mut cards = [("♠️", "9"), ("♥️", "9"), ("♦️", "9"), ("♣️", "2"), ("♠️", "2")];
    let rank = ranked(&cards);
    for _ in 0..5 {
        cards.rotate_left(1);
        assert_eq!(ranked(&cards), rank);
    }
    cards.reverse();
    assert_eq!(ranked(&cards), rank);
}

#[test]
fn some_short_hands_have_no_rank() {
    assert!(!can_rank(&Vec::new()));
    assert!(!can_rank(&hand(&[("♠️", "9")])));
    assert!(!can_rank(&hand(&[("♠️", "9"), ("♠️", "10")])));
    assert_eq!(ranked(&[("♠️", "9"), ("♥️", "9")]), HandRank::HighCard);
    assert_eq!(ranked(&[("♠️", "A"), ("♥️", "A")]), HandRank::JacksOrBetter);
}

#[test]
fn better_ranks_pay_more() {
    let ranks = [
        HandRank::RoyalFlush,
        HandRank::StraightFlush,
        HandRank::FourOfAKind,
        HandRank::FullHouse,
        HandRank::Flush,
        HandRank::Straight,
        HandRank::ThreeOfAKind,
        HandRank::TwoPair,
        HandRank::JacksOrBetter,
        HandRank::HighCard,
    ];
    for pair in ranks.windows(2) {
        assert!(pair[0].multiplier() > pair[1].multiplier());
    }
}
