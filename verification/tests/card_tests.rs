use casino_bot::cards::{card_str, copy_cards, new_deck, ordered_deck, Card};

fn card(suit: &str, label: &str, weight: i32) -> Card {
    Card { suit: suit.to_string(), label: label.to_string(), weight }
}

#[test]
fn the_ordered_deck_runs_through_the_suits() {
    let deck = ordered_deck();
    assert_eq!(deck.len(), 52);
    assert_eq!(deck[0], card("♠️", "2", 2));
    assert_eq!(deck[8], card("♠️", "10", 10));
    assert_eq!(deck[9], card("♠️", "J", 10));
    assert_eq!(deck[12], card("♠️", "A", 11));
    assert_eq!(deck[13], card("♥️", "2", 2));
    assert_eq!(deck[26], card("♦️", "2", 2));
    assert_eq!(deck[51], card("♣️", "A", 11));
}

#[test]
fn a_new_deck_has_every_card_once() {
    let ordered = ordered_deck();
    for _ in 0..20 {
        let deck = new_deck();
        assert_eq!(deck.len(), 52);
        for c in &ordered {
            assert_eq!(deck.iter().filter(|d| *d == c).count(), 1);
        }
    }
}

#[test]
fn a_new_deck_is_shuffled() {
    let ordered = ordered_deck();
    assert!((0..20).any(|_| new_deck() != ordered));
    assert!((0..20).any(|_| new_deck() != new_deck()));
}

#[test]
fn the_weights_of_a_deck_add_up() {
    let total: i32 = new_deck().iter().map(|c| c.weight).sum();
    assert_eq!(total, 4 * (2 + 3 + 4 + 5 + 6 + 7 + 8 + 9 + 10 * 4 + 11));
}

#[test]
fn a_card_is_shown_in_a_code_tag() {
    assert_eq!(card_str(&card("♠️", "10", 10)), "<code>♠️10</code>");
    assert_eq!(card_str(&card("♥️", "A", 11)), "<code>♥️A</code>");
}

#[test]
fn copies_are_equal() {
    let deck = new_deck();
    assert_eq!(copy_cards(&deck), deck);
    assert_eq!(deck[0].clone(), deck[0]);
}
