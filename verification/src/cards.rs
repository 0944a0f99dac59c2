//! Playing cards and the deck.

use vstd::prelude::*;

use crate::chance::shuffle_cards;
use crate::text::{decimal, decimal_nat};

verus! {

/// A playing card. The weight is what the card counts for in blackjack, with the
/// ace at eleven.
#[derive(Debug, PartialEq, Eq)]
pub struct Card {
    pub suit: String,
    pub label: String,
    pub weight: i32,
}

/// A card as a mathematical value.
#[verifier::ext_equal]
pub struct CardView {
    pub suit: Seq<char>,
    pub label: Seq<char>,
    pub weight: i32,
}

impl View for Card {
    type V = CardView;

    open spec fn view(&self) -> CardView {
        CardView { suit: self.suit@, label: self.label@, weight: self.weight }
    }
}

impl Clone for Card {
    fn clone(&self) -> (copy: Self)
        ensures
            copy@ == self@,
    {
        Card { suit: self.suit.clone(), label: self.label.clone(), weight: self.weight }
    }
}

/// The cards of a list, as mathematical values.
pub open spec fn cards(v: Seq<Card>) -> Seq<CardView> {
    v.map_values(|c: Card| c@)
}

/// Copies a list of cards.
pub fn copy_cards(list: &Vec<Card>) -> (copy: Vec<Card>)
    ensures
        cards(copy@) == cards(list@),
{
    let mut copy: Vec<Card> = Vec::new();
    let mut i: usize = 0;
    while i < list.len()
        invariant
            i <= list@.len(),
            cards(copy@) == cards(list@).take(i as int),
        decreases list@.len() - i,
    {
        let ghost done = copy@;
        copy.push(list[i].clone());
        proof {
            assert(cards(copy@) =~= cards(done).push(copy@.last()@));
            assert(cards(list@).take(i + 1) =~= cards(list@).take(i as int).push(list@[i as int]@));
        }
        i = i + 1;
    }
    copy
}

/// The four suits, numbered from zero.
pub open spec fn suit_of(i: int) -> Seq<char> {
    if i == 0 {
        "♠️"@
    } else if i == 1 {
        "♥️"@
    } else if i == 2 {
        "♦️"@
    } else {
        "♣️"@
    }
}

/// The thirteen labels, numbered from zero.
pub open spec fn label_of(i: int) -> Seq<char> {
    if i == 0 {
        "2"@
    } else if i == 1 {
        "3"@
    } else if i == 2 {
        "4"@
    } else if i == 3 {
        "5"@
    } else if i == 4 {
        "6"@
    } else if i == 5 {
        "7"@
    } else if i == 6 {
        "8"@
    } else if i == 7 {
        "9"@
    } else if i == 8 {
        "10"@
    } else if i == 9 {
        "J"@
    } else if i == 10 {
        "Q"@
    } else if i == 11 {
        "K"@
    } else {
        "A"@
    }
}

/// The weight of each label: its number, ten for the court cards, eleven for the
/// ace.
pub open spec fn weight_of(i: int) -> i32 {
    if i <= 8 {
        (i + 2) as i32
    } else if i <= 11 {
        10
    } else {
        11
    }
}

/// The card with a given suit and label.
pub open spec fn card_of(suit: int, rank: int) -> CardView {
    CardView { suit: suit_of(suit), label: label_of(rank), weight: weight_of(rank) }
}

/// The fifty-two cards, suit by suit.
pub open spec fn standard_deck() -> Seq<CardView> {
    Seq::new(52, |i: int| card_of(i / 13, i % 13))
}

/// Whether a list of cards is a full deck, in whatever order.
pub open spec fn is_full_deck(deck: Seq<CardView>) -> bool {
    deck.to_multiset() == standard_deck().to_multiset()
}

fn suit_name(i: usize) -> (name: &'static str)
    requires
        i < 4,
    ensures
        name@ == suit_of(i as int),
{
    if i == 0 {
        "♠️"
    } else if i == 1 {
        "♥️"
    } else if i == 2 {
        "♦️"
    } else {
        "♣️"
    }
}

fn rank_label(i: usize) -> (label: &'static str)
    requires
        i < 13,
    ensures
        label@ == label_of(i as int),
{
    match i {
        0 => "2",
        1 => "3",
        2 => "4",
        3 => "5",
        4 => "6",
        5 => "7",
        6 => "8",
        7 => "9",
        8 => "10",
        9 => "J",
        10 => "Q",
        11 => "K",
        _ => "A",
    }
}

fn rank_weight(i: usize) -> (weight: i32)
    requires
        i < 13,
    ensures
        weight == weight_of(i as int),
{
    if i <= 8 {
        i as i32 + 2
    } else if i <= 11 {
        10
    } else {
        11
    }
}

/// The fifty-two cards in their standard order.
pub fn ordered_deck() -> (deck: Vec<Card>)
    ensures
        cards(deck@) == standard_deck(),
{
    let mut deck: Vec<Card> = Vec::with_capacity(52);
    let mut s: usize = 0;
    while s < 4
        invariant
            s <= 4,
            cards(deck@) == standard_deck().take(13 * s as int),
        decreases 4 - s,
    {
        let mut r: usize = 0;
        while r < 13
            invariant
                s < 4,
                r <= 13,
                cards(deck@) == standard_deck().take(13 * s + r),
            decreases 13 - r,
        {
            let card = Card {
                suit: suit_name(s).to_owned(),
                label: rank_label(r).to_owned(),
                weight: rank_weight(r),
            };
            let ghost before = deck@;
            deck.push(card);
            proof {
                let n: int = 13 * s + r;
                assert(n / 13 == s && n % 13 == r);
                assert(cards(deck@) =~= cards(before).push(card@));
                assert(standard_deck()[n] =~= card@);
                assert(standard_deck().take(n + 1) =~= standard_deck().take(n).push(card@));
            }
            r = r + 1;
        }
        s = s + 1;
    }
    proof {
        assert(standard_deck().take(52) =~= standard_deck());
    }
    deck
}

/// A freshly shuffled deck. Its order is left to chance: all that is stated is
/// that it is a full deck.
pub fn new_deck() -> (deck: Vec<Card>)
    ensures
        is_full_deck(cards(deck@)),
{
    let mut deck = ordered_deck();
    shuffle_cards(&mut deck);
    deck
}

/// A card as it is shown: suit and label, in a fixed-width font.
pub open spec fn card_text(c: CardView) -> Seq<char> {
    "<code>"@ + c.suit + c.label + "</code>"@
}

/// Renders a card.
pub fn card_str(c: &Card) -> (text: String)
    ensures
        text@ == card_text(c@),
{
    let mut out = "<code>".to_owned();
    out.append(c.suit.as_str());
    out.append(c.label.as_str());
    out.append("</code>");
    out
}

/// Labels with different numbers are different.
pub proof fn lemma_labels_differ(i: int, j: int)
    requires
        0 <= i < 13,
        0 <= j < 13,
        label_of(i) == label_of(j),
    ensures
        i == j,
{
    reveal_strlit("2");
    reveal_strlit("3");
    reveal_strlit("4");
    reveal_strlit("5");
    reveal_strlit("6");
    reveal_strlit("7");
    reveal_strlit("8");
    reveal_strlit("9");
    reveal_strlit("10");
    reveal_strlit("J");
    reveal_strlit("Q");
    reveal_strlit("K");
    reveal_strlit("A");
    assert("2"@[0] == '2' && "3"@[0] == '3' && "4"@[0] == '4' && "5"@[0] == '5');
    assert("6"@[0] == '6' && "7"@[0] == '7' && "8"@[0] == '8' && "9"@[0] == '9');
    assert("10"@[0] == '1' && "J"@[0] == 'J' && "Q"@[0] == 'Q' && "K"@[0] == 'K');
    assert("A"@[0] == 'A');
}

/// Suits with different numbers are different.
pub proof fn lemma_suits_differ(i: int, j: int)
    requires
        0 <= i < 4,
        0 <= j < 4,
        suit_of(i) == suit_of(j),
    ensures
        i == j,
{
    reveal_strlit("♠️");
    reveal_strlit("♥️");
    reveal_strlit("♦️");
    reveal_strlit("♣️");
    assert("♠️"@[0] == '♠' && "♥️"@[0] == '♥' && "♦️"@[0] == '♦' && "♣️"@[0] == '♣');
}

/// A full deck has fifty-two cards, and no card twice.
pub proof fn full_deck_has_each_card_once(deck: Seq<CardView>)
    requires
        is_full_deck(deck),
    ensures
        deck.len() == 52,
        deck.no_duplicates(),
        forall|suit: int, rank: int|
            0 <= suit < 4 && 0 <= rank < 13 ==> deck.contains(#[trigger] card_of(suit, rank)),
{
    let std = standard_deck();
    deck.to_multiset_ensures();
    std.to_multiset_ensures();
    assert forall|i: int, j: int| 0 <= i < std.len() && 0 <= j < std.len() && i != j implies std[i]
        != std[j] by {
        if std[i] == std[j] {
            lemma_labels_differ(i % 13, j % 13);
            lemma_suits_differ(i / 13, j / 13);
        }
    }
    std.lemma_multiset_has_no_duplicates();
    deck.lemma_multiset_has_no_duplicates_conv();
    assert forall|suit: int, rank: int| 0 <= suit < 4 && 0 <= rank < 13 implies deck.contains(
        #[trigger] card_of(suit, rank),
    ) by {
        let n = 13 * suit + rank;
        assert(n / 13 == suit && n % 13 == rank);
        assert(std[n] == card_of(suit, rank));
        assert(std.contains(card_of(suit, rank)));
        assert(deck.to_multiset().count(card_of(suit, rank)) > 0);
    }
}

/// Whether a card is an ace.
pub open spec fn is_ace(c: CardView) -> bool {
    c.label == "A"@
}

/// Every card of a full deck weighs from two to eleven, and the aces are those that
/// weigh eleven.
pub proof fn full_deck_weights(deck: Seq<CardView>)
    requires
        is_full_deck(deck),
    ensures
        forall|i: int|
            #![trigger deck[i]]
            0 <= i < deck.len() ==> {
                &&& 2 <= deck[i].weight <= 11
                &&& is_ace(deck[i]) <==> deck[i].weight == 11
            },
{
    let std = standard_deck();
    deck.to_multiset_ensures();
    std.to_multiset_ensures();
    assert forall|i: int|
        #![trigger deck[i]]
        0 <= i < deck.len() implies {
        &&& 2 <= deck[i].weight <= 11
        &&& is_ace(deck[i]) <==> deck[i].weight == 11
    } by {
        assert(deck.contains(deck[i]));
        assert(std.to_multiset().count(deck[i]) > 0);
        assert(std.contains(deck[i]));
        let k = choose|k: int| 0 <= k < std.len() && std[k] == deck[i];
        assert(deck[i] == card_of(k / 13, k % 13));
        assert(label_of(12) == "A"@);
        if is_ace(deck[i]) {
            lemma_labels_differ(k % 13, 12);
        }
    }
}

proof fn lemma_label_is_number(rank: int)
    requires
        0 <= rank <= 8,
    ensures
        label_of(rank) == decimal(rank + 2),
{
    reveal_strlit("2");
    reveal_strlit("3");
    reveal_strlit("4");
    reveal_strlit("5");
    reveal_strlit("6");
    reveal_strlit("7");
    reveal_strlit("8");
    reveal_strlit("9");
    reveal_strlit("10");
    reveal_with_fuel(decimal_nat, 3);
    assert("2"@[0] == '2' && "3"@[0] == '3' && "4"@[0] == '4' && "5"@[0] == '5');
    assert("6"@[0] == '6' && "7"@[0] == '7' && "8"@[0] == '8' && "9"@[0] == '9');
    assert("10"@[0] == '1' && "10"@[1] == '0');
    assert(10int / 10 == 1 && 10int % 10 == 0);
    assert(rank == 0 || rank == 1 || rank == 2 || rank == 3 || rank == 4 || rank == 5 || rank == 6
        || rank == 7 || rank == 8);
    assert(label_of(rank) =~= decimal(rank + 2));
}

/// The cards of a full deck: in each of the four suits a card for every number from
/// two to ten, which weighs that number, the three court cards, which weigh ten, and
/// the ace, which weighs eleven. No other card is in it.
#[verifier::rlimit(40)]
pub proof fn full_deck_is_the_pack(deck: Seq<CardView>, card: CardView)
    requires
        is_full_deck(deck),
    ensures
        deck.contains(card) <==> {
            &&& card.suit == "♠️"@ || card.suit == "♥️"@ || card.suit == "♦️"@ || card.suit
                == "♣️"@
            &&& {
                ||| 2 <= card.weight <= 10 && card.label == decimal(card.weight as int)
                ||| card.weight == 10 && (card.label == "J"@ || card.label == "Q"@ || card.label
                    == "K"@)
                ||| card.weight == 11 && card.label == "A"@
            }
        },
{
    let std = standard_deck();
    deck.to_multiset_ensures();
    std.to_multiset_ensures();
    full_deck_has_each_card_once(deck);
    if deck.contains(card) {
        assert(std.to_multiset().count(card) > 0);
        assert(std.contains(card));
        let k = choose|k: int| 0 <= k < std.len() && std[k] == card;
        assert(card == card_of(k / 13, k % 13));
        if k % 13 <= 8 {
            lemma_label_is_number(k % 13);
        }
    }
    let suit: int = if card.suit == "♠️"@ {
        0
    } else if card.suit == "♥️"@ {
        1
    } else if card.suit == "♦️"@ {
        2
    } else {
        3
    };
    if card.suit == suit_of(suit) {
        if 2 <= card.weight <= 10 && card.label == decimal(card.weight as int) {
            lemma_label_is_number(card.weight - 2);
            assert(card =~= card_of(suit, card.weight - 2));
        } else if card.weight == 10 && card.label == "J"@ {
            assert(card =~= card_of(suit, 9));
        } else if card.weight == 10 && card.label == "Q"@ {
            assert(card =~= card_of(suit, 10));
        } else if card.weight == 10 && card.label == "K"@ {
            assert(card =~= card_of(suit, 11));
        } else if card.weight == 11 && card.label == "A"@ {
            assert(card =~= card_of(suit, 12));
        }
    }
}

/// The order of the unshuffled deck: thirteen cards of one suit after the other, and
/// within a suit the numbers, the court cards and the ace.
pub proof fn standard_deck_is_in_order(i: int)
    requires
        0 <= i < 52,
    ensures
        standard_deck().len() == 52,
        standard_deck()[i].suit == seq!["♠️"@, "♥️"@, "♦️"@, "♣️"@][i / 13],
        i % 13 <= 8 ==> standard_deck()[i].label == decimal(i % 13 + 2),
        i % 13 > 8 ==> standard_deck()[i].label == seq!["J"@, "Q"@, "K"@, "A"@][i % 13 - 9],
{
    if i % 13 <= 8 {
        lemma_label_is_number(i % 13);
    }
}

/// A card is shown as its suit and its label, one behind the other, inside a tag for
/// fixed-width text.
pub proof fn card_text_frames_the_card(card: CardView)
    ensures
        ({
            let text = card_text(card);
            let n = text.len() as int;
            &&& n == 13 + card.suit.len() + card.label.len()
            &&& text.take(6) == "<code>"@
            &&& text.skip(n - 7) == "</code>"@
            &&& text.subrange(6, n - 7) == card.suit + card.label
        }),
{
    reveal_strlit("<code>");
    reveal_strlit("</code>");
    let text = card_text(card);
    let n = text.len() as int;
    assert(text.take(6) =~= "<code>"@);
    assert(text.skip(n - 7) =~= "</code>"@);
    assert(text.subrange(6, n - 7) =~= card.suit + card.label);
}

} // verus!
