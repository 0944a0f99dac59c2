//! Draw poker: the deal, holding cards and the draw.

use vstd::prelude::*;

use crate::bets::within_limits;
use crate::cards::{cards, copy_cards, full_deck_has_each_card_once, is_full_deck, Card, CardView};
use crate::hand_rank::{is_rankable, pays, rank_of};

verus! {

/// A game in progress: the bet, the hand, which cards of it are held, and the cards
/// still to come, the next one last.
#[derive(Debug, PartialEq, Eq)]
pub struct PokerGame {
    pub bet: i32,
    pub hand: Vec<Card>,
    pub holds: Vec<bool>,
    pub deck: Vec<Card>,
}

/// A game as a mathematical value.
#[verifier::ext_equal]
pub struct PokerView {
    pub bet: i32,
    pub hand: Seq<CardView>,
    pub holds: Seq<bool>,
    pub deck: Seq<CardView>,
}

impl View for PokerGame {
    type V = PokerView;

    open spec fn view(&self) -> PokerView {
        PokerView {
            bet: self.bet,
            hand: cards(self.hand@),
            holds: self.holds@,
            deck: cards(self.deck@),
        }
    }
}

/// Copies the hold marks.
pub fn copy_holds(holds: &Vec<bool>) -> (copy: Vec<bool>)
    ensures
        copy@ == holds@,
{
    let mut copy: Vec<bool> = Vec::new();
    let mut i: usize = 0;
    while i < holds.len()
        invariant
            i <= holds@.len(),
            copy@ == holds@.take(i as int),
        decreases holds@.len() - i,
    {
        copy.push(holds[i]);
        proof {
            assert(holds@.take(i + 1) =~= holds@.take(i as int).push(holds@[i as int]));
        }
        i = i + 1;
    }
    proof {
        assert(holds@.take(i as int) =~= holds@);
    }
    copy
}

impl Clone for PokerGame {
    fn clone(&self) -> (copy: Self)
        ensures
            copy@ == self@,
    {
        PokerGame {
            bet: self.bet,
            hand: copy_cards(&self.hand),
            holds: copy_holds(&self.holds),
            deck: copy_cards(&self.deck),
        }
    }
}

/// The game after the deal from a deck: five cards, none held.
pub open spec fn opening(bet: i32, deck: Seq<CardView>) -> PokerView {
    let n = deck.len() as int;
    PokerView {
        bet,
        hand: Seq::new(5, |i: int| deck[n - 1 - i]),
        holds: seq![false, false, false, false, false],
        deck: deck.take(n - 5),
    }
}

/// Deals five cards.
pub fn deal(bet: i32, deck: Vec<Card>) -> (game: PokerGame)
    requires
        deck@.len() >= 5,
    ensures
        game@ == opening(bet, cards(deck@)),
{
    let ghost all = deck@;
    let mut rest = deck;
    let mut hand: Vec<Card> = Vec::new();
    let mut i: usize = 0;
    while i < 5
        invariant
            i <= 5,
            all.len() >= 5,
            rest@ == all.take(all.len() - i),
            hand@.len() == i,
            forall|k: int| 0 <= k < i ==> #[trigger] hand@[k] == all[all.len() - 1 - k],
        decreases 5 - i,
    {
        hand.push(rest.pop().unwrap());
        i = i + 1;
    }
    let game = PokerGame { bet, hand, holds: vec![false, false, false, false, false], deck: rest };
    proof {
        assert(game@.hand =~= opening(bet, cards(all)).hand);
        assert(game@.holds =~= opening(bet, cards(all)).holds);
        assert(game@.deck =~= opening(bet, cards(all)).deck);
    }
    game
}

/// The game after a card was held or let go; a position without a card changes
/// nothing.
pub open spec fn after_toggle(game: PokerView, i: int) -> PokerView {
    if 0 <= i < game.holds.len() {
        PokerView { holds: game.holds.update(i, !game.holds[i]), ..game }
    } else {
        game
    }
}

/// Holds a card, or lets it go.
pub fn toggle(game: PokerGame, i: usize) -> (next: PokerGame)
    ensures
        next@ == after_toggle(game@, i as int),
{
    let mut holds = game.holds;
    if i < holds.len() {
        let held: bool = holds[i];
        holds.set(i, !held);
    }
    PokerGame { bet: game.bet, hand: game.hand, holds, deck: game.deck }
}

/// How many of the first `n` cards are not held.
pub open spec fn unheld(holds: Seq<bool>, n: int) -> int
    decreases n,
{
    if n <= 0 {
        0
    } else {
        unheld(holds, n - 1) + if holds[n - 1] {
            0int
        } else {
            1int
        }
    }
}

/// How many cards the draw looks at: those with a hold mark.
pub open spec fn marked(game: PokerView) -> int {
    if game.hand.len() <= game.holds.len() {
        game.hand.len() as int
    } else {
        game.holds.len() as int
    }
}

/// Whether the card at a position is replaced in the draw.
pub open spec fn is_replaced(game: PokerView, i: int) -> bool {
    0 <= i < marked(game) && !game.holds[i]
}

/// The game after the draw: the cards that are not held are replaced, from left to
/// right, by the next cards of the deck.
pub open spec fn after_draw(game: PokerView) -> PokerView {
    let n = game.deck.len() as int;
    PokerView {
        hand: Seq::new(
            game.hand.len(),
            |i: int|
                if is_replaced(game, i) {
                    game.deck[n - 1 - unheld(game.holds, i)]
                } else {
                    game.hand[i]
                },
        ),
        deck: game.deck.take(n - unheld(game.holds, marked(game))),
        ..game
    }
}

/// The deck has a card for every card that is not held.
pub open spec fn can_draw(game: PokerView) -> bool {
    unheld(game.holds, marked(game)) <= game.deck.len()
}

proof fn lemma_unheld(holds: Seq<bool>, i: int, j: int)
    requires
        0 <= i <= j <= holds.len(),
    ensures
        0 <= unheld(holds, i) <= unheld(holds, j) <= unheld(holds, i) + (j - i),
        i < j && !holds[i] ==> unheld(holds, i) < unheld(holds, j),
    decreases j,
{
    if i < j {
        lemma_unheld(holds, i, j - 1);
    } else if j > 0 {
        lemma_unheld(holds, j - 1, j - 1);
    }
}

/// Counts the cards that the draw replaces.
pub fn count_unheld(game: &PokerGame) -> (n: usize)
    ensures
        n == unheld(game@.holds, marked(game@)),
{
    let mut n: usize = 0;
    let mut i: usize = 0;
    while i < game.hand.len() && i < game.holds.len()
        invariant
            i <= marked(game@),
            n <= i,
            n == unheld(game@.holds, i as int),
        decreases game.hand@.len() - i,
    {
        if !game.holds[i] {
            n = n + 1;
        }
        i = i + 1;
    }
    n
}

/// Draws: replaces the cards that are not held.
pub fn draw(game: PokerGame) -> (next: PokerGame)
    requires
        can_draw(game@),
    ensures
        next@ == after_draw(game@),
{
    let ghost before = game@;
    let ghost old_hand = game.hand@;
    let ghost old_deck = game.deck@;
    let ghost m = marked(game@);
    let bet: i32 = game.bet;
    let mut hand = game.hand;
    let holds = game.holds;
    let mut deck = game.deck;
    let mut i: usize = 0;
    while i < hand.len() && i < holds.len()
        invariant
            before.hand == cards(old_hand),
            before.deck == cards(old_deck),
            before.holds == holds@,
            m == marked(before),
            can_draw(before),
            i <= m,
            hand@.len() == old_hand.len(),
            0 <= unheld(holds@, i as int) <= old_deck.len(),
            deck@ == old_deck.take(old_deck.len() - unheld(holds@, i as int)),
            forall|k: int|
                #![trigger hand@[k]]
                0 <= k < hand@.len() ==> hand@[k] == if k < i && is_replaced(before, k) {
                    old_deck[old_deck.len() - 1 - unheld(holds@, k)]
                } else {
                    old_hand[k]
                },
        decreases hand@.len() - i,
    {
        proof {
            lemma_unheld(holds@, i as int, m);
            lemma_unheld(holds@, i + 1, m);
        }
        if !holds[i] {
            let card = deck.pop().unwrap();
            hand.set(i, card);
        }
        i = i + 1;
    }
    let next = PokerGame { bet, hand, holds, deck };
    proof {
        assert(next@.hand =~= after_draw(before).hand) by {
            assert forall|k: int| 0 <= k < next@.hand.len() implies next@.hand[k] == after_draw(
                before,
            ).hand[k] by {
                if is_replaced(before, k) {
                    lemma_unheld(holds@, k, m);
                    lemma_unheld(holds@, k, k);
                    assert(before.deck[old_deck.len() - 1 - unheld(holds@, k)] == old_deck[old_deck.len()
                        - 1 - unheld(holds@, k)]@);
                }
            }
        }
        assert(next@.deck =~= after_draw(before).deck);
    }
    next
}

/// A game that the library keeps: five cards with five hold marks, all fifty-two
/// cards in the hand or the deck, and a bet within the limits.
pub open spec fn in_play(game: PokerView) -> bool {
    &&& is_full_deck(game.hand + game.deck)
    &&& game.hand.len() == 5
    &&& game.holds.len() == 5
    &&& within_limits(game.bet as int)
}

/// A game dealt from a full deck is in play.
pub proof fn opening_is_in_play(bet: i32, deck: Seq<CardView>)
    requires
        is_full_deck(deck),
        within_limits(bet as int),
    ensures
        in_play(opening(bet, deck)),
{
    full_deck_has_each_card_once(deck);
    let game = opening(bet, deck);
    let n = deck.len() as int;
    let rest = deck.take(n - 5);
    vstd::seq_lib::lemma_multiset_commutative(game.hand, rest);
    vstd::seq_lib::lemma_multiset_commutative(rest, game.hand.reverse());
    game.hand.lemma_reverse_to_multiset();
    assert(deck =~= rest + game.hand.reverse());
    assert((game.hand + rest).to_multiset() =~= deck.to_multiset());
}

/// Holding a card or letting it go keeps the game in play, and doing it twice
/// changes nothing.
pub proof fn toggle_keeps_in_play(game: PokerView, i: int)
    ensures
        in_play(game) ==> in_play(after_toggle(game, i)),
        after_toggle(after_toggle(game, i), i) == game,
{
    assert(after_toggle(after_toggle(game, i), i).holds =~= game.holds);
}

/// The draw leaves the held cards alone and gives every other place a card that was
/// still in the deck, each deck card at most once.
pub proof fn draw_replaces_only_unheld(game: PokerView)
    requires
        can_draw(game),
    ensures
        after_draw(game).hand.len() == game.hand.len(),
        forall|i: int|
            0 <= i < game.hand.len() && !is_replaced(game, i) ==> #[trigger] after_draw(game).hand[i]
                == game.hand[i],
        game.deck.no_duplicates() ==> forall|i: int, j: int|
            #![trigger after_draw(game).hand[i], after_draw(game).hand[j]]
            i != j && is_replaced(game, i) && is_replaced(game, j) ==> after_draw(game).hand[i]
                != after_draw(game).hand[j],
        forall|i: int|
            #![trigger after_draw(game).hand[i]]
            is_replaced(game, i) ==> game.deck.contains(after_draw(game).hand[i])
                && (game.deck.no_duplicates() ==> !after_draw(game).deck.contains(
                after_draw(game).hand[i],
            )),
{
    let next = after_draw(game);
    let n = game.deck.len() as int;
    let m = marked(game);
    assert forall|i: int|
        #![trigger next.hand[i]]
        is_replaced(game, i) implies game.deck.contains(next.hand[i]) && (game.deck.no_duplicates()
        ==> !next.deck.contains(next.hand[i])) by {
        lemma_unheld(game.holds, i, m);
        let at = n - 1 - unheld(game.holds, i);
        assert(next.hand[i] == game.deck[at]);
        if game.deck.no_duplicates() && next.deck.contains(next.hand[i]) {
            let k = choose|k: int| 0 <= k < next.deck.len() && next.deck[k] == next.hand[i];
            assert(game.deck[k] == game.deck[at]);
        }
    }
    if game.deck.no_duplicates() {
        assert forall|i: int, j: int|
            #![trigger next.hand[i], next.hand[j]]
            i != j && is_replaced(game, i) && is_replaced(game, j) implies next.hand[i]
            != next.hand[j] by {
            lemma_unheld(game.holds, i, m);
            lemma_unheld(game.holds, j, m);
            if i < j {
                lemma_unheld(game.holds, i, j);
            } else {
                lemma_unheld(game.holds, j, i);
            }
        }
    }
}

/// A game in play can always be drawn: the deck has enough cards, the new hand has
/// a rank, no card is in it twice, and what it wins can be paid.
pub proof fn in_play_allows_draw(game: PokerView)
    requires
        in_play(game),
    ensures
        can_draw(game),
        is_rankable(after_draw(game).hand),
        after_draw(game).hand.no_duplicates(),
        0 <= game.bet * pays(rank_of(after_draw(game).hand)) <= i32::MAX,
{
    let all = game.hand + game.deck;
    full_deck_has_each_card_once(all);
    lemma_unheld(game.holds, 0, 5);
    let next = after_draw(game);
    assert forall|i: int, j: int| 0 <= i < game.deck.len() && 0 <= j < game.deck.len() && i
        != j implies game.deck[i] != game.deck[j] by {
        assert(all[5 + i] == game.deck[i]);
        assert(all[5 + j] == game.deck[j]);
    }
    draw_replaces_only_unheld(game);
    assert forall|i: int, j: int| 0 <= i < 5 && 0 <= j < 5 && i != j implies next.hand[i]
        != next.hand[j] by {
        if is_replaced(game, i) && is_replaced(game, j) {
        } else if !is_replaced(game, i) && !is_replaced(game, j) {
            assert(all[i] != all[j]);
        } else {
            let (kept, drawn) = if is_replaced(game, i) {
                (j, i)
            } else {
                (i, j)
            };
            let k = choose|k: int| 0 <= k < game.deck.len() && game.deck[k] == next.hand[drawn];
            assert(all[5 + k] == next.hand[drawn]);
            assert(all[kept] == next.hand[kept]);
        }
    }
    let times = pays(rank_of(next.hand));
    assert(0 <= game.bet * times <= 50000 * 250) by (nonlinear_arith)
        requires
            10 <= game.bet <= 50000,
            0 <= times <= 250,
    ;
}

/// The deal takes five cards off the end of the deck and holds none of them; put back
/// in turn, they make up the deck again.
pub proof fn opening_comes_off_the_deck(bet: i32, deck: Seq<CardView>)
    requires
        deck.len() >= 5,
    ensures
        ({
            let game = opening(bet, deck);
            &&& game.bet == bet
            &&& game.hand.len() == 5
            &&& game.holds.len() == 5
            &&& forall|i: int| 0 <= i < 5 ==> !#[trigger] game.holds[i]
            &&& deck == game.deck + game.hand.reverse()
        }),
{
    let game = opening(bet, deck);
    assert(deck =~= game.deck + game.hand.reverse());
}

/// A press on a card changes its mark and nothing else.
pub proof fn toggle_changes_one_mark(game: PokerView, i: int)
    ensures
        ({
            let next = after_toggle(game, i);
            &&& next.bet == game.bet
            &&& next.hand == game.hand
            &&& next.deck == game.deck
            &&& next.holds.len() == game.holds.len()
            &&& forall|k: int|
                0 <= k < game.holds.len() ==> (#[trigger] next.holds[k] == game.holds[k] <==> k != i)
        }),
{
}

/// The cards of a hand that are not held, in order.
pub open spec fn let_go(hand: Seq<CardView>, holds: Seq<bool>) -> Seq<CardView>
    decreases hand.len(),
{
    if hand.len() == 0 || holds.len() == 0 {
        Seq::empty()
    } else {
        (if holds[0] {
            Seq::empty()
        } else {
            seq![hand[0]]
        }) + let_go(hand.skip(1), holds.skip(1))
    }
}

#[verifier::rlimit(40)]
proof fn lemma_let_go_at(hand: Seq<CardView>, holds: Seq<bool>, n: int)
    requires
        0 <= n < hand.len(),
        n < holds.len(),
    ensures
        let_go(hand.take(n + 1), holds) == if holds[n] {
            let_go(hand.take(n), holds)
        } else {
            let_go(hand.take(n), holds).push(hand[n])
        },
    decreases n,
{
    let a = hand.take(n + 1);
    let b = hand.take(n);
    if n == 0 {
        assert(let_go(a.skip(1), holds.skip(1)) =~= Seq::empty());
        assert(let_go(b, holds) =~= Seq::empty());
        assert(let_go(a, holds) =~= if holds[0] {
            Seq::empty()
        } else {
            Seq::<CardView>::empty().push(hand[0])
        });
    } else {
        lemma_let_go_at(hand.skip(1), holds.skip(1), n - 1);
        assert(a.skip(1) =~= hand.skip(1).take(n));
        assert(b.skip(1) =~= hand.skip(1).take(n - 1));
        assert(let_go(a, holds) =~= if holds[n] {
            let_go(b, holds)
        } else {
            let_go(b, holds).push(hand[n])
        });
    }
}

proof fn lemma_one_more_off(deck: Seq<CardView>, u: int)
    requires
        0 <= u < deck.len(),
    ensures
        deck.skip(deck.len() - u - 1).reverse() == deck.skip(deck.len() - u).reverse().push(
            deck[deck.len() - 1 - u],
        ),
{
    let d = deck.len() as int;
    assert(deck.skip(d - u - 1).reverse() =~= deck.skip(d - u).reverse().push(deck[d - 1 - u]));
}

/// Cards that come off the deck one after the other are, in order, the end of the deck.
proof fn lemma_drawn_cards(hand: Seq<CardView>, holds: Seq<bool>, deck: Seq<CardView>, n: int)
    requires
        0 <= n <= hand.len(),
        n <= holds.len(),
        unheld(holds, n) <= deck.len(),
        forall|i: int|
            0 <= i < n && !holds[i] ==> #[trigger] hand[i] == deck[deck.len() - 1 - unheld(
                holds,
                i,
            )],
    ensures
        let_go(hand.take(n), holds) == deck.skip(deck.len() - unheld(holds, n)).reverse(),
    decreases n,
{
    let d = deck.len() as int;
    if n == 0 {
        assert(hand.take(0) =~= Seq::empty());
        assert(deck.skip(d).reverse() =~= Seq::<CardView>::empty());
        assert(let_go(hand.take(0), holds) =~= Seq::<CardView>::empty());
    } else {
        lemma_unheld(holds, n - 1, n);
        lemma_drawn_cards(hand, holds, deck, n - 1);
        lemma_let_go_at(hand, holds, n - 1);
        if !holds[n - 1] {
            assert(hand[n - 1] == deck[d - 1 - unheld(holds, n - 1)]);
            lemma_one_more_off(deck, unheld(holds, n - 1));
        }
    }
}

/// The draw deals from the end of the deck: the new cards, from left to right, are
/// the cards that the deck has lost, the last of them first. Held cards, marks and
/// bet stay.
#[verifier::rlimit(40)]
pub proof fn draw_comes_off_the_deck(game: PokerView)
    requires
        game.hand.len() == 5,
        game.holds.len() == 5,
        game.deck.len() >= 5,
    ensures
        ({
            let next = after_draw(game);
            &&& next.bet == game.bet
            &&& next.holds == game.holds
            &&& next.hand.len() == 5
            &&& forall|i: int|
                0 <= i < 5 && game.holds[i] ==> #[trigger] next.hand[i] == game.hand[i]
            &&& game.deck == next.deck + let_go(next.hand, game.holds).reverse()
        }),
{
    let next = after_draw(game);
    lemma_unheld(game.holds, 0, 5);
    assert(marked(game) == 5);
    assert forall|i: int| 0 <= i < 5 && !game.holds[i] implies #[trigger] next.hand[i]
        == game.deck[game.deck.len() - 1 - unheld(game.holds, i)] by {
        assert(is_replaced(game, i));
    }
    lemma_drawn_cards(next.hand, game.holds, game.deck, 5);
    assert(next.hand.take(5) =~= next.hand);
    let taken = game.deck.skip(game.deck.len() - unheld(game.holds, 5));
    assert(taken.reverse().reverse() =~= taken);
    assert(game.deck =~= next.deck + taken);
}

} // verus!
