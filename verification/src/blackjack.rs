//! Blackjack: the score, the moves and the dealer's play.

use vstd::prelude::*;

use crate::bets::within_limits;
use crate::cards::{
    cards, copy_cards, full_deck_has_each_card_once, full_deck_weights, is_ace, is_full_deck, Card,
    CardView,
};
use crate::text::same;

verus! {

/// A game in progress: the bet, both hands, and the cards still to come, the next
/// one last.
#[derive(Debug, PartialEq, Eq)]
pub struct BlackjackGame {
    pub bet: i32,
    pub player: Vec<Card>,
    pub dealer: Vec<Card>,
    pub deck: Vec<Card>,
}

/// A game as a mathematical value.
#[verifier::ext_equal]
pub struct BlackjackView {
    pub bet: i32,
    pub player: Seq<CardView>,
    pub dealer: Seq<CardView>,
    pub deck: Seq<CardView>,
}

impl View for BlackjackGame {
    type V = BlackjackView;

    open spec fn view(&self) -> BlackjackView {
        BlackjackView {
            bet: self.bet,
            player: cards(self.player@),
            dealer: cards(self.dealer@),
            deck: cards(self.deck@),
        }
    }
}

/// The weights of a hand, added up.
pub open spec fn weight_sum(hand: Seq<CardView>) -> int
    decreases hand.len(),
{
    if hand.len() == 0 {
        0
    } else {
        weight_sum(hand.drop_last()) + hand.last().weight
    }
}

/// The number of aces in a hand.
pub open spec fn ace_count(hand: Seq<CardView>) -> nat
    decreases hand.len(),
{
    if hand.len() == 0 {
        0
    } else {
        ace_count(hand.drop_last()) + if is_ace(hand.last()) {
            1nat
        } else {
            0nat
        }
    }
}

/// The score of a hand: its weights, less ten for each ace that has to count for
/// one instead of eleven to bring the score down to twenty-one.
pub open spec fn score_of(hand: Seq<CardView>) -> int {
    let sum = weight_sum(hand);
    let excess = if sum > 21 {
        (sum - 21 + 9) / 10
    } else {
        0
    };
    sum - 10 * if excess <= ace_count(hand) {
        excess
    } else {
        ace_count(hand) as int
    }
}

/// Adding up the weights card by card stays within an `i32`.
pub open spec fn adds_up(hand: Seq<CardView>) -> bool {
    forall|k: int|
        0 <= k <= hand.len() ==> i32::MIN <= #[trigger] weight_sum(hand.take(k)) <= i32::MAX
}

/// Whether the weights of a hand add up within an `i32`.
pub fn can_add_up(hand: &Vec<Card>) -> (yes: bool)
    ensures
        yes == adds_up(cards(hand@)),
{
    let ghost all = cards(hand@);
    let mut sum: i32 = 0;
    let mut i: usize = 0;
    proof {
        assert(all.take(0) =~= Seq::<CardView>::empty());
    }
    while i < hand.len()
        invariant
            i <= hand@.len(),
            all == cards(hand@),
            sum == weight_sum(all.take(i as int)),
            forall|k: int|
                0 <= k <= i ==> i32::MIN <= #[trigger] weight_sum(all.take(k)) <= i32::MAX,
        decreases hand@.len() - i,
    {
        proof {
            assert(all.take(i + 1).drop_last() =~= all.take(i as int));
            assert(all.take(i + 1).last() == hand@[i as int]@);
        }
        match sum.checked_add(hand[i].weight) {
            Some(next) => {
                sum = next;
            },
            None => {
                proof {
                    assert(!(i32::MIN <= weight_sum(all.take(i + 1)) <= i32::MAX));
                }
                return false;
            },
        }
        i = i + 1;
    }
    true
}

/// Scores a hand.
pub fn bj_score(hand: &Vec<Card>) -> (score: i32)
    requires
        adds_up(cards(hand@)),
    ensures
        score == score_of(cards(hand@)),
{
    let ghost all = cards(hand@);
    let mut score: i32 = 0;
    let mut aces: usize = 0;
    let mut i: usize = 0;
    proof {
        assert(all.take(0) =~= Seq::<CardView>::empty());
    }
    while i < hand.len()
        invariant
            i <= hand@.len(),
            all == cards(hand@),
            adds_up(all),
            score == weight_sum(all.take(i as int)),
            aces == ace_count(all.take(i as int)),
            aces <= i,
        decreases hand@.len() - i,
    {
        proof {
            assert(all.take(i + 1).drop_last() =~= all.take(i as int));
            assert(all.take(i + 1).last() == hand@[i as int]@);
            assert(i32::MIN <= weight_sum(all.take(i + 1)) <= i32::MAX);
        }
        score = score + hand[i].weight;
        if same(hand[i].label.as_str(), "A") {
            aces = aces + 1;
        }
        i = i + 1;
    }
    proof {
        assert(all.take(i as int) =~= all);
    }
    let ghost sum = weight_sum(all);
    let ghost total = ace_count(all);
    while score > 21 && aces > 0
        invariant
            aces <= total,
            score == sum - 10 * (total - aces),
            aces < total ==> score + 10 > 21,
        decreases aces,
    {
        score = score - 10;
        aces = aces - 1;
    }
    score
}

/// The score is the best that the aces allow: counting some of them for one, it is
/// the highest total of at most twenty-one, or the lowest total of all where none
/// is that low.
pub proof fn score_is_best_total(hand: Seq<CardView>, low_aces: nat)
    requires
        low_aces <= ace_count(hand),
    ensures
        exists|k: nat| k <= ace_count(hand) && score_of(hand) == #[trigger] total_with(hand, k),
        total_with(hand, low_aces) <= 21 ==> total_with(hand, low_aces) <= score_of(hand) <= 21,
        score_of(hand) > 21 ==> score_of(hand) <= total_with(hand, low_aces),
{
    let sum = weight_sum(hand);
    let excess = if sum > 21 {
        (sum - 21 + 9) / 10
    } else {
        0
    };
    let k: nat = if excess <= ace_count(hand) {
        excess as nat
    } else {
        ace_count(hand)
    };
    assert(score_of(hand) == total_with(hand, k));
}

/// The total of a hand in which `low_aces` of the aces count for one.
pub open spec fn total_with(hand: Seq<CardView>, low_aces: nat) -> int {
    weight_sum(hand) - 10 * low_aces
}

impl Clone for BlackjackGame {
    fn clone(&self) -> (copy: Self)
        ensures
            copy@ == self@,
    {
        BlackjackGame {
            bet: self.bet,
            player: copy_cards(&self.player),
            dealer: copy_cards(&self.dealer),
            deck: copy_cards(&self.deck),
        }
    }
}

/// The table after the opening deal from a deck: two cards for the player, then two
/// for the dealer.
pub open spec fn opening(bet: i32, deck: Seq<CardView>) -> BlackjackView {
    let n = deck.len() as int;
    BlackjackView {
        bet,
        player: seq![deck[n - 1], deck[n - 2]],
        dealer: seq![deck[n - 3], deck[n - 4]],
        deck: deck.take(n - 4),
    }
}

/// Deals the opening cards.
pub fn deal(bet: i32, deck: Vec<Card>) -> (game: BlackjackGame)
    requires
        deck@.len() >= 4,
    ensures
        game@ == opening(bet, cards(deck@)),
{
    let ghost all = deck@;
    let mut rest = deck;
    let first = rest.pop().unwrap();
    let second = rest.pop().unwrap();
    let third = rest.pop().unwrap();
    let fourth = rest.pop().unwrap();
    let mut player: Vec<Card> = Vec::new();
    player.push(first);
    player.push(second);
    let mut dealer: Vec<Card> = Vec::new();
    dealer.push(third);
    dealer.push(fourth);
    let game = BlackjackGame { bet, player, dealer, deck: rest };
    proof {
        let n = all.len() as int;
        assert(game@.player =~= opening(bet, cards(all)).player);
        assert(game@.dealer =~= opening(bet, cards(all)).dealer);
        assert(game@.deck =~= opening(bet, cards(all)).deck);
    }
    game
}

/// The table after the player has taken a card.
pub open spec fn after_hit(game: BlackjackView) -> BlackjackView {
    BlackjackView {
        player: game.player.push(game.deck.last()),
        deck: game.deck.drop_last(),
        ..game
    }
}

/// The player takes a card.
pub fn take_card(game: BlackjackGame) -> (next: BlackjackGame)
    requires
        game@.deck.len() > 0,
    ensures
        next@ == after_hit(game@),
{
    let ghost before = game@;
    assert(game.deck@.len() == before.deck.len());
    let mut player = game.player;
    let mut deck = game.deck;
    let card = deck.pop().unwrap();
    player.push(card);
    let next = BlackjackGame { bet: game.bet, player, dealer: game.dealer, deck };
    proof {
        assert(next@.player =~= after_hit(before).player);
        assert(next@.deck =~= after_hit(before).deck);
    }
    next
}

/// The dealer's hand and the deck after the dealer has played: the dealer takes
/// cards while the score is below seventeen, or until the deck runs out.
pub open spec fn dealer_play(dealer: Seq<CardView>, deck: Seq<CardView>) -> (
    Seq<CardView>,
    Seq<CardView>,
)
    decreases deck.len(),
{
    if score_of(dealer) >= 17 || deck.len() == 0 {
        (dealer, deck)
    } else {
        dealer_play(dealer.push(deck.last()), deck.drop_last())
    }
}

/// The table after the dealer has played.
pub open spec fn after_dealer(game: BlackjackView) -> BlackjackView {
    let (dealer, deck) = dealer_play(game.dealer, game.deck);
    BlackjackView { dealer, deck, ..game }
}

/// The dealer reaches seventeen before the deck runs out, and no addition on the
/// way leaves `i32`.
pub open spec fn dealer_can_finish(dealer: Seq<CardView>, deck: Seq<CardView>) -> bool {
    &&& adds_up(dealer_play(dealer, deck).0)
    &&& score_of(dealer_play(dealer, deck).0) >= 17
}

proof fn lemma_adds_up_prefix(hand: Seq<CardView>, n: int)
    requires
        adds_up(hand),
        0 <= n <= hand.len(),
    ensures
        adds_up(hand.take(n)),
{
    assert forall|k: int| 0 <= k <= hand.take(n).len() implies i32::MIN <= #[trigger] weight_sum(
        hand.take(n).take(k),
    ) <= i32::MAX by {
        assert(hand.take(n).take(k) =~= hand.take(k));
        assert(i32::MIN <= weight_sum(hand.take(k)) <= i32::MAX);
    }
}

/// The dealer only adds cards, from the end of the deck, one after the other.
proof fn lemma_dealer_extends(dealer: Seq<CardView>, deck: Seq<CardView>)
    ensures
        ({
            let (hand, rest) = dealer_play(dealer, deck);
            &&& hand.len() + rest.len() == dealer.len() + deck.len()
            &&& dealer.len() <= hand.len()
            &&& hand.take(dealer.len() as int) == dealer
            &&& rest == deck.take(rest.len() as int)
            &&& hand.skip(dealer.len() as int) == deck.skip(rest.len() as int).reverse()
            &&& forall|n: int|
                dealer.len() <= n < hand.len() ==> score_of(#[trigger] hand.take(n)) < 17
            &&& score_of(hand) >= 17 || rest.len() == 0
        }),
    decreases deck.len(),
{
    let (hand, rest) = dealer_play(dealer, deck);
    if score_of(dealer) >= 17 || deck.len() == 0 {
        assert(hand.take(dealer.len() as int) =~= dealer);
        assert(rest =~= deck.take(rest.len() as int));
        assert(hand.skip(dealer.len() as int) =~= deck.skip(rest.len() as int).reverse());
    } else {
        let dealer2 = dealer.push(deck.last());
        let deck2 = deck.drop_last();
        lemma_dealer_extends(dealer2, deck2);
        let d = dealer.len() as int;
        let r = rest.len() as int;
        assert(hand.take(d) =~= dealer) by {
            assert(hand.take(d + 1).take(d) =~= hand.take(d));
            assert(dealer2.take(d) =~= dealer);
        }
        assert(rest =~= deck.take(r)) by {
            assert(deck2.take(r) =~= deck.take(r));
        }
        assert(hand[d] == hand.take(d + 1)[d]);
        assert(hand.skip(d) =~= seq![deck.last()] + hand.skip(d + 1));
        assert(deck.skip(r) =~= deck2.skip(r).push(deck.last()));
        assert(deck.skip(r).reverse() =~= seq![deck.last()] + deck2.skip(r).reverse());
        assert forall|n: int| d <= n < hand.len() implies score_of(#[trigger] hand.take(n)) < 17 by {
            if n == d {
                assert(hand.take(n) == dealer);
            }
        }
    }
}

/// The dealer draws to seventeen: the dealer keeps the cards on the table, takes the
/// next cards of the deck in turn, stops at the first score of seventeen or more,
/// and never stops earlier.
pub proof fn dealer_draws_to_seventeen(dealer: Seq<CardView>, deck: Seq<CardView>)
    requires
        dealer_can_finish(dealer, deck),
    ensures
        ({
            let (hand, rest) = dealer_play(dealer, deck);
            &&& score_of(hand) >= 17
            &&& forall|n: int|
                dealer.len() <= n < hand.len() ==> score_of(#[trigger] hand.take(n)) < 17
            &&& rest == deck.take(rest.len() as int)
            &&& hand == dealer + deck.skip(rest.len() as int).reverse()
        }),
{
    lemma_dealer_extends(dealer, deck);
    let (hand, rest) = dealer_play(dealer, deck);
    let d = dealer.len() as int;
    assert(hand =~= hand.take(d) + hand.skip(d));
}

/// The dealer plays out the hand.
pub fn play_dealer(game: BlackjackGame) -> (next: BlackjackGame)
    requires
        dealer_can_finish(cards(game.dealer@), cards(game.deck@)),
    ensures
        next@ == after_dealer(game@),
{
    let ghost end = dealer_play(cards(game.dealer@), cards(game.deck@));
    let ghost before = game@;
    let bet: i32 = game.bet;
    let player = game.player;
    let mut dealer = game.dealer;
    let mut deck = game.deck;
    proof {
        lemma_dealer_extends(cards(dealer@), cards(deck@));
        lemma_adds_up_prefix(end.0, cards(dealer@).len() as int);
    }
    while bj_score(&dealer) < 17
        invariant
            adds_up(end.0),
            score_of(end.0) >= 17,
            adds_up(cards(dealer@)),
            end == dealer_play(cards(dealer@), cards(deck@)),
        decreases deck@.len(),
    {
        let ghost old_dealer = dealer@;
        let ghost old_deck = deck@;
        let card = deck.pop().unwrap();
        dealer.push(card);
        proof {
            assert(cards(dealer@) =~= cards(old_dealer).push(cards(old_deck).last()));
            assert(cards(deck@) =~= cards(old_deck).drop_last());
            lemma_dealer_extends(cards(dealer@), cards(deck@));
            lemma_adds_up_prefix(end.0, cards(dealer@).len() as int);
        }
    }
    BlackjackGame { bet, player, dealer, deck }
}

/// Whether the dealer can play out the hand.
pub fn can_dealer_finish(dealer: &Vec<Card>, deck: &Vec<Card>) -> (yes: bool)
    ensures
        yes == dealer_can_finish(cards(dealer@), cards(deck@)),
{
    let ghost end = dealer_play(cards(dealer@), cards(deck@));
    let mut hand = copy_cards(dealer);
    let mut rest: usize = deck.len();
    proof {
        lemma_dealer_extends(cards(dealer@), cards(deck@));
        assert(cards(deck@).take(rest as int) =~= cards(deck@));
    }
    loop
        invariant
            rest <= deck@.len(),
            end == dealer_play(cards(hand@), cards(deck@).take(rest as int)),
            end == dealer_play(cards(dealer@), cards(deck@)),
        decreases rest,
    {
        proof {
            lemma_dealer_extends(cards(hand@), cards(deck@).take(rest as int));
            if adds_up(end.0) {
                lemma_adds_up_prefix(end.0, cards(hand@).len() as int);
            }
        }
        if !can_add_up(&hand) {
            return false;
        }
        if bj_score(&hand) >= 17 {
            return true;
        }
        if rest == 0 {
            return false;
        }
        rest = rest - 1;
        let ghost old_hand = hand@;
        hand.push(deck[rest].clone());
        proof {
            let before = cards(deck@).take(rest + 1);
            assert(before.last() == deck@[rest as int]@);
            assert(before.drop_last() =~= cards(deck@).take(rest as int));
            assert(cards(hand@) =~= cards(old_hand).push(before.last()));
        }
    }
}

/// How a finished game ends for the player.
#[derive(Clone, Copy, Debug, PartialEq, Eq, Structural)]
pub enum Outcome {
    Won,
    Pushed,
    Lost,
}

/// The player wins when the dealer is over twenty-one or has the lower score; equal
/// scores are a push.
pub open spec fn outcome_of(player: int, dealer: int) -> Outcome {
    if dealer > 21 || player > dealer {
        Outcome::Won
    } else if player == dealer {
        Outcome::Pushed
    } else {
        Outcome::Lost
    }
}

/// How a game ends once the dealer has played.
pub open spec fn final_outcome(game: BlackjackView) -> Outcome {
    outcome_of(score_of(game.player), score_of(after_dealer(game).dealer))
}

/// Compares the final scores.
pub fn compare(player: i32, dealer: i32) -> (outcome: Outcome)
    ensures
        outcome == outcome_of(player as int, dealer as int),
{
    if dealer > 21 || player > dealer {
        Outcome::Won
    } else if player == dealer {
        Outcome::Pushed
    } else {
        Outcome::Lost
    }
}

/// The player can take a card and the table can be shown afterwards.
pub open spec fn can_hit(game: BlackjackView) -> bool {
    &&& game.deck.len() > 0
    &&& adds_up(after_hit(game).player)
    &&& if score_of(after_hit(game).player) > 21 {
        adds_up(game.dealer)
    } else {
        game.dealer.len() > 0
    }
}

/// The player can stand: the dealer can play out the hand, and a win can be paid.
pub open spec fn can_stand(game: BlackjackView) -> bool {
    &&& dealer_can_finish(game.dealer, game.deck)
    &&& adds_up(game.player)
    &&& final_outcome(game) is Won ==> i32::MIN <= game.bet * 2 <= i32::MAX
}

/// Whether the player can take a card.
pub fn may_hit(game: &BlackjackGame) -> (yes: bool)
    ensures
        yes == can_hit(game@),
{
    if game.deck.len() == 0 {
        return false;
    }
    let next = take_card(game.clone());
    if !can_add_up(&next.player) {
        return false;
    }
    if bj_score(&next.player) > 21 {
        can_add_up(&game.dealer)
    } else {
        game.dealer.len() > 0
    }
}

/// Whether the player can stand.
pub fn may_stand(game: &BlackjackGame) -> (yes: bool)
    ensures
        yes == can_stand(game@),
{
    if !can_dealer_finish(&game.dealer, &game.deck) || !can_add_up(&game.player) {
        return false;
    }
    if -1_073_741_824 <= game.bet && game.bet <= 1_073_741_823 {
        return true;
    }
    let end = play_dealer(game.clone());
    match compare(bj_score(&end.player), bj_score(&end.dealer)) {
        Outcome::Won => false,
        _ => true,
    }
}

/// A game that the library keeps: all fifty-two cards are on the table or in the
/// deck, the dealer has two, the player is not over twenty-one, and the bet is
/// within the limits.
pub open spec fn in_play(game: BlackjackView) -> bool {
    &&& is_full_deck(game.player + game.dealer + game.deck)
    &&& game.dealer.len() == 2
    &&& score_of(game.player) <= 21
    &&& within_limits(game.bet as int)
}

/// Cards as a deck has them: weights from two to eleven, eleven for the aces.
spec fn deck_cards(s: Seq<CardView>) -> bool {
    forall|i: int|
        #![trigger s[i]]
        0 <= i < s.len() ==> 2 <= s[i].weight <= 11 && (is_ace(s[i]) <==> s[i].weight == 11)
}

proof fn lemma_deck_cards_bounds(s: Seq<CardView>)
    requires
        deck_cards(s),
    ensures
        s.len() <= weight_sum(s) - 10 * ace_count(s),
        weight_sum(s) <= 11 * s.len(),
        ace_count(s) <= s.len(),
        s.len() <= score_of(s),
    decreases s.len(),
{
    if s.len() > 0 {
        assert forall|i: int|
            #![trigger s.drop_last()[i]]
            0 <= i < s.drop_last().len() implies 2 <= s.drop_last()[i].weight <= 11 && (is_ace(
            s.drop_last()[i],
        ) <==> s.drop_last()[i].weight == 11) by {
            assert(s.drop_last()[i] == s[i]);
        }
        lemma_deck_cards_bounds(s.drop_last());
        assert(s.last() == s[s.len() - 1]);
    }
}

proof fn lemma_deck_cards_add_up(s: Seq<CardView>)
    requires
        deck_cards(s),
        s.len() <= 52,
    ensures
        adds_up(s),
{
    assert forall|k: int| 0 <= k <= s.len() implies i32::MIN <= #[trigger] weight_sum(s.take(k))
        <= i32::MAX by {
        assert forall|i: int|
            #![trigger s.take(k)[i]]
            0 <= i < k implies 2 <= s.take(k)[i].weight <= 11 && (is_ace(s.take(k)[i])
            <==> s.take(k)[i].weight == 11) by {
            assert(s.take(k)[i] == s[i]);
        }
        lemma_deck_cards_bounds(s.take(k));
    }
}

proof fn lemma_parts_of_deck(a: Seq<CardView>, b: Seq<CardView>, c: Seq<CardView>)
    requires
        is_full_deck(a + b + c),
    ensures
        deck_cards(a),
        deck_cards(b),
        deck_cards(c),
        a.len() + b.len() + c.len() == 52,
{
    let all = a + b + c;
    full_deck_has_each_card_once(all);
    full_deck_weights(all);
    assert forall|i: int|
        #![trigger a[i]]
        0 <= i < a.len() implies 2 <= a[i].weight <= 11 && (is_ace(a[i]) <==> a[i].weight == 11) by {
        assert(a[i] == all[i]);
    }
    assert forall|i: int|
        #![trigger b[i]]
        0 <= i < b.len() implies 2 <= b[i].weight <= 11 && (is_ace(b[i]) <==> b[i].weight == 11) by {
        assert(b[i] == all[a.len() + i]);
    }
    assert forall|i: int|
        #![trigger c[i]]
        0 <= i < c.len() implies 2 <= c[i].weight <= 11 && (is_ace(c[i]) <==> c[i].weight == 11) by {
        assert(c[i] == all[a.len() + b.len() + i]);
    }
}

/// A game dealt from a full deck is in play.
pub proof fn opening_is_in_play(bet: i32, deck: Seq<CardView>)
    requires
        is_full_deck(deck),
        within_limits(bet as int),
    ensures
        in_play(opening(bet, deck)),
{
    full_deck_has_each_card_once(deck);
    let game = opening(bet, deck);
    let all = game.player + game.dealer + game.deck;
    let n = deck.len() as int;
    assert(all.to_multiset() == deck.to_multiset()) by {
        let top = game.player + game.dealer;
        let rest = deck.take(n - 4);
        vstd::seq_lib::lemma_multiset_commutative(top, rest);
        vstd::seq_lib::lemma_multiset_commutative(rest, top.reverse());
        top.lemma_reverse_to_multiset();
        assert(deck =~= rest + top.reverse());
    }
    lemma_parts_of_deck(game.player, game.dealer, game.deck);
    let p = game.player;
    reveal_with_fuel(weight_sum, 3);
    reveal_with_fuel(ace_count, 3);
    assert(p.drop_last() =~= seq![p[0]]);
    assert(p.drop_last().drop_last() =~= Seq::<CardView>::empty());
    assert(2 <= p[0].weight <= 11 && 2 <= p[1].weight <= 11);
}

/// A hit that leaves the player at twenty-one or below keeps the game in play, and
/// any hit keeps all the cards.
pub proof fn hit_keeps_in_play(game: BlackjackView)
    requires
        in_play(game),
    ensures
        score_of(after_hit(game).player) <= 21 ==> in_play(after_hit(game)),
        is_full_deck(after_hit(game).player + after_hit(game).dealer + after_hit(game).deck),
{
    in_play_allows_both_moves(game);
    let next = after_hit(game);
    let card = seq![game.deck.last()];
    let rest = next.deck;
    vstd::seq_lib::lemma_multiset_commutative(game.player + game.dealer, game.deck);
    vstd::seq_lib::lemma_multiset_commutative(game.player, game.dealer);
    vstd::seq_lib::lemma_multiset_commutative(rest, card);
    vstd::seq_lib::lemma_multiset_commutative(game.player, card);
    vstd::seq_lib::lemma_multiset_commutative(next.player, next.dealer);
    vstd::seq_lib::lemma_multiset_commutative(next.player + next.dealer, next.deck);
    assert(game.deck =~= rest + card);
    assert(next.player =~= game.player + card);
    assert((next.player + next.dealer + next.deck).to_multiset() =~= (game.player + game.dealer
        + game.deck).to_multiset());
}

/// Whatever the cards, a player in a game in play can take another card or stand:
/// the deck does not run out on either side.
pub proof fn in_play_allows_both_moves(game: BlackjackView)
    requires
        in_play(game),
    ensures
        can_hit(game),
        can_stand(game),
{
    lemma_parts_of_deck(game.player, game.dealer, game.deck);
    lemma_deck_cards_bounds(game.player);
    lemma_deck_cards_add_up(game.player);
    lemma_deck_cards_add_up(game.dealer);
    let next = after_hit(game);
    assert(deck_cards(next.player)) by {
        assert forall|i: int|
            #![trigger next.player[i]]
            0 <= i < next.player.len() implies 2 <= next.player[i].weight <= 11 && (is_ace(
            next.player[i],
        ) <==> next.player[i].weight == 11) by {
            if i < game.player.len() {
                assert(next.player[i] == game.player[i]);
            } else {
                assert(next.player[i] == game.deck[game.deck.len() - 1]);
            }
        }
    }
    lemma_deck_cards_add_up(next.player);
    let (hand, rest) = dealer_play(game.dealer, game.deck);
    lemma_dealer_extends(game.dealer, game.deck);
    assert(deck_cards(hand)) by {
        let d = game.dealer.len() as int;
        assert forall|i: int|
            #![trigger hand[i]]
            0 <= i < hand.len() implies 2 <= hand[i].weight <= 11 && (is_ace(hand[i])
            <==> hand[i].weight == 11) by {
            if i < d {
                assert(hand[i] == hand.take(d)[i]);
                assert(hand[i] == game.dealer[i]);
            } else {
                let taken = game.deck.skip(rest.len() as int);
                assert(hand[i] == hand.skip(d)[i - d]);
                assert(hand[i] == taken[taken.len() - 1 - (i - d)]);
                assert(hand[i] == game.deck[rest.len() + taken.len() - 1 - (i - d)]);
            }
        }
    }
    lemma_deck_cards_bounds(hand);
    lemma_deck_cards_add_up(hand);
}

/// The dealer's play neither makes nor loses a card.
pub proof fn dealer_keeps_the_cards(game: BlackjackView)
    ensures
        (after_dealer(game).player + after_dealer(game).dealer
            + after_dealer(game).deck).to_multiset() == (game.player + game.dealer
            + game.deck).to_multiset(),
{
    lemma_dealer_extends(game.dealer, game.deck);
    let next = after_dealer(game);
    let d = game.dealer.len() as int;
    let taken = game.deck.skip(next.deck.len() as int);
    assert(next.dealer =~= game.dealer + taken.reverse());
    assert(game.deck =~= next.deck + taken);
    taken.lemma_reverse_to_multiset();
    vstd::seq_lib::lemma_multiset_commutative(game.player, game.dealer);
    vstd::seq_lib::lemma_multiset_commutative(game.player + game.dealer, game.deck);
    vstd::seq_lib::lemma_multiset_commutative(next.deck, taken);
    vstd::seq_lib::lemma_multiset_commutative(game.dealer, taken.reverse());
    vstd::seq_lib::lemma_multiset_commutative(next.player, next.dealer);
    vstd::seq_lib::lemma_multiset_commutative(next.player + next.dealer, next.deck);
    assert((next.player + next.dealer + next.deck).to_multiset() =~= (game.player + game.dealer
        + game.deck).to_multiset());
}

proof fn lemma_sums(hand: Seq<CardView>)
    ensures
        weight_sum(hand) == hand.fold_left(0int, |sum: int, c: CardView| sum + c.weight),
        ace_count(hand) == hand.filter(|c: CardView| c.label == "A"@).len(),
    decreases hand.len(),
{
    reveal(Seq::filter);
    if hand.len() > 0 {
        lemma_sums(hand.drop_last());
    }
}

/// The score of a hand follows from its weights and its aces: from the sum of the
/// weights ten is taken off once for some of the cards that are labelled as aces, for
/// none that need not be, and for all of them before the score exceeds twenty-one.
pub proof fn score_from_the_cards(hand: Seq<CardView>)
    ensures
        ({
            let sum = hand.fold_left(0int, |sum: int, c: CardView| sum + c.weight);
            let aces = hand.filter(|c: CardView| c.label == "A"@).len();
            let score = score_of(hand);
            &&& (sum - score) % 10 == 0
            &&& 0 <= sum - score <= 10 * aces
            &&& score < sum ==> score + 10 > 21
            &&& score > 21 ==> sum - score == 10 * aces
        }),
{
    lemma_sums(hand);
}

/// A hand that does not need its aces lowered scores what its cards weigh.
pub proof fn low_hands_score_their_weights(hand: Seq<CardView>)
    requires
        hand.fold_left(0int, |sum: int, c: CardView| sum + c.weight) <= 21,
    ensures
        score_of(hand) == hand.fold_left(0int, |sum: int, c: CardView| sum + c.weight),
{
    lemma_sums(hand);
}

/// How the final scores decide: the player wins against a dealer over twenty-one or
/// below the player, equal scores are a push, and otherwise the player has lost.
pub proof fn scores_decide(player: int, dealer: int)
    ensures
        outcome_of(player, dealer) is Won <==> dealer > 21 || player > dealer,
        outcome_of(player, dealer) is Pushed <==> dealer <= 21 && player == dealer,
        outcome_of(player, dealer) is Lost <==> dealer <= 21 && player < dealer,
{
}

/// The opening deal gives the last two cards of the deck to the player and the two
/// before them to the dealer; put back in turn, they make up the deck again.
pub proof fn opening_comes_off_the_deck(bet: i32, deck: Seq<CardView>)
    requires
        deck.len() >= 4,
    ensures
        ({
            let game = opening(bet, deck);
            &&& game.bet == bet
            &&& game.player.len() == 2
            &&& game.dealer.len() == 2
            &&& deck == game.deck + game.dealer.reverse() + game.player.reverse()
        }),
{
    let game = opening(bet, deck);
    assert(deck =~= game.deck + game.dealer.reverse() + game.player.reverse());
}

/// A hit moves one card, the last of the deck, to the end of the player's hand, and
/// leaves the dealer and the bet alone.
pub proof fn hit_moves_one_card(game: BlackjackView)
    requires
        game.deck.len() > 0,
    ensures
        ({
            let next = after_hit(game);
            &&& next.bet == game.bet
            &&& next.dealer == game.dealer
            &&& next.player.len() == game.player.len() + 1
            &&& next.player.drop_last() == game.player
            &&& game.deck == next.deck.push(next.player.last())
        }),
{
    let next = after_hit(game);
    assert(next.player.drop_last() =~= game.player);
    assert(game.deck =~= next.deck.push(next.player.last()));
}

/// In a game in play the dealer ends with seventeen or more, and had less before each
/// card that was taken; the player's hand and the bet stay as they are, and the cards
/// that the dealer took are those that the deck lost.
#[verifier::rlimit(40)]
pub proof fn dealer_ends_at_seventeen(game: BlackjackView)
    requires
        is_full_deck(game.player + game.dealer + game.deck),
        game.dealer.len() == 2,
        score_of(game.player) <= 21,
        10 <= game.bet <= 50000,
    ensures
        ({
            let end = after_dealer(game);
            &&& end.player == game.player
            &&& end.bet == game.bet
            &&& score_of(end.dealer) >= 17
            &&& forall|n: int|
                2 <= n < end.dealer.len() ==> score_of(#[trigger] end.dealer.take(n)) < 17
            &&& end.dealer.take(2) == game.dealer
            &&& game.deck == end.deck + end.dealer.skip(2).reverse()
        }),
{
    in_play_allows_both_moves(game);
    dealer_draws_to_seventeen(game.dealer, game.deck);
    lemma_dealer_extends(game.dealer, game.deck);
    let end = after_dealer(game);
    let taken = game.deck.skip(end.deck.len() as int);
    assert(end.dealer.take(2) =~= game.dealer);
    assert(end.dealer.skip(2) =~= taken.reverse());
    assert(taken.reverse().reverse() =~= taken);
    assert(game.deck =~= end.deck + taken);
}

} // verus!
