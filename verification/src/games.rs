//! The games as they run: what is booked, kept and said at each step.

use vstd::prelude::*;

use crate::bets::{slots_multiplier, slots_pay, within_limits};
use crate::blackjack;
use crate::blackjack::{
    adds_up, after_dealer, after_hit, bj_score, can_hit, can_stand, compare, final_outcome,
    score_of, take_card, BlackjackGame, BlackjackView, Outcome,
};
use crate::cards::{cards, copy_cards, Card, CardView};
use crate::hand_rank::{can_rank, is_rankable, pays, poker_rank, rank_of, HandRank};
use crate::ledger::{
    booked, deeds, edited, is_record, nothing, only, pay, payout, sent, then_do, Action,
    ActionView, LedgerOp, Query,
};
use crate::payload::Side;
use crate::poker;
use crate::poker::{
    after_draw, after_toggle, can_draw, copy_holds, count_unheld, draw, toggle, PokerGame, PokerView,
};
use crate::reply::{
    BlackjackStage, BlackjackTable, BlackjackTableView, Notice, PokerStage, Reply, ReplyView,
};

verus! {

/// The seconds that the bot waits for an animation to end.
pub const SUSPENSE_SECS: u64 = 2;

// ---------- Slot machine ----------

/// The bet is taken and the machine is turned.
pub open spec fn spin_opened(bet: i32) -> Seq<ActionView> {
    seq![
        booked(LedgerOp::Charge(bet)),
        booked(LedgerOp::CountGame),
        ActionView::Ask(Query::Slots),
    ]
}

/// Opens a turn of the slot machine.
pub fn open_spin(bet: i32) -> (actions: Vec<Action>)
    ensures
        deeds(actions@) == spin_opened(bet),
{
    let mut actions = only(Action::Ledger(LedgerOp::Charge(bet)));
    then_do(&mut actions, Action::Ledger(LedgerOp::CountGame));
    then_do(&mut actions, Action::Ask(Query::Slots));
    proof {
        assert(deeds(actions@) =~= spin_opened(bet));
    }
    actions
}

/// What a turn of the slot machine wins.
pub open spec fn spin_winnings(bet: i32, value: u8) -> int {
    bet * slots_pay(value as int)
}

/// The winnings are paid, and after a moment they are announced.
pub open spec fn spin_settled(bet: i32, value: u8, biggest_win: i32) -> Seq<ActionView> {
    let winnings = spin_winnings(bet, value) as i32;
    payout(winnings, biggest_win) + seq![
        ActionView::Wait(SUSPENSE_SECS),
        sent(
            if winnings > 0 {
                Notice::SpinWin {
                    winnings,
                    record: is_record(winnings as int, biggest_win as int),
                }
            } else {
                Notice::SpinLose { bet }
            },
        ),
    ]
}

/// Settles a turn of the slot machine.
pub fn settle_spin(bet: i32, value: u8, biggest_win: i32) -> (actions: Vec<Action>)
    requires
        within_limits(bet as int),
    ensures
        deeds(actions@) == spin_settled(bet, value, biggest_win),
{
    let times: i32 = slots_multiplier(value);
    proof {
        assert(times == 0 || times == 3 || times == 10);
        assert(0 <= bet * times <= 500_000) by (nonlinear_arith)
            requires
                0 <= bet <= 50000,
                0 <= times <= 10,
        ;
    }
    let winnings: i32 = bet * times;
    let mut actions = nothing();
    let record: bool = pay(&mut actions, winnings, biggest_win);
    then_do(&mut actions, Action::Wait(SUSPENSE_SECS));
    let notice = if winnings > 0 {
        Notice::SpinWin { winnings, record }
    } else {
        Notice::SpinLose { bet }
    };
    then_do(&mut actions, Action::Send(Reply::Notice(notice)));
    proof {
        assert(deeds(actions@) =~= spin_settled(bet, value, biggest_win));
    }
    actions
}

// ---------- Coin flip ----------

/// Whether the chosen side came up.
pub open spec fn flip_won(heads: bool, side: Side) -> bool {
    (heads && side == Side::Heads) || (!heads && side == Side::Tails)
}

/// The bet is taken, the winnings are paid, and the side is announced.
pub open spec fn flip_settled(heads: bool, side: Side, bet: i32, biggest_win: i32) -> Seq<
    ActionView,
> {
    let winnings = if flip_won(heads, side) {
        (bet * 2) as i32
    } else {
        0
    };
    seq![booked(LedgerOp::Charge(bet)), booked(LedgerOp::CountGame)] + payout(
        winnings,
        biggest_win,
    ) + seq![
        edited(
            if flip_won(heads, side) {
                Notice::FlipWin {
                    heads,
                    winnings,
                    record: is_record(winnings as int, biggest_win as int),
                }
            } else {
                Notice::FlipLose { heads, bet }
            },
        ),
    ]
}

/// Settles a coin flip.
pub fn settle_flip(heads: bool, side: Side, bet: i32, biggest_win: i32) -> (actions: Vec<Action>)
    requires
        flip_won(heads, side) ==> i32::MIN <= bet * 2 <= i32::MAX,
    ensures
        deeds(actions@) == flip_settled(heads, side, bet, biggest_win),
{
    let won: bool = (heads && side == Side::Heads) || (!heads && side == Side::Tails);
    let winnings: i32 = if won {
        bet * 2
    } else {
        0
    };
    let mut actions = only(Action::Ledger(LedgerOp::Charge(bet)));
    then_do(&mut actions, Action::Ledger(LedgerOp::CountGame));
    let record: bool = pay(&mut actions, winnings, biggest_win);
    let notice = if won {
        Notice::FlipWin { heads, winnings, record }
    } else {
        Notice::FlipLose { heads, bet }
    };
    then_do(&mut actions, Action::Edit(Reply::Notice(notice)));
    proof {
        assert(deeds(actions@) =~= flip_settled(heads, side, bet, biggest_win));
    }
    actions
}

// ---------- Dice ----------

/// The bet is taken and the dice are rolled.
pub open spec fn dice_opened(bet: i32) -> Seq<ActionView> {
    seq![
        booked(LedgerOp::Charge(bet)),
        booked(LedgerOp::CountGame),
        edited(Notice::Rolling),
        ActionView::Ask(Query::Dice),
    ]
}

/// Opens a roll of the dice.
pub fn open_dice(bet: i32) -> (actions: Vec<Action>)
    ensures
        deeds(actions@) == dice_opened(bet),
{
    let mut actions = only(Action::Ledger(LedgerOp::Charge(bet)));
    then_do(&mut actions, Action::Ledger(LedgerOp::CountGame));
    then_do(&mut actions, Action::Edit(Reply::Notice(Notice::Rolling)));
    then_do(&mut actions, Action::Ask(Query::Dice));
    proof {
        assert(deeds(actions@) =~= dice_opened(bet));
    }
    actions
}

/// After a moment, a right guess is paid five times the bet, and the roll is
/// announced.
pub open spec fn dice_settled(value: i32, guess: i32, bet: i32, biggest_win: i32) -> Seq<
    ActionView,
> {
    if value == guess {
        let winnings = (bet * 5) as i32;
        seq![ActionView::Wait(SUSPENSE_SECS)] + payout(winnings, biggest_win) + seq![
            sent(
                Notice::DiceWin {
                    winnings,
                    record: is_record(winnings as int, biggest_win as int),
                },
            ),
        ]
    } else {
        seq![ActionView::Wait(SUSPENSE_SECS), sent(Notice::DiceLose { value, bet })]
    }
}

/// Settles a roll of the dice.
pub fn settle_dice(value: i32, guess: i32, bet: i32, biggest_win: i32) -> (actions: Vec<Action>)
    requires
        value == guess ==> i32::MIN <= bet * 5 <= i32::MAX,
    ensures
        deeds(actions@) == dice_settled(value, guess, bet, biggest_win),
{
    let mut actions = only(Action::Wait(SUSPENSE_SECS));
    let notice = if value == guess {
        let winnings: i32 = bet * 5;
        let record: bool = pay(&mut actions, winnings, biggest_win);
        Notice::DiceWin { winnings, record }
    } else {
        Notice::DiceLose { value, bet }
    };
    then_do(&mut actions, Action::Send(Reply::Notice(notice)));
    proof {
        assert(deeds(actions@) =~= dice_settled(value, guess, bet, biggest_win));
    }
    actions
}

// ---------- Blackjack ----------

/// The table as the player sees it: while the game is on, of the dealer's cards the
/// first one, with its weight for a score.
pub open spec fn table_view(
    player: Seq<CardView>,
    dealer: Seq<CardView>,
    show_all: bool,
) -> BlackjackTableView {
    BlackjackTableView {
        player,
        player_score: score_of(player) as i32,
        dealer: if show_all {
            dealer
        } else {
            seq![dealer[0]]
        },
        dealer_score: if show_all {
            score_of(dealer) as i32
        } else {
            dealer[0].weight
        },
    }
}

/// Lays out the table.
pub fn bj_status(player: &Vec<Card>, dealer: &Vec<Card>, show_all: bool) -> (table: BlackjackTable)
    requires
        adds_up(cards(player@)),
        show_all ==> adds_up(cards(dealer@)),
        !show_all ==> dealer@.len() > 0,
    ensures
        table@ == table_view(cards(player@), cards(dealer@), show_all),
{
    let player_score: i32 = bj_score(player);
    if show_all {
        let dealer_score: i32 = bj_score(dealer);
        BlackjackTable {
            player: copy_cards(player),
            player_score,
            dealer: copy_cards(dealer),
            dealer_score,
        }
    } else {
        let mut shown: Vec<Card> = Vec::new();
        shown.push(dealer[0].clone());
        let table = BlackjackTable {
            player: copy_cards(player),
            player_score,
            dealer: shown,
            dealer_score: dealer[0].weight,
        };
        proof {
            assert(cards(shown@) =~= seq![cards(dealer@)[0]]);
        }
        table
    }
}

/// A blackjack reply.
pub open spec fn blackjack_reply(game: BlackjackView, stage: BlackjackStage) -> ReplyView {
    ReplyView::Blackjack {
        table: table_view(game.player, game.dealer, stage !is Playing),
        stage,
    }
}

/// The bet is taken, the game is kept, and the table is shown.
pub open spec fn blackjack_opened(bet: i32, deck: Seq<CardView>) -> Seq<ActionView> {
    let game = blackjack::opening(bet, deck);
    seq![
        booked(LedgerOp::Charge(bet)),
        booked(LedgerOp::CountGame),
        ActionView::SaveBlackjack(game),
        ActionView::Send(blackjack_reply(game, BlackjackStage::Playing)),
    ]
}

/// Opens a game of blackjack with a deck.
pub fn open_blackjack(bet: i32, deck: Vec<Card>) -> (actions: Vec<Action>)
    requires
        deck@.len() >= 4,
        adds_up(blackjack::opening(bet, cards(deck@)).player),
    ensures
        deeds(actions@) == blackjack_opened(bet, cards(deck@)),
{
    let ghost all = cards(deck@);
    let game = blackjack::deal(bet, deck);
    proof {
        assert(game@.dealer.len() == 2);
    }
    let table = bj_status(&game.player, &game.dealer, false);
    let mut actions = only(Action::Ledger(LedgerOp::Charge(bet)));
    then_do(&mut actions, Action::Ledger(LedgerOp::CountGame));
    then_do(&mut actions, Action::SaveBlackjack(game));
    then_do(
        &mut actions,
        Action::Send(Reply::Blackjack { table, stage: BlackjackStage::Playing }),
    );
    proof {
        assert(deeds(actions@) =~= blackjack_opened(bet, all));
    }
    actions
}

/// After a hit: over twenty-one the game is lost and forgotten, otherwise it is kept
/// and goes on.
pub open spec fn hit_done(game: BlackjackView) -> Seq<ActionView> {
    let next = after_hit(game);
    if score_of(next.player) > 21 {
        seq![
            booked(LedgerOp::ClearBlackjack),
            ActionView::Edit(blackjack_reply(next, BlackjackStage::Bust { bet: next.bet })),
        ]
    } else {
        seq![
            ActionView::SaveBlackjack(next),
            ActionView::Edit(blackjack_reply(next, BlackjackStage::Playing)),
        ]
    }
}

/// The player takes a card.
pub fn hit(game: BlackjackGame) -> (actions: Vec<Action>)
    requires
        can_hit(game@),
    ensures
        deeds(actions@) == hit_done(game@),
{
    let ghost before = game@;
    let next = take_card(game);
    let score: i32 = bj_score(&next.player);
    if score > 21 {
        let table = bj_status(&next.player, &next.dealer, true);
        let mut actions = only(Action::Ledger(LedgerOp::ClearBlackjack));
        then_do(
            &mut actions,
            Action::Edit(
                Reply::Blackjack { table, stage: BlackjackStage::Bust { bet: next.bet } },
            ),
        );
        proof {
            assert(deeds(actions@) =~= hit_done(before));
        }
        actions
    } else {
        let table = bj_status(&next.player, &next.dealer, false);
        let mut actions = only(Action::SaveBlackjack(next));
        then_do(
            &mut actions,
            Action::Edit(Reply::Blackjack { table, stage: BlackjackStage::Playing }),
        );
        proof {
            assert(deeds(actions@) =~= hit_done(before));
        }
        actions
    }
}

/// What a finished game pays: twice the bet for a win, the bet for a push.
pub open spec fn blackjack_pays(bet: i32, outcome: Outcome) -> int {
    match outcome {
        Outcome::Won => bet * 2,
        Outcome::Pushed => bet as int,
        Outcome::Lost => 0,
    }
}

/// How the end of a game is announced; a push is never announced as a record.
pub open spec fn blackjack_end(bet: i32, outcome: Outcome, biggest_win: i32) -> BlackjackStage {
    match outcome {
        Outcome::Won => BlackjackStage::Won {
            bet,
            record: is_record(bet * 2, biggest_win as int),
        },
        Outcome::Pushed => BlackjackStage::Pushed,
        Outcome::Lost => BlackjackStage::Lost { bet },
    }
}

/// After a stand: the dealer plays, the game is forgotten, the winnings are paid, and
/// the table is shown.
pub open spec fn stand_done(game: BlackjackView, biggest_win: i32) -> Seq<ActionView> {
    let end = after_dealer(game);
    let outcome = final_outcome(game);
    seq![booked(LedgerOp::ClearBlackjack)] + payout(
        blackjack_pays(game.bet, outcome) as i32,
        biggest_win,
    ) + seq![ActionView::Edit(blackjack_reply(end, blackjack_end(game.bet, outcome, biggest_win)))]
}

/// The player stands.
pub fn stand(game: BlackjackGame, biggest_win: i32) -> (actions: Vec<Action>)
    requires
        can_stand(game@),
    ensures
        deeds(actions@) == stand_done(game@, biggest_win),
{
    let ghost before = game@;
    let bet: i32 = game.bet;
    let end = blackjack::play_dealer(game);
    let player_score: i32 = bj_score(&end.player);
    let dealer_score: i32 = bj_score(&end.dealer);
    let outcome = compare(player_score, dealer_score);
    let mut actions = only(Action::Ledger(LedgerOp::ClearBlackjack));
    let stage = match outcome {
        Outcome::Won => {
            let record: bool = pay(&mut actions, bet * 2, biggest_win);
            BlackjackStage::Won { bet, record }
        },
        Outcome::Pushed => {
            let _ = pay(&mut actions, bet, biggest_win);
            BlackjackStage::Pushed
        },
        Outcome::Lost => BlackjackStage::Lost { bet },
    };
    let table = bj_status(&end.player, &end.dealer, true);
    then_do(&mut actions, Action::Edit(Reply::Blackjack { table, stage }));
    proof {
        assert(deeds(actions@) =~= stand_done(before, biggest_win));
    }
    actions
}

// ---------- Poker ----------

/// A poker reply.
pub open spec fn poker_reply(game: PokerView, stage: PokerStage) -> ReplyView {
    ReplyView::Poker { hand: game.hand, holds: game.holds, stage }
}

fn show_hand(game: &PokerGame, stage: PokerStage) -> (reply: Reply)
    ensures
        reply@ == poker_reply(game@, stage),
{
    Reply::Poker { hand: copy_cards(&game.hand), holds: copy_holds(&game.holds), stage }
}

/// The bet is taken, the game is kept, and the hand is shown.
pub open spec fn poker_opened(bet: i32, deck: Seq<CardView>) -> Seq<ActionView> {
    let game = poker::opening(bet, deck);
    seq![
        booked(LedgerOp::Charge(bet)),
        booked(LedgerOp::CountGame),
        ActionView::SavePoker(game),
        ActionView::Send(poker_reply(game, PokerStage::Holding)),
    ]
}

/// Opens a game of poker with a deck.
pub fn open_poker(bet: i32, deck: Vec<Card>) -> (actions: Vec<Action>)
    requires
        deck@.len() >= 5,
    ensures
        deeds(actions@) == poker_opened(bet, cards(deck@)),
{
    let ghost all = cards(deck@);
    let game = poker::deal(bet, deck);
    let reply = show_hand(&game, PokerStage::Holding);
    let mut actions = only(Action::Ledger(LedgerOp::Charge(bet)));
    then_do(&mut actions, Action::Ledger(LedgerOp::CountGame));
    then_do(&mut actions, Action::SavePoker(game));
    then_do(&mut actions, Action::Send(reply));
    proof {
        assert(deeds(actions@) =~= poker_opened(bet, all));
    }
    actions
}

/// After a card was held or let go, the game is kept and shown.
pub open spec fn hold_done(game: PokerView, i: int) -> Seq<ActionView> {
    let next = after_toggle(game, i);
    seq![ActionView::SavePoker(next), ActionView::Edit(poker_reply(next, PokerStage::Holding))]
}

/// The player holds a card or lets it go.
pub fn hold(game: PokerGame, i: usize) -> (actions: Vec<Action>)
    ensures
        deeds(actions@) == hold_done(game@, i as int),
{
    let ghost before = game@;
    let next = toggle(game, i);
    let reply = show_hand(&next, PokerStage::Holding);
    let mut actions = only(Action::SavePoker(next));
    then_do(&mut actions, Action::Edit(reply));
    proof {
        assert(deeds(actions@) =~= hold_done(before, i as int));
    }
    actions
}

/// What the hand wins after the draw.
pub open spec fn draw_winnings(game: PokerView) -> int {
    game.bet * pays(rank_of(after_draw(game).hand))
}

/// The draw can be made, the new hand has a rank, and what it wins fits an `i32`.
pub open spec fn can_finish(game: PokerView) -> bool {
    &&& can_draw(game)
    &&& is_rankable(after_draw(game).hand)
    &&& i32::MIN <= draw_winnings(game) <= i32::MAX
}

/// Whether the player can draw.
pub fn may_finish(game: &PokerGame) -> (yes: bool)
    ensures
        yes == can_finish(game@),
{
    if count_unheld(game) > game.deck.len() {
        return false;
    }
    let end = draw(game.clone());
    if !can_rank(&end.hand) {
        return false;
    }
    let rank = poker_rank(&end.hand);
    let times: i32 = rank.multiplier();
    proof {
        assert(-2147483648 * 250 <= game.bet * times <= 2147483647 * 250) by (nonlinear_arith)
            requires
                -2147483648 <= game.bet <= 2147483647,
                0 <= times <= 250,
        ;
    }
    let winnings: i64 = game.bet as i64 * times as i64;
    i32::MIN as i64 <= winnings && winnings <= i32::MAX as i64
}

/// After the draw: the game is forgotten, the winnings are paid, and the hand is
/// shown.
pub open spec fn draw_done(game: PokerView, biggest_win: i32) -> Seq<ActionView> {
    let end = after_draw(game);
    let winnings = draw_winnings(game) as i32;
    seq![booked(LedgerOp::ClearPoker)] + payout(winnings, biggest_win) + seq![
        ActionView::Edit(
            poker_reply(
                end,
                PokerStage::Finished {
                    rank: rank_of(end.hand),
                    bet: game.bet,
                    winnings,
                    record: is_record(winnings as int, biggest_win as int),
                },
            ),
        ),
    ]
}

/// The player draws.
pub fn finish_poker(game: PokerGame, biggest_win: i32) -> (actions: Vec<Action>)
    requires
        can_finish(game@),
    ensures
        deeds(actions@) == draw_done(game@, biggest_win),
{
    let ghost before = game@;
    let bet: i32 = game.bet;
    let end = draw(game);
    let rank: HandRank = poker_rank(&end.hand);
    let winnings: i32 = bet * rank.multiplier();
    let mut actions = only(Action::Ledger(LedgerOp::ClearPoker));
    let record: bool = pay(&mut actions, winnings, biggest_win);
    let reply = show_hand(&end, PokerStage::Finished { rank, bet, winnings, record });
    then_do(&mut actions, Action::Edit(reply));
    proof {
        assert(deeds(actions@) =~= draw_done(before, biggest_win));
    }
    actions
}

} // verus!
