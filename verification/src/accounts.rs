//! What the moves do to the books.

use vstd::prelude::*;

use crate::bets::{asked, covered, within_limits};
use crate::blackjack;
use crate::blackjack::{
    after_hit, can_stand, final_outcome, hit_keeps_in_play, in_play_allows_both_moves,
    score_of, BlackjackView, Outcome,
};
use crate::cards::{is_full_deck, CardView};
use crate::clock::{a_day, a_second, on_cooldown, Timestamp, DAILY_REWARD, GLOBAL_COOLDOWN_SECS};
use crate::conversation::{
    admissible, bet_turn, claim_turn, loaded_turn, loan_turn, next_turn, pause_turn, Stage,
};
use crate::events::{Command, EventView, Game, PlayerView};
use crate::games::{
    blackjack_opened, blackjack_pays, can_finish, dice_opened, dice_settled, draw_done,
    draw_winnings, flip_settled, flip_won, hit_done, hold_done, poker_opened, spin_opened,
    spin_settled, spin_winnings, stand_done,
};
use crate::keyboard::{
    blackjack_buttons_mean_the_moves, dice_buttons_mean_the_offer, flip_buttons_mean_the_offer,
    poker_buttons_mean_the_moves, reply_buttons,
};
use crate::ledger::{
    after_all, lemma_after_all_concat, lemma_after_all_push, payout, sent, ActionView, Books,
};
use crate::payload::{press_of, BlackjackMove, PokerMove, Press, Side};
use crate::poker;
use crate::poker::{after_toggle, in_play_allows_draw, toggle_keeps_in_play, PokerView};
use crate::press::{
    blackjack_turn, closes, face_of, next_press, playable, poker_turn, pressed_turn, PressStage,
};
use crate::reply::{lang_code, reply_lang, Lang, Notice, ReplyView};

verus! {

/// Books that the casino can stand by: no one has fewer tokens than none, the default
/// bet is unset or within the limits, and games that are kept can be played on.
pub open spec fn sound(books: Books) -> bool {
    &&& books.tokens >= 0
    &&& books.casino >= 0
    &&& books.games_played >= 0
    &&& books.biggest_win >= 0
    &&& books.default_bet == 0 || within_limits(books.default_bet)
    &&& books.blackjack is Some ==> blackjack::in_play(books.blackjack->0)
    &&& books.poker is Some ==> poker::in_play(books.poker->0)
}

/// Whether an answer says what is in the books. An answer that could not be had says
/// nothing.
pub open spec fn truthful(books: Books, event: EventView) -> bool {
    match event {
        EventView::Stats(Some(p)) => {
            &&& p.tokens == books.tokens
            &&& p.debt == books.debt
            &&& p.lang == books.lang
            &&& p.default_bet == books.default_bet
            &&& p.last_daily == books.last_daily
            &&& p.games_played == books.games_played
            &&& p.biggest_win == books.biggest_win
        },
        EventView::LastAction { last, .. } => last == books.last_action,
        EventView::Casino(Some(n)) => n == books.casino,
        EventView::Blackjack(Some(game)) => books.blackjack == Some(game),
        EventView::Poker(Some(game)) => books.poker == Some(game),
        _ => true,
    }
}

/// Whether the bet behind a press lies within the limits, as it does for the buttons
/// that the bot offers.
pub open spec fn is_fair_press(press: Press) -> bool {
    match press {
        Press::Flip(Some(offer)) => within_limits(offer.bet as int),
        Press::Dice(Some(offer)) => within_limits(offer.bet as int),
        _ => true,
    }
}

/// Whether the bet that is being played lies within the limits.
pub open spec fn is_fair(stage: PressStage) -> bool {
    match stage {
        PressStage::Loading { press } => is_fair_press(press),
        PressStage::Flipping { bet, .. } => within_limits(bet as int),
        PressStage::Staking { bet, .. } => within_limits(bet as int),
        PressStage::Rolling { bet, .. } => within_limits(bet as int),
        _ => true,
    }
}

proof fn lemma_slots_winnings(bet: i32, value: u8)
    requires
        within_limits(bet as int),
    ensures
        0 <= spin_winnings(bet, value) <= i32::MAX,
{
    let times = crate::bets::slots_pay(value as int);
    assert(0 <= bet * times <= 500_000) by (nonlinear_arith)
        requires
            0 <= bet <= 50000,
            0 <= times <= 10,
    ;
}

/// Every step of the answer to a message leaves sound books sound.
#[verifier::rlimit(40)]
pub proof fn message_keeps_books_sound(
    user_id: i64,
    stage: Stage,
    event: EventView,
    deck: Seq<CardView>,
    books: Books,
)
    requires
        stage.wf(),
        admissible(stage, event),
        truthful(books, event),
        sound(books),
        is_full_deck(deck),
    ensures
        next_turn(user_id, stage, event, deck).stage.wf(),
        sound(after_all(books, next_turn(user_id, stage, event, deck).actions)),
{
    broadcast use {lemma_after_all_push, lemma_after_all_concat};

    reveal_with_fuel(after_all, 5);
    match (stage, event) {
        (Stage::Betting { game, bet, .. }, EventView::Stats(_)) => {
            blackjack::opening_is_in_play(bet, deck);
            poker::opening_is_in_play(bet, deck);
        },
        (Stage::Spinning { bet, .. }, EventView::Rolled(value)) => {
            lemma_slots_winnings(
                bet,
                match value {
                    Some(v) => v,
                    None => 0,
                },
            );
        },
        _ => {},
    }
}

/// Winnings leave sound books sound.
proof fn lemma_payout_is_sound(books: Books, amount: i32, biggest_win: i32)
    requires
        sound(books),
        amount >= 0,
    ensures
        sound(after_all(books, payout(amount, biggest_win))),
{
    reveal_with_fuel(after_all, 2);
}

proof fn lemma_blackjack_press_is_sound(books: Books, choice: BlackjackMove, biggest_win: i32)
    requires
        sound(books),
    ensures
        sound(after_all(books, blackjack_turn(choice, books.blackjack, biggest_win).actions)),
{
    broadcast use {lemma_after_all_push, lemma_after_all_concat};

    reveal_with_fuel(after_all, 3);
    if let Some(game) = books.blackjack {
        in_play_allows_both_moves(game);
        match choice {
            BlackjackMove::Hit => {
                hit_keeps_in_play(game);
                hit_books(books, game);
            },
            BlackjackMove::Stand => {
                let cleared = Books { blackjack: None, ..books };
                let amount = blackjack_pays(game.bet, final_outcome(game)) as i32;
                lemma_payout_is_sound(cleared, amount, biggest_win);
            },
            BlackjackMove::Nothing => {},
        }
    }
}

proof fn lemma_poker_press_is_sound(books: Books, choice: PokerMove, biggest_win: i32)
    requires
        sound(books),
    ensures
        sound(after_all(books, poker_turn(choice, books.poker, biggest_win).actions)),
{
    broadcast use {lemma_after_all_push, lemma_after_all_concat};

    reveal_with_fuel(after_all, 3);
    if let Some(game) = books.poker {
        match choice {
            PokerMove::Hold(i) => {
                toggle_keeps_in_play(game, i as int);
                hold_books(books, game, i as int);
            },
            PokerMove::Draw => {
                in_play_allows_draw(game);
                let cleared = Books { poker: None, ..books };
                lemma_payout_is_sound(cleared, draw_winnings(game) as i32, biggest_win);
            },
            PokerMove::Nothing => {},
        }
    }
}

proof fn lemma_flip_is_sound(books: Books, heads: bool, side: Side, bet: i32, biggest_win: i32)
    requires
        sound(books),
        within_limits(bet as int),
        bet <= books.tokens,
    ensures
        sound(after_all(books, closes(flip_settled(heads, side, bet, biggest_win)).actions)),
{
    broadcast use {lemma_after_all_push, lemma_after_all_concat};

    reveal_with_fuel(after_all, 3);
    let charged = Books {
        tokens: books.tokens - bet,
        games_played: books.games_played + 1,
        ..books
    };
    let amount: i32 = if flip_won(heads, side) {
        (bet * 2) as i32
    } else {
        0
    };
    lemma_payout_is_sound(charged, amount, biggest_win);
}

proof fn lemma_dice_is_sound(books: Books, value: i32, guess: i32, bet: i32, biggest_win: i32)
    requires
        sound(books),
        within_limits(bet as int),
    ensures
        sound(after_all(books, closes(dice_settled(value, guess, bet, biggest_win)).actions)),
        bet <= books.tokens ==> sound(after_all(books, dice_opened(bet))),
{
    broadcast use {lemma_after_all_push, lemma_after_all_concat};

    reveal_with_fuel(after_all, 5);
    lemma_payout_is_sound(books, (bet * 5) as i32, biggest_win);
}

/// Every step of the answer to a fair press leaves sound books sound, and with them
/// it can always be taken: the game that was kept allows the move.
#[verifier::rlimit(40)]
pub proof fn press_keeps_books_sound(
    user_id: i64,
    stage: PressStage,
    event: EventView,
    heads: bool,
    books: Books,
)
    requires
        is_fair(stage),
        truthful(books, event),
        sound(books),
    ensures
        playable(stage, event, heads),
        is_fair(next_press(user_id, stage, event, heads).stage),
        sound(after_all(books, next_press(user_id, stage, event, heads).actions)),
{
    reveal_with_fuel(after_all, 3);
    match (stage, event) {
        (PressStage::AtBlackjack { choice, biggest_win }, EventView::Blackjack(Some(game))) => {
            in_play_allows_both_moves(game);
            lemma_blackjack_press_is_sound(books, choice, biggest_win);
        },
        (PressStage::AtPoker { choice, biggest_win }, EventView::Poker(Some(game))) => {
            in_play_allows_draw(game);
            lemma_poker_press_is_sound(books, choice, biggest_win);
        },
        (PressStage::Flipping { side, bet, biggest_win }, EventView::Stats(Some(p))) => {
            if bet <= p.tokens {
                lemma_flip_is_sound(books, heads, side, bet, biggest_win);
            }
        },
        (PressStage::Staking { guess, bet, biggest_win }, EventView::Stats(Some(p))) => {
            lemma_dice_is_sound(books, 0, guess, bet, biggest_win);
        },
        (PressStage::Rolling { guess, bet, biggest_win }, EventView::Rolled(value)) => {
            lemma_dice_is_sound(books, face_of(value), guess, bet, biggest_win);
        },
        _ => {},
    }
}

/// A loan moves tokens from the casino to the player and as much to the player's
/// debt; a refused one changes nothing.
pub proof fn loan_moves_tokens(books: Books, tokens: i32, casino: i32)
    ensures
        ({
            let after = after_all(books, loan_turn(tokens, casino).actions);
            &&& after.tokens + after.casino == books.tokens + books.casino
            &&& after.tokens - after.debt == books.tokens - books.debt
            &&& tokens < 50 && casino >= 500 ==> after == (Books {
                tokens: books.tokens + 500,
                debt: books.debt + 500,
                casino: books.casino - 500,
                ..books
            })
            &&& !(tokens < 50 && casino >= 500) ==> after == books
        }),
{
    reveal_with_fuel(after_all, 5);
}

/// A repayment moves tokens from the player to the casino and takes as much off the
/// player's debt; it is never more than the player has, and a refused one changes
/// nothing.
pub proof fn repayment_moves_tokens(books: Books, amount: i32, player: PlayerView)
    requires
        player.tokens == books.tokens,
    ensures
        ({
            let after = after_all(books, loaded_turn(Command::PayLoan(amount), player).actions);
            &&& after.tokens + after.casino == books.tokens + books.casino
            &&& after.tokens - after.debt == books.tokens - books.debt
            &&& 0 < amount <= books.tokens ==> after == (Books {
                tokens: books.tokens - amount,
                debt: books.debt - amount,
                casino: books.casino + amount,
                ..books
            })
            &&& !(0 < amount <= books.tokens) ==> after == books
        }),
{
    reveal_with_fuel(after_all, 5);
}

/// After a claim of the daily reward, a second one before a day has passed is refused
/// and changes nothing; from then on it is granted.
pub proof fn second_claim_waits(books: Books, first: Timestamp, second: Timestamp)
    requires
        claim_turn(first, books.last_daily).actions.contains(
            sent(Notice::DailySuccess),
        ),
    ensures
        ({
            let once = after_all(books, claim_turn(first, books.last_daily).actions);
            let twice = after_all(once, claim_turn(second, once.last_daily).actions);
            &&& once == (Books {
                tokens: books.tokens + DAILY_REWARD,
                last_daily: Some(first),
                ..books
            })
            &&& second.total() < first.total() + a_day() ==> twice == once
            &&& second.total() >= first.total() + a_day() ==> twice == (Books {
                tokens: once.tokens + DAILY_REWARD,
                last_daily: Some(second),
                ..once
            })
        }),
{
    reveal_with_fuel(after_all, 5);
    let actions = claim_turn(first, books.last_daily).actions;
    let granted = sent(Notice::DailySuccess);
    let i = choose|i: int| 0 <= i < actions.len() && actions[i] == granted;
    assert(actions[i] == granted);
}

/// After a game that came through the pause, a second one before the pause is over is
/// refused and changes nothing; from then on the moment is noted anew.
pub proof fn second_game_waits(
    books: Books,
    game: Game,
    given: Option<i32>,
    biggest_win: i32,
    first: Timestamp,
    second: Timestamp,
)
    requires
        !on_cooldown(first, books.last_action),
    ensures
        ({
            let once = after_all(
                books,
                pause_turn(
                    game,
                    given,
                    books.default_bet as i32,
                    biggest_win,
                    first,
                    books.last_action,
                ).actions,
            );
            let turn = pause_turn(
                game,
                given,
                books.default_bet as i32,
                biggest_win,
                second,
                once.last_action,
            );
            let twice = after_all(once, turn.actions);
            &&& once == (Books { last_action: Some(first), ..books })
            &&& second.total() < first.total() + GLOBAL_COOLDOWN_SECS * a_second() ==> {
                &&& turn.stage is Done
                &&& twice == once
            }
            &&& second.total() >= first.total() + GLOBAL_COOLDOWN_SECS * a_second() ==> twice == (
            Books { last_action: Some(second), ..books })
        }),
{
    reveal_with_fuel(after_all, 5);
}

/// A bet that is out of bounds costs nothing but the pause, and one that the balance
/// does not cover costs nothing.
pub proof fn refused_bets_cost_nothing(
    books: Books,
    user_id: i64,
    game: Game,
    given: Option<i32>,
    default_bet: i32,
    biggest_win: i32,
    now: Timestamp,
    bet: i32,
    tokens: Option<i32>,
    deck: Seq<CardView>,
)
    ensures
        asked(given, default_bet) is Err ==> ({
            let turn = pause_turn(
                game,
                given,
                default_bet,
                biggest_win,
                now,
                books.last_action,
            );
            &&& turn.stage is Done
            &&& after_all(books, turn.actions) == if on_cooldown(now, books.last_action) {
                books
            } else {
                Books { last_action: Some(now), ..books }
            }
        }),
        covered(bet, tokens) is Err ==> ({
            let turn = bet_turn(user_id, game, bet, biggest_win, tokens, deck);
            &&& turn.stage is Done
            &&& after_all(books, turn.actions) == books
        }),
{
    reveal_with_fuel(after_all, 5);
}

/// A bet that was offered to another player is answered with a notice and changes
/// nothing.
pub proof fn strangers_change_nothing(books: Books, user_id: i64, press: Press, biggest_win: i32)
    requires
        match press {
            Press::Flip(Some(offer)) => offer.user != user_id,
            Press::Dice(Some(offer)) => offer.user != user_id,
            _ => false,
        },
    ensures
        pressed_turn(user_id, press, biggest_win) == closes(
            seq![ActionView::Alert(Notice::WrongUser)],
        ),
        after_all(books, pressed_turn(user_id, press, biggest_win).actions) == books,
{
    reveal_with_fuel(after_all, 5);
}

/// The bets that a message offers for a coin flip or a roll of the dice lie within
/// the limits, and they are offered to the sender.
pub proof fn offers_are_fair(
    user_id: i64,
    stage: Stage,
    event: EventView,
    deck: Seq<CardView>,
    bet: i32,
    user: i64,
)
    requires
        stage.wf(),
        ({
            let actions = next_turn(user_id, stage, event, deck).actions;
            ||| actions.contains(sent(Notice::FlipPrompt { bet, user }))
            ||| actions.contains(sent(Notice::DicePrompt { bet, user }))
        }),
    ensures
        within_limits(bet as int),
        user == user_id,
{
    let actions = next_turn(user_id, stage, event, deck).actions;
    let i = choose|i: int|
        0 <= i < actions.len() && (actions[i] == sent(Notice::FlipPrompt { bet, user })
            || actions[i] == sent(Notice::DicePrompt { bet, user }));
    assert(actions[i] == sent(Notice::FlipPrompt { bet, user }) || actions[i] == sent(
        Notice::DicePrompt { bet, user },
    ));
}

/// Every button under a reply that offers a fair bet, or shows a game, is a fair
/// press.
pub proof fn offered_presses_are_fair(reply: ReplyView, row: int, place: int)
    requires
        reply_buttons(reply) is Some,
        0 <= row < reply_buttons(reply)->0.len(),
        0 <= place < reply_buttons(reply)->0[row].len(),
        match reply {
            ReplyView::Notice(Notice::FlipPrompt { bet, .. }) => within_limits(bet as int),
            ReplyView::Notice(Notice::DicePrompt { bet, .. }) => within_limits(bet as int),
            ReplyView::Poker { holds, .. } => 0 < holds.len() <= usize::MAX,
            _ => true,
        },
    ensures
        is_fair_press(press_of(reply_buttons(reply)->0[row][place].data)),
        press_of(reply_buttons(reply)->0[row][place].data) !is Unknown,
{
    match reply {
        ReplyView::Notice(Notice::FlipPrompt { bet, user }) => {
            flip_buttons_mean_the_offer(bet, user);
        },
        ReplyView::Notice(Notice::DicePrompt { bet, user }) => {
            let guess = row * 3 + place + 1;
            assert(row == 0 || row == 1);
            dice_buttons_mean_the_offer(bet, user, guess);
            assert((guess - 1) / 3 == row && (guess - 1) % 3 == place);
        },
        ReplyView::Blackjack { table, .. } => {
            blackjack_buttons_mean_the_moves(table);
        },
        ReplyView::Poker { hand, holds, .. } => {
            let i = if row == 0 {
                place
            } else {
                0
            };
            poker_buttons_mean_the_moves(hand, holds, i);
        },
        _ => {},
    }
}

/// The slot machine takes the bet once, counts one game, and gives back ten times the
/// bet, three times the bet or nothing.
pub proof fn spin_books(books: Books, bet: i32, value: u8, biggest_win: i32)
    requires
        within_limits(bet as int),
    ensures
        ({
            let after = after_all(
                after_all(books, spin_opened(bet)),
                spin_settled(bet, value, biggest_win),
            );
            let times: int = if value == 64 {
                10
            } else if value == 1 || value == 22 || value == 43 {
                3
            } else {
                0
            };
            &&& after.tokens == books.tokens - bet + bet * times
            &&& after.games_played == books.games_played + 1
            &&& after.debt == books.debt
            &&& after.casino == books.casino
        }),
{
    broadcast use {lemma_after_all_push, lemma_after_all_concat};

    reveal_with_fuel(after_all, 5);
    lemma_slots_winnings(bet, value);
}

/// A coin flip wins the bet or loses it, and counts one game.
pub proof fn flip_books(books: Books, heads: bool, side: Side, bet: i32, biggest_win: i32)
    requires
        flip_won(heads, side) ==> i32::MIN <= bet * 2 <= i32::MAX,
    ensures
        ({
            let after = after_all(books, flip_settled(heads, side, bet, biggest_win));
            &&& after.tokens == if flip_won(heads, side) {
                books.tokens + bet
            } else {
                books.tokens - bet
            }
            &&& after.games_played == books.games_played + 1
            &&& after.debt == books.debt
            &&& after.casino == books.casino
        }),
{
    broadcast use {lemma_after_all_push, lemma_after_all_concat};

    reveal_with_fuel(after_all, 5);
}

/// A choice of sides is fair: of the two sides of the coin, each wins against exactly
/// one outcome.
pub proof fn flip_is_even(side: Side)
    requires
        side !is Neither,
    ensures
        flip_won(true, side) <==> !flip_won(false, side),
{
}

/// A roll of the dice wins four times the bet or loses it, and counts one game.
pub proof fn dice_books(books: Books, value: i32, guess: i32, bet: i32, biggest_win: i32)
    requires
        value == guess ==> i32::MIN <= bet * 5 <= i32::MAX,
    ensures
        ({
            let after = after_all(
                after_all(books, dice_opened(bet)),
                dice_settled(value, guess, bet, biggest_win),
            );
            &&& after.tokens == if value == guess {
                books.tokens + bet * 4
            } else {
                books.tokens - bet
            }
            &&& after.games_played == books.games_played + 1
            &&& after.debt == books.debt
            &&& after.casino == books.casino
        }),
{
    broadcast use {lemma_after_all_push, lemma_after_all_concat};

    reveal_with_fuel(after_all, 5);
}

/// Opening a game of blackjack takes the bet, counts one game, and keeps it; the game
/// can be played on.
pub proof fn blackjack_opening_books(books: Books, bet: i32, deck: Seq<CardView>)
    requires
        is_full_deck(deck),
        within_limits(bet as int),
    ensures
        after_all(books, blackjack_opened(bet, deck)) == (Books {
            tokens: books.tokens - bet,
            games_played: books.games_played + 1,
            blackjack: Some(blackjack::opening(bet, deck)),
            ..books
        }),
        blackjack::in_play(blackjack::opening(bet, deck)),
{
    reveal_with_fuel(after_all, 5);
    blackjack::opening_is_in_play(bet, deck);
}

/// A hit costs nothing: it is kept while the player is at twenty-one or below, and
/// ends the game without a payment above.
pub proof fn hit_books(books: Books, game: BlackjackView)
    ensures
        after_all(books, hit_done(game)) == (Books {
            blackjack: if score_of(after_hit(game).player) > 21 {
                None
            } else {
                Some(after_hit(game))
            },
            ..books
        }),
{
    reveal_with_fuel(after_all, 5);
}

/// A stand ends the game and pays it once: twice the bet for a win, the bet for a
/// push, nothing for a loss. Any further press changes nothing.
pub proof fn stand_books(
    books: Books,
    game: BlackjackView,
    biggest_win: i32,
    choice: BlackjackMove,
)
    requires
        can_stand(game),
    ensures
        ({
            let after = after_all(books, stand_done(game, biggest_win));
            &&& after.tokens == books.tokens + match final_outcome(game) {
                Outcome::Won => game.bet * 2,
                Outcome::Pushed => game.bet as int,
                Outcome::Lost => 0,
            }
            &&& after.blackjack is None
            &&& after.games_played == books.games_played
            &&& after.debt == books.debt
            &&& after.casino == books.casino
            &&& after_all(
                after,
                blackjack_turn(choice, after.blackjack, biggest_win).actions,
            ) == after
        }),
{
    broadcast use {lemma_after_all_push, lemma_after_all_concat};

    reveal_with_fuel(after_all, 5);
}

/// Opening a game of poker takes the bet, counts one game, and keeps it; the game can
/// be played on.
pub proof fn poker_opening_books(books: Books, bet: i32, deck: Seq<CardView>)
    requires
        is_full_deck(deck),
        within_limits(bet as int),
    ensures
        after_all(books, poker_opened(bet, deck)) == (Books {
            tokens: books.tokens - bet,
            games_played: books.games_played + 1,
            poker: Some(poker::opening(bet, deck)),
            ..books
        }),
        poker::in_play(poker::opening(bet, deck)),
{
    reveal_with_fuel(after_all, 5);
    poker::opening_is_in_play(bet, deck);
}

/// Holding a card costs nothing, and doing it twice leaves the game as it was.
pub proof fn hold_books(books: Books, game: PokerView, i: int)
    ensures
        after_all(books, hold_done(game, i)) == (Books {
            poker: Some(after_toggle(game, i)),
            ..books
        }),
        after_all(books, hold_done(after_toggle(game, i), i)) == (Books {
            poker: Some(game),
            ..books
        }),
{
    reveal_with_fuel(after_all, 5);
    toggle_keeps_in_play(game, i);
}

/// The draw ends the game and pays what the new hand is worth, once. Any further
/// press changes nothing.
pub proof fn draw_books(books: Books, game: PokerView, biggest_win: i32, choice: PokerMove)
    requires
        can_finish(game),
    ensures
        ({
            let after = after_all(books, draw_done(game, biggest_win));
            &&& after.tokens == books.tokens + draw_winnings(game)
            &&& after.poker is None
            &&& after.games_played == books.games_played
            &&& after.debt == books.debt
            &&& after.casino == books.casino
            &&& after_all(after, poker_turn(choice, after.poker, biggest_win).actions) == after
        }),
{
    broadcast use {lemma_after_all_push, lemma_after_all_concat};

    reveal_with_fuel(after_all, 5);
}

/// A change of language is booked, and confirmed in the new language.
pub proof fn language_change_is_confirmed_in_it(
    books: Books,
    lang: Lang,
    player: PlayerView,
)
    ensures
        ({
            let turn = loaded_turn(Command::ChangeLang(lang), player);
            &&& after_all(books, turn.actions) == (Books { lang: lang_code(lang), ..books })
            &&& turn.actions.last() matches ActionView::Send(reply) && reply_lang(
                reply,
                player.lang,
            ) == lang_code(lang)
        }),
{
    reveal_with_fuel(after_all, 5);
}

} // verus!
