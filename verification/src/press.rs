//! The press of a button and what comes of it.

use vstd::prelude::*;

use crate::bets::{text_of, BetError};
use crate::blackjack::{can_hit, can_stand, may_hit, may_stand, BlackjackGame, BlackjackView};
use crate::chance::coin_is_heads;
use crate::events::{answers, known_or_default, Event, EventView, PlayerStats};
use crate::games::{
    can_finish, dice_opened, dice_settled, draw_done, finish_poker, flip_settled, flip_won, hit,
    hit_done, hold, hold_done, may_finish, open_dice, settle_dice, settle_flip, stand, stand_done,
};
use crate::ledger::{deeds, edited, nothing, only, then_do, Action, ActionView, Query};
use crate::payload::{press_of, read_press, BlackjackMove, PokerMove, Press, Side};
use crate::poker::{PokerGame, PokerView};
use crate::reply::{Notice, Reply};

verus! {

/// How far the answer to a press is.
#[derive(Clone, Copy, Debug, PartialEq, Eq, Structural)]
pub enum PressStage {
    /// The player's account is being read.
    Loading { press: Press },
    /// The game of blackjack is being read.
    AtBlackjack { choice: BlackjackMove, biggest_win: i32 },
    /// The game of poker is being read.
    AtPoker { choice: PokerMove, biggest_win: i32 },
    /// The balance is being read, for a coin flip.
    Flipping { side: Side, bet: i32, biggest_win: i32 },
    /// The balance is being read, for a roll of the dice.
    Staking { guess: i32, bet: i32, biggest_win: i32 },
    /// The dice are rolling.
    Rolling { guess: i32, bet: i32, biggest_win: i32 },
    /// Nothing is left to do.
    Done,
}

/// The answer to a press in the making.
#[derive(Debug, PartialEq, Eq)]
pub struct Pressing {
    pub user_id: i64,
    /// The language of the replies, once the account has been read.
    pub lang: String,
    pub stage: PressStage,
}

/// The answer to a press in the making, as a mathematical value.
#[verifier::ext_equal]
pub struct PressingView {
    pub user_id: i64,
    pub lang: Seq<char>,
    pub stage: PressStage,
}

impl View for Pressing {
    type V = PressingView;

    open spec fn view(&self) -> PressingView {
        PressingView { user_id: self.user_id, lang: self.lang@, stage: self.stage }
    }
}

/// A step: the stage after it, and what the bot does in it.
#[verifier::ext_equal]
pub struct PressTurn {
    pub stage: PressStage,
    pub actions: Seq<ActionView>,
}

/// The last step. At its end the press is confirmed, whether or not that succeeds.
pub open spec fn closes(actions: Seq<ActionView>) -> PressTurn {
    PressTurn {
        stage: PressStage::Done,
        actions: actions.push(ActionView::Acknowledge { must_succeed: false }),
    }
}

/// A step that ends with a question.
pub open spec fn inquires(stage: PressStage, query: Query) -> PressTurn {
    PressTurn { stage, actions: seq![ActionView::Ask(query)] }
}

/// The first step: the account is read. The press of a button whose message is gone
/// is only confirmed.
pub open spec fn first_press(data: Option<Seq<char>>, has_message: bool) -> PressTurn {
    if has_message {
        inquires(
            PressStage::Loading {
                press: press_of(
                    match data {
                        Some(d) => d,
                        None => Seq::empty(),
                    },
                ),
            },
            Query::Stats,
        )
    } else {
        PressTurn {
            stage: PressStage::Done,
            actions: seq![ActionView::Acknowledge { must_succeed: true }],
        }
    }
}

/// The step once the account has been read. A bet that was offered to another player
/// is refused.
pub open spec fn pressed_turn(user_id: i64, press: Press, biggest_win: i32) -> PressTurn {
    match press {
        Press::Blackjack(choice) => inquires(
            PressStage::AtBlackjack { choice, biggest_win },
            Query::Blackjack,
        ),
        Press::Poker(choice) => inquires(
            PressStage::AtPoker { choice, biggest_win },
            Query::Poker,
        ),
        Press::Flip(Some(offer)) => if offer.user == user_id {
            inquires(
                PressStage::Flipping { side: offer.side, bet: offer.bet, biggest_win },
                Query::Stats,
            )
        } else {
            closes(seq![ActionView::Alert(Notice::WrongUser)])
        },
        Press::Dice(Some(offer)) => if offer.user == user_id {
            inquires(
                PressStage::Staking { guess: offer.guess, bet: offer.bet, biggest_win },
                Query::Stats,
            )
        } else {
            closes(seq![ActionView::Alert(Notice::WrongUser)])
        },
        _ => closes(Seq::empty()),
    }
}

/// The step once the game of blackjack has been read; without a game nothing
/// happens.
pub open spec fn blackjack_turn(
    choice: BlackjackMove,
    game: Option<BlackjackView>,
    biggest_win: i32,
) -> PressTurn {
    match (choice, game) {
        (BlackjackMove::Hit, Some(game)) => closes(hit_done(game)),
        (BlackjackMove::Stand, Some(game)) => closes(stand_done(game, biggest_win)),
        _ => closes(Seq::empty()),
    }
}

/// The step once the game of poker has been read; without a game nothing happens.
pub open spec fn poker_turn(
    choice: PokerMove,
    game: Option<PokerView>,
    biggest_win: i32,
) -> PressTurn {
    match (choice, game) {
        (PokerMove::Hold(i), Some(game)) => closes(hold_done(game, i as int)),
        (PokerMove::Draw, Some(game)) => closes(draw_done(game, biggest_win)),
        _ => closes(Seq::empty()),
    }
}

/// The step once the balance is known, for a coin flip.
pub open spec fn flip_turn(
    side: Side,
    bet: i32,
    biggest_win: i32,
    tokens: i32,
    heads: bool,
) -> PressTurn {
    if bet > tokens {
        closes(seq![edited(Notice::BetRefused(BetError::Invalid))])
    } else {
        closes(flip_settled(heads, side, bet, biggest_win))
    }
}

/// The step once the balance is known, for a roll of the dice.
pub open spec fn stake_turn(guess: i32, bet: i32, biggest_win: i32, tokens: i32) -> PressTurn {
    if bet > tokens {
        closes(seq![edited(Notice::BetRefused(BetError::Invalid))])
    } else {
        PressTurn {
            stage: PressStage::Rolling { guess, bet, biggest_win },
            actions: dice_opened(bet),
        }
    }
}

/// What the dice show; zero where that is not known.
pub open spec fn face_of(value: Option<u8>) -> i32 {
    match value {
        Some(v) => v as i32,
        None => 0,
    }
}

/// The step at a stage once an answer is there, for the side that the coin would
/// show. An answer that the stage does not wait for ends the matter.
pub open spec fn next_press(
    user_id: i64,
    stage: PressStage,
    event: EventView,
    heads: bool,
) -> PressTurn {
    match (stage, event) {
        (PressStage::Loading { press }, EventView::Stats(stats)) => pressed_turn(
            user_id,
            press,
            known_or_default(stats).biggest_win,
        ),
        (
            PressStage::AtBlackjack { choice, biggest_win },
            EventView::Blackjack(game),
        ) => blackjack_turn(choice, game, biggest_win),
        (PressStage::AtPoker { choice, biggest_win }, EventView::Poker(game)) => poker_turn(
            choice,
            game,
            biggest_win,
        ),
        (PressStage::Flipping { side, bet, biggest_win }, EventView::Stats(stats)) => flip_turn(
            side,
            bet,
            biggest_win,
            known_or_default(stats).tokens,
            heads,
        ),
        (PressStage::Staking { guess, bet, biggest_win }, EventView::Stats(stats)) => stake_turn(
            guess,
            bet,
            biggest_win,
            known_or_default(stats).tokens,
        ),
        (PressStage::Rolling { guess, bet, biggest_win }, EventView::Rolled(value)) => closes(
            dice_settled(face_of(value), guess, bet, biggest_win),
        ),
        _ => PressTurn { stage: PressStage::Done, actions: Seq::empty() },
    }
}

/// The language after an answer: it becomes known with the account.
pub open spec fn press_lang(lang: Seq<char>, stage: PressStage, event: EventView) -> Seq<char> {
    match (stage, event) {
        (PressStage::Loading { .. }, EventView::Stats(stats)) => known_or_default(stats).lang,
        _ => lang,
    }
}

/// The answers that a stage can go on with, for the side that the coin would show:
/// the game that was read allows the move, and winnings fit an `i32`.
pub open spec fn playable(stage: PressStage, event: EventView, heads: bool) -> bool {
    match (stage, event) {
        (
            PressStage::AtBlackjack { choice: BlackjackMove::Hit, .. },
            EventView::Blackjack(Some(game)),
        ) => can_hit(game),
        (
            PressStage::AtBlackjack { choice: BlackjackMove::Stand, .. },
            EventView::Blackjack(Some(game)),
        ) => can_stand(game),
        (
            PressStage::AtPoker { choice: PokerMove::Draw, .. },
            EventView::Poker(Some(game)),
        ) => can_finish(game),
        (PressStage::Flipping { side, bet, .. }, EventView::Stats(stats)) => {
            bet <= known_or_default(stats).tokens && flip_won(heads, side) ==> i32::MIN <= bet * 2
                <= i32::MAX
        },
        (PressStage::Rolling { guess, bet, .. }, EventView::Rolled(value)) => {
            face_of(value) == guess ==> i32::MIN <= bet * 5 <= i32::MAX
        },
        _ => true,
    }
}

/// The question that a stage waits for an answer to.
pub open spec fn waits_for(stage: PressStage) -> Option<Query> {
    match stage {
        PressStage::Loading { .. } => Some(Query::Stats),
        PressStage::AtBlackjack { .. } => Some(Query::Blackjack),
        PressStage::AtPoker { .. } => Some(Query::Poker),
        PressStage::Flipping { .. } => Some(Query::Stats),
        PressStage::Staking { .. } => Some(Query::Stats),
        PressStage::Rolling { .. } => Some(Query::Dice),
        PressStage::Done => None,
    }
}

/// How many answers can still be waited for.
pub open spec fn waits_left(stage: PressStage) -> nat {
    match stage {
        PressStage::Loading { .. } => 3,
        PressStage::Staking { .. } => 2,
        PressStage::Done => 0,
        _ => 1,
    }
}

/// Whatever the answers, a press comes to an end, and then it has been confirmed:
/// every step leaves fewer answers to wait for, its last action is a question exactly
/// when the stage after it waits for the answer, and otherwise the confirmation.
pub proof fn press_ends(user_id: i64, stage: PressStage, event: EventView, heads: bool)
    requires
        waits_for(stage) is Some,
        answers(waits_for(stage)->0, event),
    ensures
        ({
            let turn = next_press(user_id, stage, event, heads);
            &&& waits_left(turn.stage) < waits_left(stage)
            &&& turn.actions.len() > 0
            &&& turn.actions.last() == match waits_for(turn.stage) {
                Some(query) => ActionView::Ask(query),
                None => ActionView::Acknowledge { must_succeed: false },
            }
        }),
{
}

fn close(actions: Vec<Action>) -> (all: Vec<Action>)
    ensures
        deeds(all@) == closes(deeds(actions@)).actions,
{
    let mut all = actions;
    then_do(&mut all, Action::Acknowledge { must_succeed: false });
    all
}

/// Goes on once the account has been read.
pub fn answer_press(user_id: i64, press: Press, biggest_win: i32) -> (turn: (
    PressStage,
    Vec<Action>,
))
    ensures
        turn.0 == pressed_turn(user_id, press, biggest_win).stage,
        deeds(turn.1@) == pressed_turn(user_id, press, biggest_win).actions,
{
    match press {
        Press::Blackjack(choice) => (
            PressStage::AtBlackjack { choice, biggest_win },
            only(Action::Ask(Query::Blackjack)),
        ),
        Press::Poker(choice) => (
            PressStage::AtPoker { choice, biggest_win },
            only(Action::Ask(Query::Poker)),
        ),
        Press::Flip(Some(offer)) => {
            if user_id != offer.user {
                (PressStage::Done, close(only(Action::Alert(Notice::WrongUser))))
            } else {
                (
                    PressStage::Flipping { side: offer.side, bet: offer.bet, biggest_win },
                    only(Action::Ask(Query::Stats)),
                )
            }
        },
        Press::Dice(Some(offer)) => {
            if user_id != offer.user {
                (PressStage::Done, close(only(Action::Alert(Notice::WrongUser))))
            } else {
                (
                    PressStage::Staking { guess: offer.guess, bet: offer.bet, biggest_win },
                    only(Action::Ask(Query::Stats)),
                )
            }
        },
        _ => (PressStage::Done, close(nothing())),
    }
}

/// Makes a move in blackjack.
pub fn handle_blackjack(
    choice: BlackjackMove,
    game: Option<BlackjackGame>,
    biggest_win: i32,
) -> (actions: Vec<Action>)
    requires
        game is Some && choice is Hit ==> can_hit(game->0@),
        game is Some && choice is Stand ==> can_stand(game->0@),
    ensures
        deeds(actions@) == blackjack_turn(
            choice,
            match game {
                Some(g) => Some(g@),
                None => None,
            },
            biggest_win,
        ).actions,
{
    match game {
        Some(game) => match choice {
            BlackjackMove::Hit => close(hit(game)),
            BlackjackMove::Stand => close(stand(game, biggest_win)),
            BlackjackMove::Nothing => close(nothing()),
        },
        None => close(nothing()),
    }
}

/// Makes a move in poker.
pub fn handle_poker(choice: PokerMove, game: Option<PokerGame>, biggest_win: i32) -> (actions: Vec<
    Action,
>)
    requires
        game is Some && choice is Draw ==> can_finish(game->0@),
    ensures
        deeds(actions@) == poker_turn(
            choice,
            match game {
                Some(g) => Some(g@),
                None => None,
            },
            biggest_win,
        ).actions,
{
    match game {
        Some(game) => match choice {
            PokerMove::Hold(i) => close(hold(game, i)),
            PokerMove::Draw => close(finish_poker(game, biggest_win)),
            PokerMove::Nothing => close(nothing()),
        },
        None => close(nothing()),
    }
}

/// Plays a coin flip whose outcome is known.
pub fn handle_flip(side: Side, bet: i32, biggest_win: i32, tokens: i32, heads: bool) -> (actions:
    Vec<Action>)
    requires
        bet <= tokens && flip_won(heads, side) ==> i32::MIN <= bet * 2 <= i32::MAX,
    ensures
        deeds(actions@) == flip_turn(side, bet, biggest_win, tokens, heads).actions,
{
    if bet > tokens {
        close(only(Action::Edit(Reply::Notice(Notice::BetRefused(BetError::Invalid)))))
    } else {
        close(settle_flip(heads, side, bet, biggest_win))
    }
}

/// Stakes a bet on a roll of the dice.
pub fn handle_dice(guess: i32, bet: i32, biggest_win: i32, tokens: i32) -> (turn: (
    PressStage,
    Vec<Action>,
))
    ensures
        turn.0 == stake_turn(guess, bet, biggest_win, tokens).stage,
        deeds(turn.1@) == stake_turn(guess, bet, biggest_win, tokens).actions,
{
    if bet > tokens {
        (
            PressStage::Done,
            close(only(Action::Edit(Reply::Notice(Notice::BetRefused(BetError::Invalid))))),
        )
    } else {
        (PressStage::Rolling { guess, bet, biggest_win }, open_dice(bet))
    }
}

fn tokens_or_zero(stats: &Option<PlayerStats>) -> (tokens: i32)
    ensures
        tokens == known_or_default(Event::Stats(*stats)@->Stats_0).tokens,
{
    match stats {
        Some(p) => p.tokens,
        None => 0,
    }
}

fn face(value: Option<u8>) -> (n: i32)
    ensures
        n == face_of(value),
{
    match value {
        Some(v) => v as i32,
        None => 0,
    }
}

impl Pressing {
    /// Takes up the press of a button.
    pub fn start(user_id: i64, data: Option<String>, has_message: bool) -> (begun: (
        Pressing,
        Vec<Action>,
    ))
        ensures
            begun.0@.user_id == user_id,
            begun.0@.lang == Seq::<char>::empty(),
            begun.0@.stage == first_press(text_of(data), has_message).stage,
            deeds(begun.1@) == first_press(text_of(data), has_message).actions,
    {
        if has_message {
            let data = match data {
                Some(d) => d,
                None => String::new(),
            };
            (
                Pressing {
                    user_id,
                    lang: String::new(),
                    stage: PressStage::Loading { press: read_press(data.as_str()) },
                },
                only(Action::Ask(Query::Stats)),
            )
        } else {
            (
                Pressing { user_id, lang: String::new(), stage: PressStage::Done },
                only(Action::Acknowledge { must_succeed: true }),
            )
        }
    }

    /// Whether the matter can go on with an answer, whichever side the coin shows.
    pub fn accepts(&self, event: &Event) -> (yes: bool)
        ensures
            yes == (playable(self.stage, event@, true) && playable(self.stage, event@, false)),
    {
        match self.stage {
            PressStage::AtBlackjack { choice, .. } => match event {
                Event::Blackjack(Some(game)) => match choice {
                    BlackjackMove::Hit => may_hit(game),
                    BlackjackMove::Stand => may_stand(game),
                    BlackjackMove::Nothing => true,
                },
                _ => true,
            },
            PressStage::AtPoker { choice: PokerMove::Draw, .. } => match event {
                Event::Poker(Some(game)) => may_finish(game),
                _ => true,
            },
            PressStage::Flipping { side, bet, .. } => match event {
                Event::Stats(stats) => bet > tokens_or_zero(stats) || side == Side::Neither || (
                -1_073_741_824 <= bet && bet <= 1_073_741_823),
                _ => true,
            },
            PressStage::Rolling { guess, bet, .. } => match event {
                Event::Rolled(value) => face(*value) != guess || (-429_496_729 <= bet && bet
                    <= 429_496_729),
                _ => true,
            },
            _ => true,
        }
    }

    /// Goes on with an answer, for the side that the coin shows.
    pub fn resume_with(&mut self, event: Event, heads: bool) -> (actions: Vec<Action>)
        requires
            playable(old(self).stage, event@, heads),
        ensures
            final(self)@.user_id == old(self)@.user_id,
            final(self)@.lang == press_lang(old(self)@.lang, old(self)@.stage, event@),
            final(self)@.stage == next_press(
                old(self)@.user_id,
                old(self)@.stage,
                event@,
                heads,
            ).stage,
            deeds(actions@) == next_press(
                old(self)@.user_id,
                old(self)@.stage,
                event@,
                heads,
            ).actions,
    {
        let turn: (PressStage, Vec<Action>) = match self.stage {
            PressStage::Loading { press } => match event {
                Event::Stats(stats) => {
                    let player = match stats {
                        Some(p) => p,
                        None => PlayerStats::default(),
                    };
                    let biggest_win: i32 = player.biggest_win;
                    self.lang = player.lang;
                    answer_press(self.user_id, press, biggest_win)
                },
                _ => (PressStage::Done, nothing()),
            },
            PressStage::AtBlackjack { choice, biggest_win } => match event {
                Event::Blackjack(game) => (
                    PressStage::Done,
                    handle_blackjack(choice, game, biggest_win),
                ),
                _ => (PressStage::Done, nothing()),
            },
            PressStage::AtPoker { choice, biggest_win } => match event {
                Event::Poker(game) => (PressStage::Done, handle_poker(choice, game, biggest_win)),
                _ => (PressStage::Done, nothing()),
            },
            PressStage::Flipping { side, bet, biggest_win } => match event {
                Event::Stats(stats) => {
                    let tokens: i32 = tokens_or_zero(&stats);
                    (PressStage::Done, handle_flip(side, bet, biggest_win, tokens, heads))
                },
                _ => (PressStage::Done, nothing()),
            },
            PressStage::Staking { guess, bet, biggest_win } => match event {
                Event::Stats(stats) => {
                    let tokens: i32 = tokens_or_zero(&stats);
                    handle_dice(guess, bet, biggest_win, tokens)
                },
                _ => (PressStage::Done, nothing()),
            },
            PressStage::Rolling { guess, bet, biggest_win } => match event {
                Event::Rolled(value) => (
                    PressStage::Done,
                    close(settle_dice(face(value), guess, bet, biggest_win)),
                ),
                _ => (PressStage::Done, nothing()),
            },
            PressStage::Done => (PressStage::Done, nothing()),
        };
        self.stage = turn.0;
        turn.1
    }

    /// Goes on with an answer. Where it comes to that, a coin is flipped; whichever
    /// side it shows, the step is the one that this side calls for.
    pub fn resume(&mut self, event: Event) -> (actions: Vec<Action>)
        requires
            playable(old(self).stage, event@, true),
            playable(old(self).stage, event@, false),
        ensures
            final(self)@.user_id == old(self)@.user_id,
            final(self)@.lang == press_lang(old(self)@.lang, old(self)@.stage, event@),
            exists|heads: bool| #[trigger]
                next_press(old(self)@.user_id, old(self)@.stage, event@, heads) == (PressTurn {
                    stage: final(self)@.stage,
                    actions: deeds(actions@),
                }),
    {
        let ghost user_id = self.user_id;
        let ghost stage = self.stage;
        let ghost heard = event@;
        let heads: bool = match self.stage {
            PressStage::Flipping { .. } => coin_is_heads(),
            _ => false,
        };
        let actions = self.resume_with(event, heads);
        proof {
            assert(next_press(user_id, stage, heard, heads) =~= (PressTurn {
                stage: self@.stage,
                actions: deeds(actions@),
            }));
        }
        actions
    }
}

} // verus!
