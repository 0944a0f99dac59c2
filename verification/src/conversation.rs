//! A message from a player and what comes of it.

use vstd::prelude::*;

use crate::bets::{
    ask_bet, asked, cover_bet, covered, text_of, within_limits, BetError, MAX_BET, MIN_BET,
};
use crate::blackjack;
use crate::cards::{
    cards, full_deck_has_each_card_once, is_full_deck, new_deck, standard_deck, Card, CardView,
};
use crate::clock::{
    daily, daily_answer, must_wait, on_cooldown, DailyAnswer, Timestamp, DAILY_REWARD,
};
use crate::events::{
    command_of, known_or_default, or_zero, read_command, Command, Event, EventView, Game,
    PlayerStats, PlayerView,
};
use crate::games::{
    blackjack_opened, open_blackjack, open_poker, open_spin, poker_opened, settle_spin,
    spin_opened, spin_settled,
};
use crate::ledger::{
    booked, deeds, nothing, only, sent, then_do, Action, ActionView, LedgerOp, Query,
};
use crate::reply::{Notice, Reply, ReplyView};

verus! {

/// What the faucet lends.
pub const LOAN: i32 = 500;

/// The faucet lends to players with fewer tokens than this.
pub const POOR: i32 = 50;

/// Who sent a message.
#[derive(Debug, PartialEq, Eq)]
pub struct Sender {
    pub user_id: i64,
    pub username: Option<String>,
}

/// How far the answer to a message is: what the bot waits for, and what it needs to
/// go on.
#[derive(Clone, Copy, Debug, PartialEq, Eq, Structural)]
pub enum Stage {
    /// The account is being made sure of; a message without text has no command.
    Ensuring { command: Option<Command> },
    /// The player's account is being read.
    Loading { command: Command },
    /// The clock is being read, for the daily reward.
    Claiming { last_daily: Option<Timestamp> },
    /// The richest players are being read.
    Ranking,
    /// The casino's tokens are being read, for a loan.
    Borrowing { tokens: i32 },
    /// The totals are being read.
    Summing,
    /// The moment of the last game is being read.
    Pausing { game: Game, given: Option<i32>, default_bet: i32, biggest_win: i32 },
    /// The balance is being read, for a bet.
    Betting { game: Game, bet: i32, biggest_win: i32 },
    /// The slot machine is turning.
    Spinning { bet: i32, biggest_win: i32 },
    /// Nothing is left to do.
    Done,
}

impl Stage {
    /// Bets that are being played lie within the limits, and remembered moments are
    /// valid.
    pub open spec fn wf(self) -> bool {
        match self {
            Stage::Claiming { last_daily } => last_daily is Some ==> last_daily->0.wf(),
            Stage::Betting { bet, .. } => within_limits(bet as int),
            Stage::Spinning { bet, .. } => within_limits(bet as int),
            _ => true,
        }
    }
}

/// The answer to a message in the making.
#[derive(Debug, PartialEq, Eq)]
pub struct Conversation {
    pub user_id: i64,
    /// The language of the replies, once the account has been read.
    pub lang: String,
    pub stage: Stage,
}

/// The answer to a message in the making, as a mathematical value.
#[verifier::ext_equal]
pub struct ConversationView {
    pub user_id: i64,
    pub lang: Seq<char>,
    pub stage: Stage,
}

impl View for Conversation {
    type V = ConversationView;

    open spec fn view(&self) -> ConversationView {
        ConversationView { user_id: self.user_id, lang: self.lang@, stage: self.stage }
    }
}

/// A step: the stage after it, and what the bot does in it.
#[verifier::ext_equal]
pub struct Turn {
    pub stage: Stage,
    pub actions: Seq<ActionView>,
}

/// The last step.
pub open spec fn ends(actions: Seq<ActionView>) -> Turn {
    Turn { stage: Stage::Done, actions }
}

/// A step that ends with a question.
pub open spec fn asks(stage: Stage, query: Query) -> Turn {
    Turn { stage, actions: seq![ActionView::Ask(query)] }
}

/// The first step: the sender's account is made sure of, under the sender's name or
/// as "Anonymous". A message without a sender is ignored.
pub open spec fn first_turn(sender: Option<Sender>, text: Option<Seq<char>>) -> Turn {
    match sender {
        Some(s) => Turn {
            stage: Stage::Ensuring {
                command: match text {
                    Some(t) => Some(command_of(t)),
                    None => None,
                },
            },
            actions: seq![
                ActionView::EnsureUser {
                    user_id: s.user_id,
                    username: match s.username {
                        Some(name) => name@,
                        None => "Anonymous"@,
                    },
                },
            ],
        },
        None => ends(Seq::empty()),
    }
}

/// The step once the player's account has been read.
pub open spec fn loaded_turn(command: Command, player: PlayerView) -> Turn {
    match command {
        Command::Balance => ends(
            seq![sent(Notice::Welcome { tokens: player.tokens, debt: player.debt })],
        ),
        Command::Help => ends(seq![sent(Notice::Help)]),
        Command::ChangeLang(lang) => ends(
            seq![booked(LedgerOp::SetLang(lang)), sent(Notice::LangSet(lang))],
        ),
        Command::SetBet(None) => ends(seq![sent(Notice::SetBetUsage)]),
        Command::SetBet(Some(bet)) => if within_limits(bet as int) {
            ends(
                seq![
                    booked(LedgerOp::SetDefaultBet(bet)),
                    sent(Notice::SetBetSuccess { bet }),
                ],
            )
        } else {
            ends(seq![sent(Notice::BetRefused(BetError::OutOfBounds))])
        },
        Command::Daily => asks(
            Stage::Claiming { last_daily: player.last_daily },
            Query::Clock,
        ),
        Command::Top => asks(Stage::Ranking, Query::Top),
        Command::Faucet => asks(Stage::Borrowing { tokens: player.tokens }, Query::Casino),
        Command::NetWorth => asks(Stage::Summing, Query::Totals),
        Command::Play { game, given } => asks(
            Stage::Pausing {
                game,
                given,
                default_bet: player.default_bet,
                biggest_win: player.biggest_win,
            },
            Query::LastAction,
        ),
        Command::PayLoan(amount) => if amount <= 0 || amount > player.tokens {
            ends(seq![sent(Notice::LoanRefused)])
        } else {
            ends(
                seq![
                    booked(LedgerOp::Repay(amount)),
                    booked(LedgerOp::CasinoReceives(amount)),
                    sent(Notice::LoanRepaid { amount }),
                ],
            )
        },
        Command::Unknown => ends(Seq::empty()),
    }
}

/// The step once the time is known, for the daily reward.
pub open spec fn claim_turn(now: Timestamp, last_daily: Option<Timestamp>) -> Turn {
    match daily_answer(now, last_daily) {
        DailyAnswer::Claim => ends(
            seq![
                booked(LedgerOp::ClaimDaily { reward: DAILY_REWARD, at: now }),
                sent(Notice::DailySuccess),
            ],
        ),
        DailyAnswer::Wait { hours, mins } => ends(seq![sent(Notice::DailyWait { hours, mins })]),
    }
}

/// The step once the casino's tokens are known, for a loan: a poor player gets one
/// from a casino that has the tokens.
pub open spec fn loan_turn(tokens: i32, casino: i32) -> Turn {
    if tokens < POOR && casino >= LOAN {
        ends(
            seq![
                booked(LedgerOp::Borrow(LOAN)),
                booked(LedgerOp::CasinoPays(LOAN)),
                sent(Notice::FaucetGranted),
            ],
        )
    } else {
        ends(seq![sent(Notice::FaucetRefused)])
    }
}

/// The step once the totals are known.
pub open spec fn totals_turn(tokens: i64, debt: i64) -> Turn {
    ends(seq![sent(Notice::NetWorth { tokens, debt, net: (debt - tokens) as i64 })])
}

/// The step once the moment of the last game is known: too early a game is refused;
/// otherwise the moment is noted, and only then is the bet looked at.
pub open spec fn pause_turn(
    game: Game,
    given: Option<i32>,
    default_bet: i32,
    biggest_win: i32,
    now: Timestamp,
    last: Option<Timestamp>,
) -> Turn {
    if on_cooldown(now, last) {
        ends(seq![sent(Notice::Cooldown)])
    } else {
        match asked(given, default_bet) {
            Ok(bet) => Turn {
                stage: Stage::Betting { game, bet, biggest_win },
                actions: seq![booked(LedgerOp::Touch(now)), ActionView::Ask(Query::Stats)],
            },
            Err(error) => ends(
                seq![booked(LedgerOp::Touch(now)), sent(Notice::BetRefused(error))],
            ),
        }
    }
}

/// The step once the balance is known: a bet that it does not cover is refused,
/// otherwise the game is opened. Card games are dealt from the deck.
pub open spec fn bet_turn(
    user_id: i64,
    game: Game,
    bet: i32,
    biggest_win: i32,
    tokens: Option<i32>,
    deck: Seq<CardView>,
) -> Turn {
    match covered(bet, tokens) {
        Err(error) => ends(seq![sent(Notice::BetRefused(error))]),
        Ok(_) => match game {
            Game::Spin => Turn {
                stage: Stage::Spinning { bet, biggest_win },
                actions: spin_opened(bet),
            },
            Game::Flip => ends(seq![sent(Notice::FlipPrompt { bet, user: user_id })]),
            Game::Dice => ends(seq![sent(Notice::DicePrompt { bet, user: user_id })]),
            Game::Blackjack => ends(blackjack_opened(bet, deck)),
            Game::Poker => ends(poker_opened(bet, deck)),
        },
    }
}

/// The tokens of a player, where they are known.
pub open spec fn tokens_of(stats: Option<PlayerView>) -> Option<i32> {
    match stats {
        Some(p) => Some(p.tokens),
        None => None,
    }
}

/// The step at a stage once an answer is there. An answer that the stage does not
/// wait for ends the matter.
pub open spec fn next_turn(
    user_id: i64,
    stage: Stage,
    event: EventView,
    deck: Seq<CardView>,
) -> Turn {
    match (stage, event) {
        (Stage::Ensuring { command: Some(command) }, EventView::Ensured(true)) => asks(
            Stage::Loading { command },
            Query::Stats,
        ),
        (Stage::Loading { command }, EventView::Stats(stats)) => loaded_turn(
            command,
            known_or_default(stats),
        ),
        (Stage::Claiming { last_daily }, EventView::Clock(now)) => claim_turn(now, last_daily),
        (Stage::Ranking, EventView::Top(Some(rows))) => ends(
            seq![ActionView::Send(ReplyView::Leaderboard(rows))],
        ),
        (Stage::Borrowing { tokens }, EventView::Casino(casino)) => loan_turn(
            tokens,
            or_zero(casino),
        ),
        (Stage::Summing, EventView::Totals(totals)) => match totals {
            Some((tokens, debt)) => totals_turn(tokens, debt),
            None => totals_turn(0, 0),
        },
        (
            Stage::Pausing { game, given, default_bet, biggest_win },
            EventView::LastAction { now, last },
        ) => pause_turn(game, given, default_bet, biggest_win, now, last),
        (Stage::Betting { game, bet, biggest_win }, EventView::Stats(stats)) => bet_turn(
            user_id,
            game,
            bet,
            biggest_win,
            tokens_of(stats),
            deck,
        ),
        (Stage::Spinning { bet, biggest_win }, EventView::Rolled(value)) => ends(
            spin_settled(
                bet,
                match value {
                    Some(v) => v,
                    None => 0,
                },
                biggest_win,
            ),
        ),
        _ => ends(Seq::empty()),
    }
}

/// The language after an answer: it becomes known with the account.
pub open spec fn next_lang(lang: Seq<char>, stage: Stage, event: EventView) -> Seq<char> {
    match (stage, event) {
        (Stage::Loading { .. }, EventView::Stats(stats)) => known_or_default(stats).lang,
        _ => lang,
    }
}

/// The answers that a stage can go on with: moments are valid, and the net worth of
/// the casino fits an `i64`.
pub open spec fn admissible(stage: Stage, event: EventView) -> bool {
    match (stage, event) {
        (Stage::Loading { .. }, EventView::Stats(Some(p))) => p.last_daily is Some
            ==> p.last_daily->0.wf(),
        (Stage::Claiming { .. }, EventView::Clock(now)) => now.wf(),
        (Stage::Summing, EventView::Totals(Some((tokens, debt)))) => i64::MIN <= debt - tokens
            <= i64::MAX,
        (Stage::Pausing { .. }, EventView::LastAction { now, last }) => now.wf() && (last is Some
            ==> last->0.wf()),
        _ => true,
    }
}

/// The question that a stage waits for an answer to.
pub open spec fn awaits(stage: Stage) -> Option<Query> {
    match stage {
        Stage::Ensuring { .. } => None,
        Stage::Loading { .. } => Some(Query::Stats),
        Stage::Claiming { .. } => Some(Query::Clock),
        Stage::Ranking => Some(Query::Top),
        Stage::Borrowing { .. } => Some(Query::Casino),
        Stage::Summing => Some(Query::Totals),
        Stage::Pausing { .. } => Some(Query::LastAction),
        Stage::Betting { .. } => Some(Query::Stats),
        Stage::Spinning { .. } => Some(Query::Slots),
        Stage::Done => None,
    }
}

/// How many answers can still be waited for.
pub open spec fn answers_left(stage: Stage) -> nat {
    match stage {
        Stage::Ensuring { .. } => 5,
        Stage::Loading { .. } => 4,
        Stage::Pausing { .. } => 3,
        Stage::Betting { .. } => 2,
        Stage::Done => 0,
        _ => 1,
    }
}

/// Whatever the answers, a conversation comes to an end: every step leaves fewer
/// answers to wait for. A step asks at most one question, as its last action, and it
/// asks one exactly when the stage after it waits for the answer.
pub proof fn conversation_ends(user_id: i64, stage: Stage, event: EventView, deck: Seq<CardView>)
    ensures
        ({
            let turn = next_turn(user_id, stage, event, deck);
            let n = turn.actions.len() as int;
            &&& stage !is Done ==> answers_left(turn.stage) < answers_left(stage)
            &&& stage is Done ==> turn == ends(Seq::empty())
            &&& turn.stage !is Ensuring
            &&& forall|i: int|
                0 <= i < n && #[trigger] turn.actions[i] is Ask <==> i == n - 1 && turn.stage !is Done
            &&& turn.stage !is Done ==> turn.actions.last() == ActionView::Ask(
                awaits(turn.stage)->0,
            )
        }),
{
}

/// The only bets that a message can cost are within the limits and covered by the
/// balance that was just read.
pub proof fn only_covered_bets_are_charged(
    user_id: i64,
    stage: Stage,
    event: EventView,
    deck: Seq<CardView>,
    amount: i32,
)
    requires
        stage.wf(),
        next_turn(user_id, stage, event, deck).actions.contains(booked(LedgerOp::Charge(amount))),
    ensures
        within_limits(amount as int),
        stage matches Stage::Betting { bet, .. } && bet == amount,
        event matches EventView::Stats(Some(p)) && amount <= p.tokens,
{
    let actions = next_turn(user_id, stage, event, deck).actions;
    let charge = booked(LedgerOp::Charge(amount));
    let i = choose|i: int| 0 <= i < actions.len() && actions[i] == charge;
    assert(actions[i] == charge);
}

/// The stages at which cards can be dealt.
pub open spec fn deals_cards(stage: Stage) -> bool {
    match stage {
        Stage::Betting { game: Game::Blackjack, .. } => true,
        Stage::Betting { game: Game::Poker, .. } => true,
        _ => false,
    }
}

fn say(notice: Notice) -> (actions: Vec<Action>)
    ensures
        deeds(actions@) == seq![sent(notice)],
{
    only(Action::Send(Reply::Notice(notice)))
}

fn book_and_say(op: LedgerOp, notice: Notice) -> (actions: Vec<Action>)
    ensures
        deeds(actions@) == seq![booked(op), sent(notice)],
{
    let mut actions = only(Action::Ledger(op));
    then_do(&mut actions, Action::Send(Reply::Notice(notice)));
    proof {
        assert(deeds(actions@) =~= seq![booked(op), sent(notice)]);
    }
    actions
}

fn book_twice_and_say(first: LedgerOp, second: LedgerOp, notice: Notice) -> (actions: Vec<Action>)
    ensures
        deeds(actions@) == seq![booked(first), booked(second), sent(notice)],
{
    let mut actions = only(Action::Ledger(first));
    then_do(&mut actions, Action::Ledger(second));
    then_do(&mut actions, Action::Send(Reply::Notice(notice)));
    proof {
        assert(deeds(actions@) =~= seq![booked(first), booked(second), sent(notice)]);
    }
    actions
}

fn is_moment(t: Option<Timestamp>) -> (yes: bool)
    ensures
        yes == (t is Some ==> t->0.wf()),
{
    match t {
        Some(t) => t.is_valid(),
        None => true,
    }
}

/// Goes on once the account has been read.
pub fn answer_command(command: Command, player: &PlayerStats) -> (turn: (Stage, Vec<Action>))
    requires
        player.last_daily is Some ==> player.last_daily->0.wf(),
    ensures
        turn.0 == loaded_turn(command, player@).stage,
        deeds(turn.1@) == loaded_turn(command, player@).actions,
        turn.0.wf(),
{
    match command {
        Command::Balance => (
            Stage::Done,
            say(Notice::Welcome { tokens: player.tokens, debt: player.debt }),
        ),
        Command::Help => (Stage::Done, say(Notice::Help)),
        Command::ChangeLang(lang) => (
            Stage::Done,
            book_and_say(LedgerOp::SetLang(lang), Notice::LangSet(lang)),
        ),
        Command::SetBet(None) => (Stage::Done, say(Notice::SetBetUsage)),
        Command::SetBet(Some(bet)) => {
            if bet < MIN_BET || bet > MAX_BET {
                (Stage::Done, say(Notice::BetRefused(BetError::OutOfBounds)))
            } else {
                (
                    Stage::Done,
                    book_and_say(LedgerOp::SetDefaultBet(bet), Notice::SetBetSuccess { bet }),
                )
            }
        },
        Command::Daily => (
            Stage::Claiming { last_daily: player.last_daily },
            only(Action::Ask(Query::Clock)),
        ),
        Command::Top => (Stage::Ranking, only(Action::Ask(Query::Top))),
        Command::Faucet => (
            Stage::Borrowing { tokens: player.tokens },
            only(Action::Ask(Query::Casino)),
        ),
        Command::NetWorth => (Stage::Summing, only(Action::Ask(Query::Totals))),
        Command::Play { game, given } => (
            Stage::Pausing {
                game,
                given,
                default_bet: player.default_bet,
                biggest_win: player.biggest_win,
            },
            only(Action::Ask(Query::LastAction)),
        ),
        Command::PayLoan(amount) => {
            if amount <= 0 || amount > player.tokens {
                (Stage::Done, say(Notice::LoanRefused))
            } else {
                (
                    Stage::Done,
                    book_twice_and_say(
                        LedgerOp::Repay(amount),
                        LedgerOp::CasinoReceives(amount),
                        Notice::LoanRepaid { amount },
                    ),
                )
            }
        },
        Command::Unknown => (Stage::Done, nothing()),
    }
}

/// Goes on once the time is known, for the daily reward.
pub fn claim(now: Timestamp, last_daily: Option<Timestamp>) -> (turn: (Stage, Vec<Action>))
    requires
        now.wf(),
        last_daily is Some ==> last_daily->0.wf(),
    ensures
        turn.0 == claim_turn(now, last_daily).stage,
        deeds(turn.1@) == claim_turn(now, last_daily).actions,
        turn.0.wf(),
{
    match daily(now, last_daily) {
        DailyAnswer::Claim => (
            Stage::Done,
            book_and_say(
                LedgerOp::ClaimDaily { reward: DAILY_REWARD, at: now },
                Notice::DailySuccess,
            ),
        ),
        DailyAnswer::Wait { hours, mins } => (Stage::Done, say(Notice::DailyWait { hours, mins })),
    }
}

/// Goes on once the casino's tokens are known, for a loan.
pub fn lend(tokens: i32, casino: i32) -> (turn: (Stage, Vec<Action>))
    ensures
        turn.0 == loan_turn(tokens, casino).stage,
        deeds(turn.1@) == loan_turn(tokens, casino).actions,
        turn.0.wf(),
{
    if tokens < POOR && casino >= LOAN {
        (
            Stage::Done,
            book_twice_and_say(
                LedgerOp::Borrow(LOAN),
                LedgerOp::CasinoPays(LOAN),
                Notice::FaucetGranted,
            ),
        )
    } else {
        (Stage::Done, say(Notice::FaucetRefused))
    }
}

/// Goes on once the moment of the last game is known.
pub fn check_cooldown(
    game: Game,
    given: Option<i32>,
    default_bet: i32,
    biggest_win: i32,
    now: Timestamp,
    last: Option<Timestamp>,
) -> (turn: (Stage, Vec<Action>))
    requires
        now.wf(),
        last is Some ==> last->0.wf(),
    ensures
        turn.0 == pause_turn(game, given, default_bet, biggest_win, now, last).stage,
        deeds(turn.1@) == pause_turn(game, given, default_bet, biggest_win, now, last).actions,
        turn.0.wf(),
{
    if must_wait(now, last) {
        return (Stage::Done, say(Notice::Cooldown));
    }
    match ask_bet(given, default_bet) {
        Ok(bet) => {
            let mut actions = only(Action::Ledger(LedgerOp::Touch(now)));
            then_do(&mut actions, Action::Ask(Query::Stats));
            proof {
                assert(deeds(actions@) =~= seq![
                    booked(LedgerOp::Touch(now)),
                    ActionView::Ask(Query::Stats),
                ]);
            }
            (Stage::Betting { game, bet, biggest_win }, actions)
        },
        Err(error) => (
            Stage::Done,
            book_and_say(LedgerOp::Touch(now), Notice::BetRefused(error)),
        ),
    }
}

/// Opens a game once the balance is known, with a deck for the card games.
pub fn open_game(
    user_id: i64,
    game: Game,
    bet: i32,
    biggest_win: i32,
    tokens: Option<i32>,
    deck: Vec<Card>,
) -> (turn: (Stage, Vec<Action>))
    requires
        within_limits(bet as int),
        game is Blackjack || game is Poker ==> is_full_deck(cards(deck@)),
    ensures
        turn.0 == bet_turn(user_id, game, bet, biggest_win, tokens, cards(deck@)).stage,
        deeds(turn.1@) == bet_turn(user_id, game, bet, biggest_win, tokens, cards(deck@)).actions,
        turn.0.wf(),
{
    match cover_bet(bet, tokens) {
        Err(error) => (Stage::Done, say(Notice::BetRefused(error))),
        Ok(_) => match game {
            Game::Spin => (Stage::Spinning { bet, biggest_win }, open_spin(bet)),
            Game::Flip => (Stage::Done, say(Notice::FlipPrompt { bet, user: user_id })),
            Game::Dice => (Stage::Done, say(Notice::DicePrompt { bet, user: user_id })),
            Game::Blackjack => {
                proof {
                    full_deck_has_each_card_once(cards(deck@));
                    blackjack::opening_is_in_play(bet, cards(deck@));
                    blackjack::in_play_allows_both_moves(blackjack::opening(bet, cards(deck@)));
                }
                (Stage::Done, open_blackjack(bet, deck))
            },
            Game::Poker => {
                proof {
                    full_deck_has_each_card_once(cards(deck@));
                }
                (Stage::Done, open_poker(bet, deck))
            },
        },
    }
}

impl Conversation {
    /// Takes up a message.
    pub fn start(sender: Option<Sender>, text: Option<String>) -> (begun: (
        Conversation,
        Vec<Action>,
    ))
        ensures
            begun.0@.stage == first_turn(sender, text_of(text)).stage,
            begun.0@.lang == Seq::<char>::empty(),
            begun.0@.stage.wf(),
            begun.0@.user_id == match sender {
                Some(s) => s.user_id,
                None => 0,
            },
            deeds(begun.1@) == first_turn(sender, text_of(text)).actions,
    {
        match sender {
            Some(s) => {
                let command = match text {
                    Some(t) => Some(read_command(t.as_str())),
                    None => None,
                };
                let username = match s.username {
                    Some(name) => name,
                    None => "Anonymous".to_owned(),
                };
                (
                    Conversation {
                        user_id: s.user_id,
                        lang: String::new(),
                        stage: Stage::Ensuring { command },
                    },
                    only(Action::EnsureUser { user_id: s.user_id, username }),
                )
            },
            None => (
                Conversation { user_id: 0, lang: String::new(), stage: Stage::Done },
                nothing(),
            ),
        }
    }

    /// Whether the conversation can go on with an answer.
    pub fn accepts(&self, event: &Event) -> (yes: bool)
        ensures
            yes == admissible(self.stage, event@),
    {
        match self.stage {
            Stage::Loading { .. } => match event {
                Event::Stats(Some(p)) => is_moment(p.last_daily),
                _ => true,
            },
            Stage::Claiming { .. } => match event {
                Event::Clock(now) => now.is_valid(),
                _ => true,
            },
            Stage::Summing => match event {
                Event::Totals(Some((tokens, debt))) => {
                    let net: i128 = *debt as i128 - *tokens as i128;
                    i64::MIN as i128 <= net && net <= i64::MAX as i128
                },
                _ => true,
            },
            Stage::Pausing { .. } => match event {
                Event::LastAction { now, last } => now.is_valid() && is_moment(*last),
                _ => true,
            },
            _ => true,
        }
    }

    /// Goes on with an answer, and with a deck for the stages at which cards are
    /// dealt.
    pub fn resume_with(&mut self, event: Event, deck: Vec<Card>) -> (actions: Vec<Action>)
        requires
            old(self).stage.wf(),
            admissible(old(self).stage, event@),
            deals_cards(old(self).stage) ==> is_full_deck(cards(deck@)),
        ensures
            final(self)@.user_id == old(self)@.user_id,
            final(self)@.lang == next_lang(old(self)@.lang, old(self)@.stage, event@),
            final(self)@.stage == next_turn(
                old(self)@.user_id,
                old(self)@.stage,
                event@,
                cards(deck@),
            ).stage,
            final(self)@.stage.wf(),
            deeds(actions@) == next_turn(
                old(self)@.user_id,
                old(self)@.stage,
                event@,
                cards(deck@),
            ).actions,
    {
        let user_id: i64 = self.user_id;
        let turn: (Stage, Vec<Action>) = match self.stage {
            Stage::Ensuring { command: Some(command) } => match event {
                Event::Ensured(true) => (
                    Stage::Loading { command },
                    only(Action::Ask(Query::Stats)),
                ),
                _ => (Stage::Done, nothing()),
            },
            Stage::Loading { command } => match event {
                Event::Stats(stats) => {
                    let player = match stats {
                        Some(p) => p,
                        None => PlayerStats::default(),
                    };
                    let turn = answer_command(command, &player);
                    self.lang = player.lang;
                    turn
                },
                _ => (Stage::Done, nothing()),
            },
            Stage::Claiming { last_daily } => match event {
                Event::Clock(now) => claim(now, last_daily),
                _ => (Stage::Done, nothing()),
            },
            Stage::Ranking => match event {
                Event::Top(Some(rows)) => (
                    Stage::Done,
                    only(Action::Send(Reply::Leaderboard(rows))),
                ),
                _ => (Stage::Done, nothing()),
            },
            Stage::Borrowing { tokens } => match event {
                Event::Casino(Some(casino)) => lend(tokens, casino),
                Event::Casino(None) => lend(tokens, 0),
                _ => (Stage::Done, nothing()),
            },
            Stage::Summing => match event {
                Event::Totals(totals) => {
                    let (tokens, debt): (i64, i64) = match totals {
                        Some(pair) => pair,
                        None => (0, 0),
                    };
                    (Stage::Done, say(Notice::NetWorth { tokens, debt, net: debt - tokens }))
                },
                _ => (Stage::Done, nothing()),
            },
            Stage::Pausing { game, given, default_bet, biggest_win } => match event {
                Event::LastAction { now, last } => check_cooldown(
                    game,
                    given,
                    default_bet,
                    biggest_win,
                    now,
                    last,
                ),
                _ => (Stage::Done, nothing()),
            },
            Stage::Betting { game, bet, biggest_win } => match event {
                Event::Stats(Some(p)) => open_game(
                    user_id,
                    game,
                    bet,
                    biggest_win,
                    Some(p.tokens),
                    deck,
                ),
                Event::Stats(None) => open_game(user_id, game, bet, biggest_win, None, deck),
                _ => (Stage::Done, nothing()),
            },
            Stage::Spinning { bet, biggest_win } => match event {
                Event::Rolled(Some(value)) => (Stage::Done, settle_spin(bet, value, biggest_win)),
                Event::Rolled(None) => (Stage::Done, settle_spin(bet, 0, biggest_win)),
                _ => (Stage::Done, nothing()),
            },
            _ => (Stage::Done, nothing()),
        };
        self.stage = turn.0;
        turn.1
    }

    /// Goes on with an answer. Cards are dealt from a new deck; whatever its order,
    /// the step is the one that this deck calls for.
    pub fn resume(&mut self, event: Event) -> (actions: Vec<Action>)
        requires
            old(self).stage.wf(),
            admissible(old(self).stage, event@),
        ensures
            final(self)@.user_id == old(self)@.user_id,
            final(self)@.lang == next_lang(old(self)@.lang, old(self)@.stage, event@),
            final(self)@.stage.wf(),
            exists|deck: Seq<CardView>| #[trigger]
                is_full_deck(deck) && (Turn {
                    stage: final(self)@.stage,
                    actions: deeds(actions@),
                }) == next_turn(old(self)@.user_id, old(self)@.stage, event@, deck),
    {
        let ghost user_id = self.user_id;
        let ghost stage = self.stage;
        let ghost heard = event@;
        let deals: bool = match self.stage {
            Stage::Betting { game: Game::Blackjack, .. } => true,
            Stage::Betting { game: Game::Poker, .. } => true,
            _ => false,
        };
        if deals {
            let deck = new_deck();
            let ghost dealt = cards(deck@);
            let actions = self.resume_with(event, deck);
            proof {
                assert(is_full_deck(dealt));
                assert((Turn { stage: self@.stage, actions: deeds(actions@) }) =~= next_turn(
                    user_id,
                    stage,
                    heard,
                    dealt,
                ));
            }
            actions
        } else {
            let actions = self.resume_with(event, Vec::new());
            proof {
                assert(is_full_deck(standard_deck()));
                assert((Turn { stage: self@.stage, actions: deeds(actions@) }) =~= next_turn(
                    user_id,
                    stage,
                    heard,
                    standard_deck(),
                ));
            }
            actions
        }
    }
}

} // verus!
