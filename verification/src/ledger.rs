//! What the bot does: changes to the books, questions, and messages.

use vstd::prelude::*;

use crate::blackjack::{BlackjackGame, BlackjackView};
use crate::clock::Timestamp;
use crate::poker::{PokerGame, PokerView};
use crate::reply::{Lang, Notice, Reply, ReplyView};

verus! {

/// A change to the books of the player, or of the casino where it says so.
#[derive(Clone, Copy, Debug, PartialEq, Eq, Structural)]
pub enum LedgerOp {
    /// The player's language is set.
    SetLang(Lang),
    /// The player's default bet is set.
    SetDefaultBet(i32),
    /// The player gets the daily reward, and the moment is noted.
    ClaimDaily { reward: i32, at: Timestamp },
    /// The player gets tokens and owes them.
    Borrow(i32),
    /// The player gives tokens and owes that many fewer.
    Repay(i32),
    /// The casino gives tokens.
    CasinoPays(i32),
    /// The casino gets tokens.
    CasinoReceives(i32),
    /// The moment of the player's last game is noted.
    Touch(Timestamp),
    /// The player gives the bet.
    Charge(i32),
    /// The player's games are counted.
    CountGame,
    /// The player gets winnings, which are noted where they are a record.
    Credit { amount: i32, record: bool },
    /// The player's game of blackjack is forgotten.
    ClearBlackjack,
    /// The player's game of poker is forgotten.
    ClearPoker,
}

/// A question to the world outside.
#[derive(Clone, Copy, Debug, PartialEq, Eq, Structural)]
pub enum Query {
    /// What is known of the player.
    Stats,
    /// The time, and the moment of the player's last game.
    LastAction,
    /// The time.
    Clock,
    /// The ten richest players.
    Top,
    /// The tokens of the casino.
    Casino,
    /// The tokens and the debt of all players together.
    Totals,
    /// A turn of the slot machine.
    Slots,
    /// A roll of the dice.
    Dice,
    /// The player's game of blackjack.
    Blackjack,
    /// The player's game of poker.
    Poker,
}

/// Something that the bot does.
#[derive(Debug, PartialEq, Eq)]
pub enum Action {
    /// Change the books.
    Ledger(LedgerOp),
    /// Ask, and go on with the answer.
    Ask(Query),
    /// Make sure that the player has an account, and go on.
    EnsureUser { user_id: i64, username: String },
    /// Keep a game of blackjack.
    SaveBlackjack(BlackjackGame),
    /// Keep a game of poker.
    SavePoker(PokerGame),
    /// Send a new message.
    Send(Reply),
    /// Change the message that the pressed button belongs to.
    Edit(Reply),
    /// Show a notice over the chat.
    Alert(Notice),
    /// Confirm the press of a button; a failure to do so matters only where it says
    /// so.
    Acknowledge { must_succeed: bool },
    /// Wait for some seconds.
    Wait(u64),
}

/// An action as a mathematical value.
#[verifier::ext_equal]
pub enum ActionView {
    Ledger(LedgerOp),
    Ask(Query),
    EnsureUser { user_id: i64, username: Seq<char> },
    SaveBlackjack(BlackjackView),
    SavePoker(PokerView),
    Send(ReplyView),
    Edit(ReplyView),
    Alert(Notice),
    Acknowledge { must_succeed: bool },
    Wait(u64),
}

impl View for Action {
    type V = ActionView;

    open spec fn view(&self) -> ActionView {
        match self {
            Action::Ledger(op) => ActionView::Ledger(*op),
            Action::Ask(q) => ActionView::Ask(*q),
            Action::EnsureUser { user_id, username } => ActionView::EnsureUser {
                user_id: *user_id,
                username: username@,
            },
            Action::SaveBlackjack(game) => ActionView::SaveBlackjack(game@),
            Action::SavePoker(game) => ActionView::SavePoker(game@),
            Action::Send(reply) => ActionView::Send(reply@),
            Action::Edit(reply) => ActionView::Edit(reply@),
            Action::Alert(notice) => ActionView::Alert(*notice),
            Action::Acknowledge { must_succeed } => ActionView::Acknowledge {
                must_succeed: *must_succeed,
            },
            Action::Wait(seconds) => ActionView::Wait(*seconds),
        }
    }
}

/// The views of a list of actions.
pub open spec fn deeds(actions: Seq<Action>) -> Seq<ActionView> {
    actions.map_values(|a: Action| a@)
}

/// A plain notice, sent.
pub open spec fn sent(notice: Notice) -> ActionView {
    ActionView::Send(ReplyView::Notice(notice))
}

/// A plain notice, in place of the message that the button belongs to.
pub open spec fn edited(notice: Notice) -> ActionView {
    ActionView::Edit(ReplyView::Notice(notice))
}

/// A change to the books.
pub open spec fn booked(op: LedgerOp) -> ActionView {
    ActionView::Ledger(op)
}

/// Adds an action to a list.
pub fn then_do(actions: &mut Vec<Action>, action: Action)
    ensures
        deeds(final(actions)@) == deeds(old(actions)@).push(action@),
{
    let ghost before = actions@;
    actions.push(action);
    proof {
        assert(deeds(actions@) =~= deeds(before).push(action@));
    }
}

/// A list of no actions.
pub fn nothing() -> (actions: Vec<Action>)
    ensures
        deeds(actions@) == Seq::<ActionView>::empty(),
{
    let actions: Vec<Action> = Vec::new();
    proof {
        assert(deeds(actions@) =~= Seq::<ActionView>::empty());
    }
    actions
}

/// A list of one action.
pub fn only(action: Action) -> (actions: Vec<Action>)
    ensures
        deeds(actions@) == seq![action@],
{
    let mut actions: Vec<Action> = Vec::new();
    actions.push(action);
    proof {
        assert(deeds(actions@) =~= seq![action@]);
    }
    actions
}

/// Winnings are a record when they exceed every win before; no winnings are none.
pub open spec fn is_record(amount: int, biggest_win: int) -> bool {
    amount != 0 && amount > biggest_win
}

/// What is booked for winnings: nothing where there are none.
pub open spec fn payout(amount: i32, biggest_win: i32) -> Seq<ActionView> {
    if amount == 0 {
        Seq::empty()
    } else {
        seq![
            booked(
                LedgerOp::Credit {
                    amount,
                    record: is_record(amount as int, biggest_win as int),
                },
            ),
        ]
    }
}

/// Pays winnings; tells whether they are a record.
pub fn pay(actions: &mut Vec<Action>, amount: i32, biggest_win: i32) -> (record: bool)
    ensures
        deeds(final(actions)@) == deeds(old(actions)@) + payout(amount, biggest_win),
        record == is_record(amount as int, biggest_win as int),
{
    let ghost before = deeds(actions@);
    if amount == 0 {
        proof {
            assert(deeds(actions@) =~= before + payout(amount, biggest_win));
        }
        return false;
    }
    let record: bool = amount > biggest_win;
    then_do(actions, Action::Ledger(LedgerOp::Credit { amount, record }));
    proof {
        assert(deeds(actions@) =~= before + payout(amount, biggest_win));
    }
    record
}

/// The books: what is recorded of one player, and the tokens of the casino. Amounts
/// are numbers without bounds.
#[verifier::ext_equal]
pub struct Books {
    pub tokens: int,
    pub debt: int,
    pub games_played: int,
    pub biggest_win: int,
    pub default_bet: int,
    pub lang: Seq<char>,
    pub last_daily: Option<Timestamp>,
    pub last_action: Option<Timestamp>,
    pub blackjack: Option<BlackjackView>,
    pub poker: Option<PokerView>,
    pub casino: int,
}

/// The books after a change.
pub open spec fn book(books: Books, op: LedgerOp) -> Books {
    match op {
        LedgerOp::SetLang(lang) => Books { lang: crate::reply::lang_code(lang), ..books },
        LedgerOp::SetDefaultBet(bet) => Books { default_bet: bet as int, ..books },
        LedgerOp::ClaimDaily { reward, at } => Books {
            tokens: books.tokens + reward,
            last_daily: Some(at),
            ..books
        },
        LedgerOp::Borrow(n) => Books { tokens: books.tokens + n, debt: books.debt + n, ..books },
        LedgerOp::Repay(n) => Books { tokens: books.tokens - n, debt: books.debt - n, ..books },
        LedgerOp::CasinoPays(n) => Books { casino: books.casino - n, ..books },
        LedgerOp::CasinoReceives(n) => Books { casino: books.casino + n, ..books },
        LedgerOp::Touch(at) => Books { last_action: Some(at), ..books },
        LedgerOp::Charge(n) => Books { tokens: books.tokens - n, ..books },
        LedgerOp::CountGame => Books { games_played: books.games_played + 1, ..books },
        LedgerOp::Credit { amount, record } => Books {
            tokens: books.tokens + amount,
            biggest_win: if record {
                amount as int
            } else {
                books.biggest_win
            },
            ..books
        },
        LedgerOp::ClearBlackjack => Books { blackjack: None, ..books },
        LedgerOp::ClearPoker => Books { poker: None, ..books },
    }
}

/// The books after an action: only changes and kept games touch them.
pub open spec fn after_action(books: Books, action: ActionView) -> Books {
    match action {
        ActionView::Ledger(op) => book(books, op),
        ActionView::SaveBlackjack(game) => Books { blackjack: Some(game), ..books },
        ActionView::SavePoker(game) => Books { poker: Some(game), ..books },
        _ => books,
    }
}

/// The books after a list of actions.
pub open spec fn after_all(books: Books, actions: Seq<ActionView>) -> Books
    decreases actions.len(),
{
    if actions.len() == 0 {
        books
    } else {
        after_action(after_all(books, actions.drop_last()), actions.last())
    }
}

/// Doing one more action comes to doing it after the others.
pub broadcast proof fn lemma_after_all_push(books: Books, list: Seq<ActionView>, a: ActionView)
    ensures
        #[trigger] after_all(books, list.push(a)) == after_action(after_all(books, list), a),
{
    assert(list.push(a).drop_last() =~= list);
}

/// Doing one list of actions after another comes to doing both.
pub broadcast proof fn lemma_after_all_concat(books: Books, a: Seq<ActionView>, b: Seq<ActionView>)
    ensures
        #[trigger] after_all(books, a + b) == after_all(after_all(books, a), b),
    decreases b.len(),
{
    if b.len() == 0 {
        assert(a + b =~= a);
    } else {
        assert((a + b).drop_last() =~= a + b.drop_last());
        lemma_after_all_concat(books, a, b.drop_last());
    }
}

/// Winnings are added to the player's tokens, and the biggest win is from then on
/// the larger of the two.
pub proof fn payout_books(books: Books, amount: i32)
    requires
        0 <= books.biggest_win <= i32::MAX,
        amount >= 0,
    ensures
        ({
            let after = after_all(books, payout(amount, books.biggest_win as i32));
            &&& after.tokens == books.tokens + amount
            &&& after.biggest_win == if amount > books.biggest_win {
                amount as int
            } else {
                books.biggest_win
            }
        }),
{
    broadcast use lemma_after_all_push;

}

} // verus!
