//! What a player can count on: what each step costs, brings and says.

use vstd::prelude::*;

use crate::bets::BetError;
use crate::blackjack;
use crate::blackjack::{after_dealer, after_hit, can_stand, score_of, BlackjackView};
use crate::cards::CardView;
use crate::clock::{a_day_between_rewards, three_seconds_between_games, Timestamp};
use crate::conversation::{admissible, first_turn, next_lang, next_turn, Sender, Stage};
use crate::events::{command_of, Command, EventView, Game, PlayerView};
use crate::hand_rank::{pays, rank_of, HandRank};
use crate::ledger::{
    after_all, edited, lemma_after_all_concat, lemma_after_all_push, sent, ActionView, Books, Query,
};
use crate::payload::{press_of, BlackjackMove, DiceBet, FlipBet, PokerMove, Press, Side};
use crate::poker;
use crate::poker::{after_draw, PokerView};
use crate::press::{first_press, next_press, press_lang, PressStage};
use crate::reply::{
    BlackjackStage, BlackjackTableView, Lang, LeaderView, Notice, PokerStage, ReplyView,
};

verus! {

/// The larger of two numbers.
pub open spec fn larger(a: int, b: int) -> int {
    if a > b {
        a
    } else {
        b
    }
}

// ---------- Messages ----------

/// Whoever sends a message is registered under their number and name first, and only
/// then is the message looked at.
pub proof fn senders_are_registered(sender: Sender, text: Seq<char>)
    ensures
        ({
            let turn = first_turn(Some(sender), Some(text));
            &&& turn.actions.len() == 1
            &&& turn.actions[0] matches ActionView::EnsureUser { user_id, username }
            &&& user_id == sender.user_id
            &&& sender.username is Some ==> username == sender.username->0@
            &&& sender.username is None ==> username == "Anonymous"@
            &&& turn.stage == (Stage::Ensuring { command: Some(command_of(text)) })
            &&& first_turn(Some(sender), None).actions == turn.actions
            &&& first_turn(None, Some(text)).actions == Seq::<ActionView>::empty()
            &&& first_turn(None, Some(text)).stage is Done
        }),
{
}

/// Once an account is there it is read for whatever command; without one, or without a
/// command, nothing is done.
pub proof fn accounts_come_first(user_id: i64, command: Command, deck: Seq<CardView>)
    ensures
        ({
            let waiting = Stage::Ensuring { command: Some(command) };
            let turn = next_turn(user_id, waiting, EventView::Ensured(true), deck);
            let failed = next_turn(user_id, waiting, EventView::Ensured(false), deck);
            let silent = next_turn(
                user_id,
                Stage::Ensuring { command: None },
                EventView::Ensured(true),
                deck,
            );
            &&& turn.stage == (Stage::Loading { command })
            &&& turn.actions == seq![ActionView::Ask(Query::Stats)]
            &&& failed.stage is Done && failed.actions.len() == 0
            &&& silent.stage is Done && silent.actions.len() == 0
        }),
{
}

/// Replies are in the language of the account that was read, and that language stays
/// through the rest of the conversation.
pub proof fn replies_are_in_the_players_language(
    lang: Seq<char>,
    command: Command,
    player: PlayerView,
    stage: Stage,
    event: EventView,
)
    ensures
        next_lang(lang, Stage::Loading { command }, EventView::Stats(Some(player)))
            == player.lang,
        stage !is Loading ==> next_lang(lang, stage, event) == lang,
{
}

/// An account that cannot be read counts as an empty one, without a language.
pub proof fn unknown_accounts_count_as_empty(
    user_id: i64,
    command: Command,
    press: PressStage,
    deck: Seq<CardView>,
    lang: Seq<char>,
    heads: bool,
)
    ensures
        ({
            let empty = EventView::Stats(
                Some(
                    PlayerView {
                        tokens: 0,
                        debt: 0,
                        lang: Seq::empty(),
                        default_bet: 0,
                        last_daily: None,
                        games_played: 0,
                        biggest_win: 0,
                    },
                ),
            );
            let unknown = EventView::Stats(None);
            let loading = Stage::Loading { command };
            &&& next_turn(user_id, loading, unknown, deck) == next_turn(
                user_id,
                loading,
                empty,
                deck,
            )
            &&& next_lang(lang, loading, unknown) == Seq::<char>::empty()
            &&& next_press(user_id, press, unknown, heads) == next_press(
                user_id,
                press,
                empty,
                heads,
            )
            &&& press is Loading ==> press_lang(lang, press, unknown) == Seq::<char>::empty()
        }),
{
}

/// A conversation can go on with every answer whose moments lie in the calendar and
/// whose totals are apart by no more than an `i64` holds.
pub proof fn conversations_can_go_on(stage: Stage, event: EventView)
    requires
        match event {
            EventView::Stats(Some(p)) => p.last_daily is Some ==> p.last_daily->0.wf(),
            EventView::Clock(now) => now.wf(),
            EventView::LastAction { now, last } => now.wf() && (last is Some ==> last->0.wf()),
            EventView::Totals(Some((tokens, debt))) => i64::MIN <= debt - tokens <= i64::MAX,
            _ => true,
        },
    ensures
        admissible(stage, event),
{
}

/// What the account commands say and book, for an account that was read.
#[verifier::rlimit(40)]
pub proof fn account_commands_do_what_they_say(
    user_id: i64,
    player: PlayerView,
    deck: Seq<CardView>,
    books: Books,
    bet: i32,
    lang: Lang,
)
    ensures
        ({
            let at = |command: Command|
                next_turn(
                    user_id,
                    Stage::Loading { command },
                    EventView::Stats(Some(player)),
                    deck,
                );
            &&& at(Command::Balance).actions == seq![
                sent(Notice::Welcome { tokens: player.tokens, debt: player.debt }),
            ]
            &&& at(Command::Help).actions == seq![sent(Notice::Help)]
            &&& at(Command::Unknown).actions == Seq::<ActionView>::empty()
            &&& after_all(books, at(Command::ChangeLang(lang)).actions).lang == match lang {
                Lang::En => "en"@,
                Lang::Uk => "uk"@,
            }
            &&& at(Command::ChangeLang(lang)).actions.contains(sent(Notice::LangSet(lang)))
            &&& at(Command::SetBet(None)).actions == seq![sent(Notice::SetBetUsage)]
            &&& 10 <= bet <= 50000 ==> {
                &&& after_all(books, at(Command::SetBet(Some(bet))).actions) == (Books {
                    default_bet: bet as int,
                    ..books
                })
                &&& at(Command::SetBet(Some(bet))).actions.contains(
                    sent(Notice::SetBetSuccess { bet }),
                )
            }
            &&& !(10 <= bet <= 50000) ==> at(Command::SetBet(Some(bet))).actions == seq![
                sent(Notice::BetRefused(BetError::OutOfBounds)),
            ]
            &&& at(Command::Daily).actions == seq![ActionView::Ask(Query::Clock)]
            &&& at(Command::Daily).stage == (Stage::Claiming { last_daily: player.last_daily })
            &&& at(Command::Top).actions == seq![ActionView::Ask(Query::Top)]
            &&& at(Command::Top).stage is Ranking
            &&& at(Command::Faucet).actions == seq![ActionView::Ask(Query::Casino)]
            &&& at(Command::Faucet).stage == (Stage::Borrowing { tokens: player.tokens })
            &&& at(Command::NetWorth).actions == seq![ActionView::Ask(Query::Totals)]
            &&& at(Command::NetWorth).stage is Summing
        }),
{
    reveal_with_fuel(after_all, 3);
    let changed = next_turn(
        user_id,
        Stage::Loading { command: Command::ChangeLang(lang) },
        EventView::Stats(Some(player)),
        deck,
    ).actions;
    assert(changed[1] == sent(Notice::LangSet(lang)));
    let set = next_turn(
        user_id,
        Stage::Loading { command: Command::SetBet(Some(bet)) },
        EventView::Stats(Some(player)),
        deck,
    ).actions;
    if 10 <= bet <= 50000 {
        assert(set[1] == sent(Notice::SetBetSuccess { bet }));
    }
}

/// A game that is asked for goes on with the number that was given, the player's
/// default bet and the player's biggest win.
pub proof fn games_are_asked_for(
    user_id: i64,
    player: PlayerView,
    deck: Seq<CardView>,
    game: Game,
    given: Option<i32>,
)
    ensures
        ({
            let turn = next_turn(
                user_id,
                Stage::Loading { command: Command::Play { game, given } },
                EventView::Stats(Some(player)),
                deck,
            );
            &&& turn.actions == seq![ActionView::Ask(Query::LastAction)]
            &&& turn.stage == (Stage::Pausing {
                game,
                given,
                default_bet: player.default_bet,
                biggest_win: player.biggest_win,
            })
        }),
{
}

/// The daily reward: a thousand tokens for a player who never had it or had it a day
/// ago or longer, and otherwise nothing but the time left.
#[verifier::rlimit(40)]
pub proof fn daily_reward_is_a_thousand(
    user_id: i64,
    now: Timestamp,
    last: Timestamp,
    deck: Seq<CardView>,
    books: Books,
)
    requires
        now.wf(),
        last.wf(),
    ensures
        ({
            let first = next_turn(
                user_id,
                Stage::Claiming { last_daily: None },
                EventView::Clock(now),
                deck,
            );
            let next = next_turn(
                user_id,
                Stage::Claiming { last_daily: Some(last) },
                EventView::Clock(now),
                deck,
            );
            let passed = (now.secs - last.secs) * 1_000_000_000 + now.nanos - last.nanos;
            let granted = Books {
                tokens: books.tokens + 1000,
                last_daily: Some(now),
                ..books
            };
            &&& after_all(books, first.actions) == granted
            &&& first.actions.contains(sent(Notice::DailySuccess))
            &&& passed >= 86_400_000_000_000 ==> {
                &&& after_all(books, next.actions) == granted
                &&& next.actions.contains(sent(Notice::DailySuccess))
            }
            &&& passed < 86_400_000_000_000 ==> {
                &&& after_all(books, next.actions) == books
                &&& next.actions.len() == 1
                &&& next.actions[0] matches ActionView::Send(
                    ReplyView::Notice(Notice::DailyWait { hours, mins }),
                )
                &&& hours * 60 + mins <= (86_400_000_000_000 - passed) / 60_000_000_000
                &&& (86_400_000_000_000 - passed) / 60_000_000_000 < hours * 60 + mins + 1
                &&& 0 <= mins < 60
            }
        }),
{
    reveal_with_fuel(after_all, 3);
    a_day_between_rewards(now, last);
    let first = next_turn(
        user_id,
        Stage::Claiming { last_daily: None },
        EventView::Clock(now),
        deck,
    );
    let next = next_turn(
        user_id,
        Stage::Claiming { last_daily: Some(last) },
        EventView::Clock(now),
        deck,
    );
    assert(first.actions[1] == sent(Notice::DailySuccess));
    let passed = (now.secs - last.secs) * 1_000_000_000 + now.nanos - last.nanos;
    if passed >= 86_400_000_000_000 {
        assert(next.actions[1] == sent(Notice::DailySuccess));
    }
}

/// The richest players are listed as they were read; where they could not be read,
/// nothing is said.
pub proof fn the_richest_are_listed(user_id: i64, rows: Seq<LeaderView>, deck: Seq<CardView>)
    ensures
        next_turn(user_id, Stage::Ranking, EventView::Top(Some(rows)), deck).actions == seq![
            ActionView::Send(ReplyView::Leaderboard(rows)),
        ],
        next_turn(user_id, Stage::Ranking, EventView::Top(None), deck).actions.len() == 0,
{
}

/// The faucet lends five hundred tokens to a player with fewer than fifty, as long as
/// the casino has them; the player owes what the casino gave.
pub proof fn faucet_lends_to_the_poor(
    user_id: i64,
    tokens: i32,
    casino: Option<i32>,
    deck: Seq<CardView>,
    books: Books,
)
    ensures
        ({
            let turn = next_turn(
                user_id,
                Stage::Borrowing { tokens },
                EventView::Casino(casino),
                deck,
            );
            let after = after_all(books, turn.actions);
            if tokens < 50 && casino is Some && casino->0 >= 500 {
                &&& after == (Books {
                    tokens: books.tokens + 500,
                    debt: books.debt + 500,
                    casino: books.casino - 500,
                    ..books
                })
                &&& turn.actions.last() == sent(Notice::FaucetGranted)
            } else {
                &&& after == books
                &&& turn.actions == seq![sent(Notice::FaucetRefused)]
            }
        }),
{
    reveal_with_fuel(after_all, 4);
}

/// A loan is repaid with any amount above zero that the player has: it leaves the
/// player's tokens and debt and goes to the casino. Any other amount is refused.
pub proof fn loans_are_repaid_from_the_balance(
    user_id: i64,
    player: PlayerView,
    amount: i32,
    deck: Seq<CardView>,
    books: Books,
)
    ensures
        ({
            let turn = next_turn(
                user_id,
                Stage::Loading { command: Command::PayLoan(amount) },
                EventView::Stats(Some(player)),
                deck,
            );
            let after = after_all(books, turn.actions);
            if 0 < amount <= player.tokens {
                &&& after == (Books {
                    tokens: books.tokens - amount,
                    debt: books.debt - amount,
                    casino: books.casino + amount,
                    ..books
                })
                &&& turn.actions.last() == sent(Notice::LoanRepaid { amount })
            } else {
                &&& after == books
                &&& turn.actions == seq![sent(Notice::LoanRefused)]
            }
        }),
{
    reveal_with_fuel(after_all, 4);
}

/// The net worth of the casino is the debt of all players less their tokens.
pub proof fn net_worth_is_debt_less_tokens(
    user_id: i64,
    tokens: i64,
    debt: i64,
    deck: Seq<CardView>,
)
    requires
        i64::MIN <= debt - tokens <= i64::MAX,
    ensures
        ({
            let told = next_turn(
                user_id,
                Stage::Summing,
                EventView::Totals(Some((tokens, debt))),
                deck,
            ).actions;
            let unknown = next_turn(user_id, Stage::Summing, EventView::Totals(None), deck).actions;
            &&& told.len() == 1
            &&& told[0] matches ActionView::Send(
                ReplyView::Notice(Notice::NetWorth { tokens: t, debt: d, net }),
            )
            &&& t == tokens
            &&& d == debt
            &&& net + tokens == debt
            &&& unknown == seq![sent(Notice::NetWorth { tokens: 0, debt: 0, net: 0 })]
        }),
{
}

/// A game may begin when three seconds have passed since the last one. The moment is
/// noted before the bet is looked at, and a bet from ten to fifty thousand goes on.
#[verifier::rlimit(40)]
pub proof fn games_begin_after_the_pause(
    user_id: i64,
    game: Game,
    bet: i32,
    default_bet: i32,
    biggest_win: i32,
    now: Timestamp,
    last: Option<Timestamp>,
    deck: Seq<CardView>,
    books: Books,
)
    ensures
        ({
            let with = |given: Option<i32>, default_bet: i32|
                next_turn(
                    user_id,
                    Stage::Pausing { game, given, default_bet, biggest_win },
                    EventView::LastAction { now, last },
                    deck,
                );
            let given = with(Some(bet), default_bet);
            let too_early = last is Some && (now.secs - last->0.secs) * 1_000_000_000 + now.nanos
                - last->0.nanos < 3_000_000_000;
            &&& given == with(None, bet)
            &&& too_early ==> given.stage is Done && given.actions == seq![sent(Notice::Cooldown)]
            &&& !too_early ==> after_all(books, given.actions) == (Books {
                last_action: Some(now),
                ..books
            })
            &&& !too_early && 10 <= bet <= 50000 ==> {
                &&& given.stage == (Stage::Betting { game, bet, biggest_win })
                &&& given.actions.last() == ActionView::Ask(Query::Stats)
            }
            &&& !too_early && !(10 <= bet <= 50000) ==> {
                &&& given.stage is Done
                &&& given.actions.last() == sent(
                    Notice::BetRefused(
                        if bet <= 0 {
                            BetError::Missing
                        } else {
                            BetError::OutOfBounds
                        },
                    ),
                )
            }
        }),
{
    reveal_with_fuel(after_all, 3);
    if let Some(t) = last {
        three_seconds_between_games(now, t);
    }
}

/// A bet that the balance covers opens the game: the slot machine and the card games
/// take it once and count one game, a coin flip or a roll of the dice is offered and
/// costs nothing yet.
#[verifier::rlimit(40)]
pub proof fn covered_bets_open_the_game(
    user_id: i64,
    bet: i32,
    biggest_win: i32,
    player: PlayerView,
    deck: Seq<CardView>,
    books: Books,
)
    requires
        bet <= player.tokens,
    ensures
        ({
            let with = |game: Game|
                next_turn(
                    user_id,
                    Stage::Betting { game, bet, biggest_win },
                    EventView::Stats(Some(player)),
                    deck,
                );
            let charged = Books {
                tokens: books.tokens - bet,
                games_played: books.games_played + 1,
                ..books
            };
            let spin = with(Game::Spin);
            let blackjack = with(Game::Blackjack);
            let poker = with(Game::Poker);
            &&& after_all(books, spin.actions) == charged
            &&& spin.stage == (Stage::Spinning { bet, biggest_win })
            &&& spin.actions.last() == ActionView::Ask(Query::Slots)
            &&& with(Game::Flip).actions == seq![sent(Notice::FlipPrompt { bet, user: user_id })]
            &&& with(Game::Dice).actions == seq![sent(Notice::DicePrompt { bet, user: user_id })]
            &&& after_all(books, blackjack.actions) == (Books {
                blackjack: Some(blackjack::opening(bet, deck)),
                ..charged
            })
            &&& blackjack.actions.last() matches ActionView::Send(
                ReplyView::Blackjack { table, stage: BlackjackStage::Playing },
            ) && shows(table, blackjack::opening(bet, deck), false)
            &&& after_all(books, poker.actions) == (Books {
                poker: Some(poker::opening(bet, deck)),
                ..charged
            })
            &&& poker.actions.last() == ActionView::Send(
                ReplyView::Poker {
                    hand: poker::opening(bet, deck).hand,
                    holds: poker::opening(bet, deck).holds,
                    stage: PokerStage::Holding,
                },
            )
        }),
{
    reveal_with_fuel(after_all, 5);
}

/// A bet above the balance, or against a balance that is not known, opens nothing.
pub proof fn other_bets_open_nothing(
    user_id: i64,
    game: Game,
    bet: i32,
    biggest_win: i32,
    player: Option<PlayerView>,
    deck: Seq<CardView>,
)
    requires
        player is None || bet > player->0.tokens,
    ensures
        ({
            let turn = next_turn(
                user_id,
                Stage::Betting { game, bet, biggest_win },
                EventView::Stats(player),
                deck,
            );
            &&& turn.stage is Done
            &&& turn.actions == seq![sent(Notice::BetRefused(BetError::Invalid))]
        }),
{
}

/// The slot machine pays ten times the bet for one face, three times for three others
/// and nothing for the rest; what is paid is what is announced, and it is announced
/// as a record exactly when it exceeds every win before.
#[verifier::rlimit(40)]
pub proof fn slot_machine_pays_for_four_faces(
    user_id: i64,
    bet: i32,
    value: u8,
    deck: Seq<CardView>,
    books: Books,
)
    requires
        10 <= bet <= 50000,
        0 <= books.biggest_win <= i32::MAX,
    ensures
        ({
            let at = |value: Option<u8>|
                next_turn(
                    user_id,
                    Stage::Spinning { bet, biggest_win: books.biggest_win as i32 },
                    EventView::Rolled(value),
                    deck,
                );
            let turn = at(Some(value));
            let times: int = if value == 64 {
                10
            } else if value == 1 || value == 22 || value == 43 {
                3
            } else {
                0
            };
            let after = after_all(books, turn.actions);
            &&& turn.stage is Done
            &&& after == (Books {
                tokens: books.tokens + bet * times,
                biggest_win: larger(books.biggest_win, bet * times),
                ..books
            })
            &&& turn.actions.last() == sent(
                if times > 0 {
                    Notice::SpinWin {
                        winnings: (bet * times) as i32,
                        record: bet * times > books.biggest_win,
                    }
                } else {
                    Notice::SpinLose { bet }
                },
            )
            &&& turn.actions.contains(ActionView::Wait(2))
            &&& at(None).actions == at(Some(0)).actions
        }),
{
    broadcast use {lemma_after_all_push, lemma_after_all_concat};

    reveal_with_fuel(after_all, 4);
    let turn = next_turn(
        user_id,
        Stage::Spinning { bet, biggest_win: books.biggest_win as i32 },
        EventView::Rolled(Some(value)),
        deck,
    );
    let n = turn.actions.len();
    assert(turn.actions[n - 2] == ActionView::Wait(2));
}

// ---------- Presses ----------

/// A table shows the player's cards with their score; of the dealer's cards it shows
/// all with their score, or only the first with its weight.
pub open spec fn shows(table: BlackjackTableView, game: BlackjackView, all: bool) -> bool {
    &&& table.player == game.player
    &&& table.player_score == score_of(game.player) as i32
    &&& if all {
        &&& table.dealer == game.dealer
        &&& table.dealer_score == score_of(game.dealer) as i32
    } else {
        &&& table.dealer.len() == 1
        &&& table.dealer[0] == game.dealer[0]
        &&& table.dealer_score == game.dealer[0].weight
    }
}

/// A press is read from its data; without a message it is only confirmed.
pub proof fn presses_are_taken_up(data: Seq<char>)
    ensures
        first_press(Some(data), true).stage == (PressStage::Loading { press: press_of(data) }),
        first_press(None, true).stage == (PressStage::Loading { press: press_of(Seq::empty()) }),
        first_press(Some(data), true).actions == seq![ActionView::Ask(Query::Stats)],
        first_press(Some(data), false).stage is Done,
        first_press(Some(data), false).actions == seq![
            ActionView::Acknowledge { must_succeed: true },
        ],
{
}

/// A press goes on in the language and with the biggest win of the account; a bet goes
/// on only for the player it was offered to, with the side or guess and the amount
/// that were offered.
#[verifier::rlimit(40)]
pub proof fn presses_go_on(
    user_id: i64,
    press: Press,
    player: PlayerView,
    lang: Seq<char>,
    heads: bool,
)
    ensures
        ({
            let loading = PressStage::Loading { press };
            let turn = next_press(user_id, loading, EventView::Stats(Some(player)), heads);
            let confirm = ActionView::Acknowledge { must_succeed: false };
            let refused = seq![ActionView::Alert(Notice::WrongUser), confirm];
            &&& press_lang(lang, loading, EventView::Stats(Some(player))) == player.lang
            &&& press matches Press::Blackjack(choice) ==> {
                &&& turn.stage == (PressStage::AtBlackjack {
                    choice,
                    biggest_win: player.biggest_win,
                })
                &&& turn.actions == seq![ActionView::Ask(Query::Blackjack)]
            }
            &&& press matches Press::Poker(choice) ==> {
                &&& turn.stage == (PressStage::AtPoker { choice, biggest_win: player.biggest_win })
                &&& turn.actions == seq![ActionView::Ask(Query::Poker)]
            }
            &&& press matches Press::Flip(Some(FlipBet { side, bet, user })) ==> {
                if user == user_id {
                    &&& turn.stage == (PressStage::Flipping {
                        side,
                        bet,
                        biggest_win: player.biggest_win,
                    })
                    &&& turn.actions == seq![ActionView::Ask(Query::Stats)]
                } else {
                    turn.stage is Done && turn.actions == refused
                }
            }
            &&& press matches Press::Dice(Some(DiceBet { guess, bet, user })) ==> {
                if user == user_id {
                    &&& turn.stage == (PressStage::Staking {
                        guess,
                        bet,
                        biggest_win: player.biggest_win,
                    })
                    &&& turn.actions == seq![ActionView::Ask(Query::Stats)]
                } else {
                    turn.stage is Done && turn.actions == refused
                }
            }
            &&& press == Press::Unknown || press == Press::Flip(None) || press == Press::Dice(None)
                ==> turn.stage is Done && turn.actions == seq![confirm]
        }),
{
    let turn = next_press(
        user_id,
        PressStage::Loading { press },
        EventView::Stats(Some(player)),
        heads,
    );
    let confirm = ActionView::Acknowledge { must_succeed: false };
    if turn.stage is Done {
        if turn.actions.len() == 1 {
            assert(turn.actions =~= seq![confirm]);
        } else {
            assert(turn.actions =~= seq![ActionView::Alert(Notice::WrongUser), confirm]);
        }
    }
}

/// A hit above twenty-one loses the game and shows all cards; otherwise the game is
/// kept with the new card and goes on. Neither costs anything more.
#[verifier::rlimit(40)]
pub proof fn a_hit_goes_on_up_to_twenty_one(
    user_id: i64,
    game: BlackjackView,
    biggest_win: i32,
    heads: bool,
    books: Books,
)
    ensures
        ({
            let turn = next_press(
                user_id,
                PressStage::AtBlackjack { choice: BlackjackMove::Hit, biggest_win },
                EventView::Blackjack(Some(game)),
                heads,
            );
            let next = after_hit(game);
            let bust = score_of(next.player) > 21;
            let after = after_all(books, turn.actions);
            let shown = turn.actions[turn.actions.len() - 2];
            &&& turn.stage is Done
            &&& after == (Books {
                blackjack: if bust {
                    None
                } else {
                    Some(next)
                },
                ..books
            })
            &&& shown matches ActionView::Edit(ReplyView::Blackjack { table, stage })
            &&& shows(table, next, bust)
            &&& stage == if bust {
                BlackjackStage::Bust { bet: game.bet }
            } else {
                BlackjackStage::Playing
            }
        }),
{
    broadcast use {lemma_after_all_push, lemma_after_all_concat};

    reveal_with_fuel(after_all, 4);
}

/// A stand ends the game. Against a dealer over twenty-one, or below the player, the
/// player gets twice the bet; equal scores give the bet back; a higher score of the
/// dealer takes it. The end that is announced is the end that is paid.
#[verifier::rlimit(40)]
pub proof fn a_stand_pays_by_the_scores(
    user_id: i64,
    game: BlackjackView,
    heads: bool,
    books: Books,
)
    requires
        can_stand(game),
        10 <= game.bet <= 50000,
        0 <= books.biggest_win <= i32::MAX,
    ensures
        ({
            let turn = next_press(
                user_id,
                PressStage::AtBlackjack {
                    choice: BlackjackMove::Stand,
                    biggest_win: books.biggest_win as i32,
                },
                EventView::Blackjack(Some(game)),
                heads,
            );
            let player = score_of(game.player);
            let end = after_dealer(game);
            let dealer = score_of(end.dealer);
            let bet = game.bet as int;
            let paid = if dealer > 21 || player > dealer {
                bet * 2
            } else if player == dealer {
                bet
            } else {
                0
            };
            let shown = turn.actions[turn.actions.len() - 2];
            &&& turn.stage is Done
            &&& after_all(books, turn.actions) == (Books {
                tokens: books.tokens + paid,
                biggest_win: larger(books.biggest_win, paid),
                blackjack: None,
                ..books
            })
            &&& shown matches ActionView::Edit(ReplyView::Blackjack { table, stage })
            &&& shows(table, end, true)
            &&& dealer > 21 || player > dealer ==> stage == (BlackjackStage::Won {
                bet: game.bet,
                record: bet * 2 > books.biggest_win,
            })
            &&& dealer <= 21 && player == dealer ==> stage is Pushed
            &&& dealer <= 21 && player < dealer ==> stage == (BlackjackStage::Lost {
                bet: game.bet,
            })
        }),
{
    broadcast use {lemma_after_all_push, lemma_after_all_concat};

    reveal_with_fuel(after_all, 4);
}

/// A press on a card changes its mark, keeps the game and shows it; it costs nothing.
#[verifier::rlimit(40)]
pub proof fn a_press_on_a_card_changes_its_mark(
    user_id: i64,
    game: PokerView,
    i: usize,
    biggest_win: i32,
    heads: bool,
    books: Books,
)
    ensures
        ({
            let turn = next_press(
                user_id,
                PressStage::AtPoker { choice: PokerMove::Hold(i), biggest_win },
                EventView::Poker(Some(game)),
                heads,
            );
            let kept = after_all(books, turn.actions).poker;
            &&& turn.stage is Done
            &&& after_all(books, turn.actions) == (Books { poker: kept, ..books })
            &&& kept is Some
            &&& kept->0 == (PokerView { holds: kept->0.holds, ..game })
            &&& kept->0.holds.len() == game.holds.len()
            &&& forall|k: int|
                0 <= k < game.holds.len() ==> (#[trigger] kept->0.holds[k] == game.holds[k] <==> k
                    != i)
            &&& turn.actions[turn.actions.len() - 2] == ActionView::Edit(
                ReplyView::Poker {
                    hand: game.hand,
                    holds: kept->0.holds,
                    stage: PokerStage::Holding,
                },
            )
        }),
{
    broadcast use {lemma_after_all_push, lemma_after_all_concat};

    reveal_with_fuel(after_all, 4);
}

/// The draw ends the game and pays the bet times the entry of the pay table for the
/// new hand: 250 for a royal flush, 50 for a straight flush, 25 for four of a kind, 9
/// for a full house, 6 for a flush, 4 for a straight, 3 for three of a kind, 2 for two
/// pair, 1 for a pair of jacks or better, and nothing below. What is paid is what is
/// announced.
#[verifier::rlimit(40)]
pub proof fn a_draw_pays_by_the_table(
    user_id: i64,
    game: PokerView,
    heads: bool,
    books: Books,
)
    requires
        10 <= game.bet <= 50000,
        0 <= books.biggest_win <= i32::MAX,
    ensures
        ({
            let turn = next_press(
                user_id,
                PressStage::AtPoker {
                    choice: PokerMove::Draw,
                    biggest_win: books.biggest_win as i32,
                },
                EventView::Poker(Some(game)),
                heads,
            );
            let end = after_draw(game);
            let rank = rank_of(end.hand);
            let entry: int = match rank {
                HandRank::RoyalFlush => 250,
                HandRank::StraightFlush => 50,
                HandRank::FourOfAKind => 25,
                HandRank::FullHouse => 9,
                HandRank::Flush => 6,
                HandRank::Straight => 4,
                HandRank::ThreeOfAKind => 3,
                HandRank::TwoPair => 2,
                HandRank::JacksOrBetter => 1,
                HandRank::HighCard => 0,
            };
            let won = game.bet * entry;
            &&& turn.stage is Done
            &&& after_all(books, turn.actions) == (Books {
                tokens: books.tokens + won,
                biggest_win: larger(books.biggest_win, won),
                poker: None,
                ..books
            })
            &&& turn.actions[turn.actions.len() - 2] == ActionView::Edit(
                ReplyView::Poker {
                    hand: end.hand,
                    holds: game.holds,
                    stage: PokerStage::Finished {
                        rank,
                        bet: game.bet,
                        winnings: won as i32,
                        record: won > books.biggest_win,
                    },
                },
            )
        }),
{
    broadcast use {lemma_after_all_push, lemma_after_all_concat};

    reveal_with_fuel(after_all, 4);
    let times = pays(rank_of(after_draw(game).hand));
    assert(0 <= game.bet * times <= 50000 * 250) by (nonlinear_arith)
        requires
            10 <= game.bet <= 50000,
            0 <= times <= 250,
    ;
}

/// Without a game, and without a move, a press is only confirmed.
pub proof fn no_game_no_move(
    user_id: i64,
    choice: BlackjackMove,
    pick: PokerMove,
    table: BlackjackView,
    game: PokerView,
    biggest_win: i32,
    heads: bool,
)
    ensures
        ({
            let confirm = seq![ActionView::Acknowledge { must_succeed: false }];
            let at_blackjack = |choice: BlackjackMove, table: Option<BlackjackView>|
                next_press(
                    user_id,
                    PressStage::AtBlackjack { choice, biggest_win },
                    EventView::Blackjack(table),
                    heads,
                ).actions;
            let at_poker = |pick: PokerMove, game: Option<PokerView>|
                next_press(
                    user_id,
                    PressStage::AtPoker { choice: pick, biggest_win },
                    EventView::Poker(game),
                    heads,
                ).actions;
            &&& at_blackjack(choice, None) == confirm
            &&& at_blackjack(BlackjackMove::Nothing, Some(table)) == confirm
            &&& at_poker(pick, None) == confirm
            &&& at_poker(PokerMove::Nothing, Some(game)) == confirm
        }),
{
}

/// A coin flip that the balance covers wins the bet on the side that shows and loses it
/// on the other, and counts one game; the side that shows is named with what was won
/// or lost.
#[verifier::rlimit(40)]
pub proof fn a_flip_wins_or_loses_the_bet(
    user_id: i64,
    side: Side,
    bet: i32,
    player: PlayerView,
    heads: bool,
    books: Books,
)
    requires
        10 <= bet <= 50000,
        0 <= books.biggest_win <= i32::MAX,
    ensures
        ({
            let turn = next_press(
                user_id,
                PressStage::Flipping { side, bet, biggest_win: books.biggest_win as i32 },
                EventView::Stats(Some(player)),
                heads,
            );
            let won = (side is Heads && heads) || (side is Tails && !heads);
            let told = turn.actions[turn.actions.len() - 2];
            let after = after_all(books, turn.actions);
            &&& turn.stage is Done
            &&& bet > player.tokens ==> {
                &&& after == books
                &&& told == edited(Notice::BetRefused(BetError::Invalid))
            }
            &&& bet <= player.tokens && won ==> {
                &&& after == (Books {
                    tokens: books.tokens + bet,
                    games_played: books.games_played + 1,
                    biggest_win: larger(books.biggest_win, bet * 2),
                    ..books
                })
                &&& told == edited(
                    Notice::FlipWin {
                        heads,
                        winnings: (bet * 2) as i32,
                        record: bet * 2 > books.biggest_win,
                    },
                )
            }
            &&& bet <= player.tokens && !won ==> {
                &&& after == (Books {
                    tokens: books.tokens - bet,
                    games_played: books.games_played + 1,
                    ..books
                })
                &&& told == edited(Notice::FlipLose { heads, bet })
            }
        }),
{
    broadcast use {lemma_after_all_push, lemma_after_all_concat};

    reveal_with_fuel(after_all, 5);
}

/// A roll that the balance covers takes the bet and counts one game before the dice
/// are thrown; one that it does not cover is refused.
#[verifier::rlimit(40)]
pub proof fn a_roll_takes_the_bet_first(
    user_id: i64,
    guess: i32,
    bet: i32,
    biggest_win: i32,
    player: PlayerView,
    heads: bool,
    books: Books,
)
    ensures
        ({
            let turn = next_press(
                user_id,
                PressStage::Staking { guess, bet, biggest_win },
                EventView::Stats(Some(player)),
                heads,
            );
            let after = after_all(books, turn.actions);
            &&& bet > player.tokens ==> {
                &&& turn.stage is Done
                &&& after == books
                &&& turn.actions[0] == edited(Notice::BetRefused(BetError::Invalid))
            }
            &&& bet <= player.tokens ==> {
                &&& turn.stage == (PressStage::Rolling { guess, bet, biggest_win })
                &&& after == (Books {
                    tokens: books.tokens - bet,
                    games_played: books.games_played + 1,
                    ..books
                })
                &&& turn.actions.contains(edited(Notice::Rolling))
                &&& turn.actions.last() == ActionView::Ask(Query::Dice)
            }
        }),
{
    broadcast use {lemma_after_all_push, lemma_after_all_concat};

    reveal_with_fuel(after_all, 5);
    let turn = next_press(
        user_id,
        PressStage::Staking { guess, bet, biggest_win },
        EventView::Stats(Some(player)),
        heads,
    );
    if bet <= player.tokens {
        assert(turn.actions[2] == edited(Notice::Rolling));
    }
}

/// A right guess is paid five times the bet, a wrong one nothing; what the dice show,
/// or zero where that is not known, is what the guess is held against.
#[verifier::rlimit(40)]
pub proof fn a_right_guess_pays_five_times(
    user_id: i64,
    guess: i32,
    bet: i32,
    value: Option<u8>,
    heads: bool,
    books: Books,
)
    requires
        10 <= bet <= 50000,
        0 <= books.biggest_win <= i32::MAX,
    ensures
        ({
            let turn = next_press(
                user_id,
                PressStage::Rolling { guess, bet, biggest_win: books.biggest_win as i32 },
                EventView::Rolled(value),
                heads,
            );
            let shown: int = match value {
                Some(v) => v as int,
                None => 0,
            };
            let told = turn.actions[turn.actions.len() - 2];
            let after = after_all(books, turn.actions);
            &&& turn.stage is Done
            &&& turn.actions[0] == ActionView::Wait(2)
            &&& shown == guess ==> {
                &&& after == (Books {
                    tokens: books.tokens + bet * 5,
                    biggest_win: larger(books.biggest_win, bet * 5),
                    ..books
                })
                &&& told == sent(
                    Notice::DiceWin {
                        winnings: (bet * 5) as i32,
                        record: bet * 5 > books.biggest_win,
                    },
                )
            }
            &&& shown != guess ==> {
                &&& after == books
                &&& told == sent(Notice::DiceLose { value: shown as i32, bet })
            }
        }),
{
    broadcast use {lemma_after_all_push, lemma_after_all_concat};

    reveal_with_fuel(after_all, 5);
}

} // verus!
