use casino_bot::bets::BetError;
use casino_bot::blackjack::bj_score;
use casino_bot::cards::ordered_deck;
use casino_bot::clock::Timestamp;
use casino_bot::conversation::{Conversation, Sender, Stage};
use casino_bot::events::{
    read_command, stats, Command, Event, Game, PlayerRow, PlayerStats,
};
use casino_bot::games::{open_blackjack, open_poker};
use casino_bot::ledger::{Action, LedgerOp, Query};
use casino_bot::reply::{BlackjackStage, Lang, LeaderRow, Notice, PokerStage, Reply};

fn at(secs: i64) -> Timestamp {
    Timestamp { secs, nanos: 0 }
}

fn player(tokens: i32) -> PlayerStats {
    PlayerStats {
        tokens,
        debt: 30,
        lang: "en".to_string(),
        default_bet: 20,
        last_daily: Some(at(1_000)),
        games_played: 4,
        biggest_win: 90,
    }
}

fn say(notice: Notice) -> Action {
    Action::Send(Reply::Notice(notice))
}

fn start(text: &str) -> Conversation {
    let sender = Sender { user_id: 42, username: Some("ann".to_string()) };
    let (conversation, actions) = Conversation::start(Some(sender), Some(text.to_string()));
    assert_eq!(
        actions,
        vec![Action::EnsureUser { user_id: 42, username: "ann".to_string() }]
    );
    conversation
}

fn hear(conversation: &mut Conversation, event: Event) -> Vec<Action> {
    assert!(conversation.accepts(&event));
    conversation.resume(event)
}

fn load(text: &str, tokens: i32) -> (Conversation, Vec<Action>) {
    let mut conversation = start(text);
    assert_eq!(
        hear(&mut conversation, Event::Ensured(true)),
        vec![Action::Ask(Query::Stats)]
    );
    let actions = hear(&mut conversation, Event::Stats(Some(player(tokens))));
    assert_eq!(conversation.lang, "en");
    (conversation, actions)
}

fn bet(text: &str, tokens: i32) -> (Conversation, Vec<Action>) {
    let (mut conversation, actions) = load(text, tokens);
    assert_eq!(actions, vec![Action::Ask(Query::LastAction)]);
    let actions = hear(
        &mut conversation,
        Event::LastAction { now: at(5_000), last: Some(at(4_000)) },
    );
    (conversation, actions)
}

fn open(text: &str, tokens: i32) -> (Conversation, Vec<Action>) {
    let (mut conversation, actions) = bet(text, tokens);
    assert_eq!(
        actions,
        vec![Action::Ledger(LedgerOp::Touch(at(5_000))), Action::Ask(Query::Stats)]
    );
    let actions = hear(&mut conversation, Event::Stats(Some(player(tokens))));
    (conversation, actions)
}

#[test]
fn commands_are_read() {
    assert_eq!(read_command("/start"), Command::Balance);
    assert_eq!(read_command(" /balance now"), Command::Balance);
    assert_eq!(read_command("/help"), Command::Help);
    assert_eq!(read_command("/change_lang uk"), Command::ChangeLang(Lang::Uk));
    assert_eq!(read_command("/change_lang"), Command::ChangeLang(Lang::En));
    assert_eq!(read_command("/change_lang de"), Command::ChangeLang(Lang::En));
    assert_eq!(read_command("/setbet 50"), Command::SetBet(Some(50)));
    assert_eq!(read_command("/setbet x"), Command::SetBet(None));
    assert_eq!(read_command("/setbet"), Command::SetBet(None));
    assert_eq!(read_command("/daily"), Command::Daily);
    assert_eq!(read_command("/top"), Command::Top);
    assert_eq!(read_command("/faucet"), Command::Faucet);
    assert_eq!(read_command("/networth"), Command::NetWorth);
    assert_eq!(
        read_command("/spin 10 20"),
        Command::Play { game: Game::Spin, given: Some(10) }
    );
    assert_eq!(read_command("/flip"), Command::Play { game: Game::Flip, given: None });
    assert_eq!(read_command("/dice x"), Command::Play { game: Game::Dice, given: Some(0) });
    assert_eq!(
        read_command("/blackjack"),
        Command::Play { game: Game::Blackjack, given: None }
    );
    assert_eq!(read_command("/poker"), Command::Play { game: Game::Poker, given: None });
    assert_eq!(read_command("/payloan 5"), Command::PayLoan(5));
    assert_eq!(read_command("/payloan"), Command::PayLoan(0));
    assert_eq!(read_command(""), Command::Unknown);
    assert_eq!(read_command("hello"), Command::Unknown);
    assert_eq!(read_command("/SPIN"), Command::Unknown);
    assert_eq!(read_command("/spin@bot"), Command::Unknown);
}

#[test]
fn a_row_is_read_with_defaults() {
    let row = PlayerRow {
        tokens: None,
        debt: Some(5),
        lang: None,
        default_bet: None,
        last_daily: None,
        games_played: None,
        biggest_win: None,
    };
    assert_eq!(
        stats(row),
        PlayerStats {
            tokens: 0,
            debt: 5,
            lang: "en".to_string(),
            default_bet: 0,
            last_daily: None,
            games_played: 0,
            biggest_win: 0,
        }
    );
    assert_eq!(PlayerStats::default().lang, "");
}

#[test]
fn a_message_without_a_sender_is_ignored() {
    let (conversation, actions) = Conversation::start(None, Some("/spin".to_string()));
    assert_eq!(conversation.stage, Stage::Done);
    assert!(actions.is_empty());
}

#[test]
fn a_sender_without_a_name_is_anonymous() {
    let sender = Sender { user_id: 7, username: None };
    let (mut conversation, actions) = Conversation::start(Some(sender), None);
    assert_eq!(
        actions,
        vec![Action::EnsureUser { user_id: 7, username: "Anonymous".to_string() }]
    );
    assert!(hear(&mut conversation, Event::Ensured(true)).is_empty());
    assert_eq!(conversation.stage, Stage::Done);
}

#[test]
fn without_an_account_nothing_happens() {
    let mut conversation = start("/spin 10");
    assert!(hear(&mut conversation, Event::Ensured(false)).is_empty());
    assert_eq!(conversation.stage, Stage::Done);
}

#[test]
fn the_balance_is_told() {
    let (conversation, actions) = load("/start", 70);
    assert_eq!(actions, vec![say(Notice::Welcome { tokens: 70, debt: 30 })]);
    assert_eq!(conversation.stage, Stage::Done);
}

#[test]
fn an_account_that_cannot_be_read_counts_as_empty() {
    let mut conversation = start("/balance");
    hear(&mut conversation, Event::Ensured(true));
    let actions = hear(&mut conversation, Event::Stats(None));
    assert_eq!(actions, vec![say(Notice::Welcome { tokens: 0, debt: 0 })]);
    assert_eq!(conversation.lang, "");
}

#[test]
fn help_is_given_and_chatter_ignored() {
    assert_eq!(load("/help", 0).1, vec![say(Notice::Help)]);
    assert!(load("hello", 0).1.is_empty());
}

#[test]
fn the_language_is_changed() {
    assert_eq!(
        load("/change_lang uk", 0).1,
        vec![
            Action::Ledger(LedgerOp::SetLang(Lang::Uk)),
            say(Notice::LangSet(Lang::Uk)),
        ]
    );
    assert_eq!(Lang::Uk.code(), "uk");
    assert_eq!(Lang::En.code(), "en");
}

#[test]
fn the_default_bet_is_set_within_the_limits() {
    assert_eq!(
        load("/setbet 10", 0).1,
        vec![
            Action::Ledger(LedgerOp::SetDefaultBet(10)),
            say(Notice::SetBetSuccess { bet: 10 }),
        ]
    );
    assert_eq!(load("/setbet", 0).1, vec![say(Notice::SetBetUsage)]);
    let refused = vec![say(Notice::BetRefused(BetError::OutOfBounds))];
    assert_eq!(load("/setbet 9", 0).1, refused);
    assert_eq!(load("/setbet 50001", 0).1, refused);
    assert_eq!(load("/setbet -3", 0).1, refused);
}

#[test]
fn the_daily_reward_is_claimed_once_a_day() {
    let (mut conversation, actions) = load("/daily", 0);
    assert_eq!(actions, vec![Action::Ask(Query::Clock)]);
    assert_eq!(
        hear(&mut conversation, Event::Clock(at(87_400))),
        vec![
            Action::Ledger(LedgerOp::ClaimDaily { reward: 1_000, at: at(87_400) }),
            say(Notice::DailySuccess),
        ]
    );
    let (mut conversation, _) = load("/daily", 0);
    assert_eq!(
        hear(&mut conversation, Event::Clock(at(87_399))),
        vec![say(Notice::DailyWait { hours: 0, mins: 0 })]
    );
    let (mut conversation, _) = load("/daily", 0);
    assert_eq!(
        hear(&mut conversation, Event::Clock(at(1_000))),
        vec![say(Notice::DailyWait { hours: 24, mins: 0 })]
    );
}

#[test]
fn the_richest_are_listed() {
    let (mut conversation, actions) = load("/top", 0);
    assert_eq!(actions, vec![Action::Ask(Query::Top)]);
    let rows = || vec![LeaderRow { username: None, tokens: Some(3) }];
    assert_eq!(
        hear(&mut conversation, Event::Top(Some(rows()))),
        vec![Action::Send(Reply::Leaderboard(rows()))]
    );
    let (mut conversation, _) = load("/top", 0);
    assert!(hear(&mut conversation, Event::Top(None)).is_empty());
}

#[test]
fn the_faucet_lends_to_the_poor() {
    let granted = vec![
        Action::Ledger(LedgerOp::Borrow(500)),
        Action::Ledger(LedgerOp::CasinoPays(500)),
        say(Notice::FaucetGranted),
    ];
    let refused = vec![say(Notice::FaucetRefused)];
    for (tokens, casino, lent) in [
        (49, Some(500), true),
        (0, Some(1_000_000), true),
        (50, Some(500), false),
        (49, Some(499), false),
        (49, None, false),
    ] {
        let (mut conversation, actions) = load("/faucet", tokens);
        assert_eq!(actions, vec![Action::Ask(Query::Casino)]);
        let actions = hear(&mut conversation, Event::Casino(casino));
        assert_eq!(&actions, if lent { &granted } else { &refused });
    }
}

#[test]
fn loans_are_repaid_from_the_balance() {
    assert_eq!(
        load("/payloan 70", 70).1,
        vec![
            Action::Ledger(LedgerOp::Repay(70)),
            Action::Ledger(LedgerOp::CasinoReceives(70)),
            say(Notice::LoanRepaid { amount: 70 }),
        ]
    );
    for text in ["/payloan 71", "/payloan 0", "/payloan -1", "/payloan", "/payloan all"] {
        assert_eq!(load(text, 70).1, vec![say(Notice::LoanRefused)]);
    }
}

#[test]
fn the_net_worth_is_debt_less_tokens() {
    let (mut conversation, actions) = load("/networth", 0);
    assert_eq!(actions, vec![Action::Ask(Query::Totals)]);
    assert_eq!(
        hear(&mut conversation, Event::Totals(Some((700, 500)))),
        vec![say(Notice::NetWorth { tokens: 700, debt: 500, net: -200 })]
    );
    let (mut conversation, _) = load("/networth", 0);
    assert!(!conversation.accepts(&Event::Totals(Some((i64::MIN, 0)))));
    assert!(conversation.accepts(&Event::Totals(Some((i64::MAX, -1)))));
    assert_eq!(
        hear(&mut conversation, Event::Totals(None)),
        vec![say(Notice::NetWorth { tokens: 0, debt: 0, net: 0 })]
    );
}

#[test]
fn games_keep_their_distance() {
    let (mut conversation, _) = load("/spin 10", 100);
    assert_eq!(
        hear(&mut conversation, Event::LastAction { now: at(5_000), last: Some(at(4_998)) }),
        vec![say(Notice::Cooldown)]
    );
    let (mut conversation, _) = load("/spin 10", 100);
    assert_eq!(
        hear(&mut conversation, Event::LastAction { now: at(5_000), last: Some(at(4_997)) })[0],
        Action::Ledger(LedgerOp::Touch(at(5_000)))
    );
    let (mut conversation, _) = load("/spin 10", 100);
    assert_eq!(
        hear(&mut conversation, Event::LastAction { now: at(5_000), last: None })[0],
        Action::Ledger(LedgerOp::Touch(at(5_000)))
    );
}

#[test]
fn refused_bets_are_named_after_the_pause() {
    for (text, error) in [
        ("/spin 0", BetError::Missing),
        ("/flip x", BetError::Missing),
        ("/dice 9", BetError::OutOfBounds),
        ("/poker 50001", BetError::OutOfBounds),
    ] {
        assert_eq!(
            bet(text, 100).1,
            vec![
                Action::Ledger(LedgerOp::Touch(at(5_000))),
                say(Notice::BetRefused(error)),
            ]
        );
    }
}

#[test]
fn uncovered_bets_cost_nothing() {
    for text in ["/spin 101", "/flip 101", "/dice 101", "/blackjack 101", "/poker 101"] {
        let (conversation, actions) = open(text, 100);
        assert_eq!(actions, vec![say(Notice::BetRefused(BetError::Invalid))]);
        assert_eq!(conversation.stage, Stage::Done);
    }
    let (mut conversation, _) = bet("/spin 10", 100);
    assert_eq!(
        hear(&mut conversation, Event::Stats(None)),
        vec![say(Notice::BetRefused(BetError::Invalid))]
    );
}

#[test]
fn the_slot_machine_is_played() {
    for (value, notice, credit) in [
        (Some(64), Notice::SpinWin { winnings: 1_000, record: true }, Some((1_000, true))),
        (Some(22), Notice::SpinWin { winnings: 300, record: true }, Some((300, true))),
        (Some(2), Notice::SpinLose { bet: 100 }, None),
        (None, Notice::SpinLose { bet: 100 }, None),
    ] {
        let (mut conversation, actions) = open("/spin 100", 100);
        assert_eq!(
            actions,
            vec![
                Action::Ledger(LedgerOp::Charge(100)),
                Action::Ledger(LedgerOp::CountGame),
                Action::Ask(Query::Slots),
            ]
        );
        let mut expected: Vec<Action> = Vec::new();
        if let Some((amount, record)) = credit {
            expected.push(Action::Ledger(LedgerOp::Credit { amount, record }));
        }
        expected.push(Action::Wait(2));
        expected.push(say(notice));
        assert_eq!(hear(&mut conversation, Event::Rolled(value)), expected);
        assert_eq!(conversation.stage, Stage::Done);
    }
}

#[test]
fn a_small_win_is_no_record() {
    let (mut conversation, _) = open("/spin 20", 100);
    assert_eq!(
        hear(&mut conversation, Event::Rolled(Some(1)))[0],
        Action::Ledger(LedgerOp::Credit { amount: 60, record: false })
    );
}

#[test]
fn the_default_bet_stands_in() {
    assert_eq!(open("/flip", 100).1, vec![say(Notice::FlipPrompt { bet: 20, user: 42 })]);
    assert_eq!(open("/dice", 100).1, vec![say(Notice::DicePrompt { bet: 20, user: 42 })]);
}

#[test]
fn card_games_are_dealt_from_the_deck() {
    let (mut conversation, _) = bet("/blackjack 30", 100);
    let actions = conversation.resume_with(Event::Stats(Some(player(100))), ordered_deck());
    assert_eq!(actions, open_blackjack(30, ordered_deck()));
    let (mut conversation, _) = bet("/poker 30", 100);
    let actions = conversation.resume_with(Event::Stats(Some(player(100))), ordered_deck());
    assert_eq!(actions, open_poker(30, ordered_deck()));
}

#[test]
fn blackjack_is_opened_with_a_new_deck() {
    let (_, actions) = open("/blackjack 30", 100);
    assert_eq!(actions.len(), 4);
    assert_eq!(actions[0], Action::Ledger(LedgerOp::Charge(30)));
    assert_eq!(actions[1], Action::Ledger(LedgerOp::CountGame));
    match (&actions[2], &actions[3]) {
        (
            Action::SaveBlackjack(game),
            Action::Send(Reply::Blackjack { table, stage: BlackjackStage::Playing }),
        ) => {
            assert_eq!(game.deck.len(), 48);
            assert_eq!(table.player, game.player);
            assert_eq!(table.player_score, bj_score(&game.player));
            assert_eq!(table.dealer[0], game.dealer[0]);
            assert_eq!(table.dealer.len(), 1);
        }
        _ => panic!("no game"),
    }
}

#[test]
fn poker_is_opened_with_a_new_deck() {
    let (_, actions) = open("/poker 30", 100);
    match (&actions[2], &actions[3]) {
        (
            Action::SavePoker(game),
            Action::Send(Reply::Poker { hand, holds, stage: PokerStage::Holding }),
        ) => {
            assert_eq!(game.deck.len(), 47);
            assert_eq!(&game.hand, hand);
            assert_eq!(&game.holds, holds);
        }
        _ => panic!("no game"),
    }
}

#[test]
fn an_answer_out_of_place_ends_the_matter() {
    let (mut conversation, _) = load("/faucet", 0);
    assert!(hear(&mut conversation, Event::Ensured(true)).is_empty());
    assert_eq!(conversation.stage, Stage::Done);
    assert!(hear(&mut conversation, Event::Casino(Some(1_000))).is_empty());
}

#[test]
fn moments_outside_the_calendar_are_noticed() {
    let beyond = Timestamp { secs: i64::MAX, nanos: 0 };
    let (conversation, _) = load("/daily", 0);
    assert!(!conversation.accepts(&Event::Clock(beyond)));
    let (conversation, _) = load("/spin 10", 0);
    assert!(!conversation.accepts(&Event::LastAction { now: beyond, last: None }));
    assert!(!conversation.accepts(&Event::LastAction { now: at(0), last: Some(beyond) }));
    let mut conversation = start("/daily");
    hear(&mut conversation, Event::Ensured(true));
    let mut odd = player(0);
    odd.last_daily = Some(beyond);
    assert!(!conversation.accepts(&Event::Stats(Some(odd))));
}
