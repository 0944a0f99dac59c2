use casino_bot::bets::BetError;
use casino_bot::cards::Card;
use casino_bot::hand_rank::HandRank;
use casino_bot::keyboard::{
    bj_keyboard, dice_keyboard, flip_keyboard, keyboard, poker_keyboard, say_label,
};
use casino_bot::locale::{default_text, say_choice, t, Entry, Language, LocaleError, Locales, Message};
use casino_bot::message::{render, Fill, Filling, Piece};
use casino_bot::payload::{
    read_press, write_dice, write_flip, write_hold, BlackjackMove, DiceBet, FlipBet, PokerMove,
    Press, Side,
};
use casino_bot::reply::{
    compose, html, poker_status, say_reply, BlackjackStage, BlackjackTable, Lang, LeaderRow,
    Notice, PokerStage, Reply,
};

const CATALOG: &str = r#"{
    "en": {
        "welcome": "You have {tokens} tokens and owe {debt}.",
        "help": "Help!",
        "lang_set": "English it is.",
        "spin_win": "You won {winnings}!",
        "spin_lose": ["You lost {bet}."],
        "flip_win": "{side}: you won {winnings}!",
        "flip_lose": "{side}: you lost {bet}.",
        "coin_heads": "Heads",
        "coin_tails": "Tails",
        "dice_win": "Right! {winnings}",
        "dice_lose": "It was {value}, {bet} are gone.",
        "networth": "{tokens}/{debt}/{net}",
        "bj_status_hidden": "{p_cards} ({p_score}) vs {d_card} ({d_score})",
        "bj_status_all": "{p_cards} ({p_score}) vs {d_cards} ({d_score})",
        "bj_bust": "Bust, {bet} gone",
        "bj_win": "Won {bet}",
        "bj_push": "Push",
        "bj_lose": "Lost {bet}",
        "bj_btn_hit": "Hit",
        "bj_btn_stand": "Stand",
        "poker_title": "Poker\n",
        "poker_card": "{i}: {card}{held}\n",
        "poker_held": " (held)",
        "poker_prompt": "Choose.",
        "poker_btn_draw": "Draw",
        "poker_win": "{rank} wins {winnings}",
        "poker_lose": "{rank} loses {bet}",
        "rank_two_pair": "Two pair",
        "rank_high_card": "High card",
        "greeting": ["Hello", "Hi", "Hey"],
        "odd": [7, "seven"],
        "empty": [],
        "number": 7
    },
    "uk": { "lang_set": "Українська." }
}"#;

fn catalog() -> Locales {
    Locales::parse(CATALOG).unwrap()
}

fn card(suit: &str, label: &str, weight: i32) -> Card {
    Card { suit: suit.to_string(), label: label.to_string(), weight }
}

fn said(notice: Notice) -> String {
    say_reply(&catalog(), "en", &Reply::Notice(notice))
}

#[test]
fn translations_are_read_from_json() {
    let locales = Locales::parse(r#"{"en": {"b": "B", "a": ["x", 1]}, "de": {"c": null}}"#).unwrap();
    assert_eq!(
        locales,
        Locales {
            languages: vec![
                Language {
                    code: "de".to_string(),
                    entries: vec![Entry { key: "c".to_string(), message: Message::Other }],
                },
                Language {
                    code: "en".to_string(),
                    entries: vec![
                        Entry {
                            key: "a".to_string(),
                            message: Message::Choices(vec![Some("x".to_string()), None]),
                        },
                        Entry { key: "b".to_string(), message: Message::Text("B".to_string()) },
                    ],
                },
            ],
        }
    );
}

#[test]
fn malformed_translations_are_refused() {
    assert_eq!(Locales::parse(""), Err(LocaleError::Malformed));
    assert_eq!(Locales::parse("[]"), Err(LocaleError::Malformed));
    assert_eq!(Locales::parse(r#"{"en": "text"}"#), Err(LocaleError::Malformed));
    assert_eq!(Locales::parse("{}"), Ok(Locales::empty()));
}

#[test]
fn the_last_of_two_equal_keys_counts() {
    let locales = Locales::parse(r#"{"en": {"a": "1", "a": "2"}}"#).unwrap();
    assert_eq!(t(&locales, "en", "a"), "2");
}

#[test]
fn a_text_is_said_as_it_is() {
    assert_eq!(t(&catalog(), "en", "help"), "Help!");
    assert_eq!(t(&catalog(), "uk", "lang_set"), "Українська.");
}

#[test]
fn chance_chooses_among_several_texts() {
    let locales = catalog();
    let mut seen: Vec<String> = Vec::new();
    for _ in 0..1000 {
        let text = t(&locales, "en", "greeting");
        assert!(["Hello", "Hi", "Hey"].contains(&text.as_str()));
        if !seen.contains(&text) {
            seen.push(text);
        }
    }
    assert_eq!(seen.len(), 3);
}

#[test]
fn a_choice_that_is_no_text_is_silent() {
    let locales = catalog();
    for _ in 0..100 {
        let text = t(&locales, "en", "odd");
        assert!(text.is_empty() || text == "seven");
    }
    assert_eq!(say_choice(&None), "");
    assert_eq!(say_choice(&Some("seven".to_string())), "seven");
}

#[test]
fn missing_messages_are_named() {
    let locales = catalog();
    assert_eq!(t(&locales, "en", "nothing"), "<Missing: nothing>");
    assert_eq!(t(&locales, "en", "empty"), "<Missing: empty>");
    assert_eq!(t(&locales, "en", "number"), "<Missing: number>");
    assert_eq!(t(&locales, "fr", "help"), "<Missing: help>");
    assert_eq!(t(&locales, "", "help"), "<Missing: help>");
    assert_eq!(t(&Locales::empty(), "en", "help"), "<Missing: help>");
}

#[test]
fn some_missing_messages_have_a_default() {
    assert_eq!(
        default_text("daily_success"),
        "✅ You claimed your daily reward of 1000 tokens!"
    );
    assert_eq!(
        default_text("daily_wait"),
        "⏳ You must wait {hours}h {mins}m before claiming your next daily bonus."
    );
    assert_eq!(
        default_text("cooldown_active"),
        "⏳ Please slow down! Wait a few seconds between games."
    );
    assert_eq!(
        default_text("bet_out_of_bounds"),
        "⚠️ Bet must be between 10 and 50000 tokens."
    );
    assert_eq!(
        default_text("achievement_unlocked"),
        "🌟 <b>ACHIEVEMENT UNLOCKED: New Personal Best!</b> 🌟\nCongratulations on your biggest win yet!"
    );
    assert_eq!(default_text("top_title"), "🏆 <b>Top 10 Richest Players</b> 🏆");
    assert_eq!(default_text("wrong_user"), "🚫 This isn't your bet!");
    assert_eq!(default_text("flip_prompt"), "🪙 Coin flip for {bet} 🥮 — choose your side!");
    assert_eq!(default_text("dice_prompt"), "🎲 Dice roll for {bet} 🥮 — pick a number!");
    assert_eq!(t(&catalog(), "en", "wrong_user"), "🚫 This isn't your bet!");
}

#[test]
fn slots_are_filled_one_after_the_other() {
    let pieces = vec![
        Piece::Template {
            key: "flip_win",
            fills: vec![
                Fill { slot: "{side}", filling: Filling::Message("coin_heads") },
                Fill { slot: "{winnings}", filling: Filling::Plain("20".to_string()) },
            ],
        },
        Piece::Literal("!".to_string()),
    ];
    assert_eq!(render(&catalog(), "en", &pieces), "Heads: you won 20!!");
}

#[test]
fn notices_are_said() {
    assert_eq!(
        said(Notice::Welcome { tokens: 1000, debt: -5 }),
        "You have 1000 tokens and owe -5."
    );
    assert_eq!(said(Notice::Help), "Help!");
    assert_eq!(said(Notice::LangSet(Lang::En)), "English it is.");
    assert_eq!(said(Notice::LangSet(Lang::Uk)), "Українська.");
    assert_eq!(said(Notice::SetBetUsage), "<Missing: setbet_usage>");
    assert_eq!(said(Notice::BetRefused(BetError::Missing)), "<Missing: missing_bet>");
    assert_eq!(
        said(Notice::BetRefused(BetError::OutOfBounds)),
        "⚠️ Bet must be between 10 and 50000 tokens."
    );
    assert_eq!(said(Notice::BetRefused(BetError::Invalid)), "<Missing: invalid_bet>");
    assert_eq!(
        said(Notice::DailyWait { hours: 3, mins: 4 }),
        "⏳ You must wait 3h 4m before claiming your next daily bonus."
    );
    assert_eq!(
        said(Notice::FaucetRefused),
        "⚠️ The casino is out of funds or you are too rich!"
    );
    assert_eq!(said(Notice::NetWorth { tokens: 7, debt: 5, net: -2 }), "7/5/-2");
    assert_eq!(said(Notice::LoanRefused), "⚠️ Invalid amount.");
    assert_eq!(said(Notice::LoanRepaid { amount: 70 }), "✅ Repaid 70 tokens to the bank.");
    assert_eq!(said(Notice::Rolling), "🎲 Rolling...");
    assert_eq!(said(Notice::WrongUser), "🚫 This isn't your bet!");
    assert_eq!(said(Notice::SpinLose { bet: 10 }), "You lost 10.");
    assert_eq!(said(Notice::SpinWin { winnings: 30, record: false }), "You won 30!");
    assert_eq!(said(Notice::FlipLose { heads: false, bet: 10 }), "Tails: you lost 10.");
    assert_eq!(
        said(Notice::FlipWin { heads: true, winnings: 20, record: false }),
        "Heads: you won 20!"
    );
    assert_eq!(said(Notice::DiceLose { value: 3, bet: 10 }), "It was 3, 10 are gone.");
    assert_eq!(
        said(Notice::FlipPrompt { bet: 10, user: 1 }),
        "🪙 Coin flip for 10 🥮 — choose your side!"
    );
    assert_eq!(
        said(Notice::DicePrompt { bet: 10, user: 1 }),
        "🎲 Dice roll for 10 🥮 — pick a number!"
    );
}

#[test]
fn records_are_celebrated() {
    let note = "\n\n🌟 <b>ACHIEVEMENT UNLOCKED: New Personal Best!</b> 🌟\nCongratulations on your biggest win yet!";
    assert_eq!(
        said(Notice::SpinWin { winnings: 30, record: true }),
        format!("You won 30!{}", note)
    );
    assert_eq!(
        said(Notice::DiceWin { winnings: 50, record: true }),
        format!("Right! 50{}", note)
    );
    assert_eq!(
        said(Notice::FlipWin { heads: false, winnings: 20, record: true }),
        format!("Tails: you won 20!{}", note)
    );
}

#[test]
fn the_leaderboard_names_everyone() {
    let rows = vec![
        LeaderRow { username: Some("ann".to_string()), tokens: Some(50) },
        LeaderRow { username: None, tokens: None },
    ];
    assert_eq!(
        say_reply(&catalog(), "en", &Reply::Leaderboard(rows)),
        "🏆 <b>Top 10 Richest Players</b> 🏆\n\n1. <b>ann</b> - 50 tokens\n2. <b>Anonymous</b> - 0 tokens\n"
    );
    assert_eq!(
        say_reply(&catalog(), "en", &Reply::Leaderboard(Vec::new())),
        "🏆 <b>Top 10 Richest Players</b> 🏆\n\n"
    );
}

fn table(stage: BlackjackStage) -> String {
    let playing = stage == BlackjackStage::Playing;
    let dealer = if playing {
        vec![card("♥️", "9", 9)]
    } else {
        vec![card("♥️", "9", 9), card("♥️", "8", 8)]
    };
    let table = BlackjackTable {
        player: vec![card("♠️", "K", 10), card("♠️", "A", 11)],
        player_score: 21,
        dealer,
        dealer_score: if playing { 9 } else { 17 },
    };
    say_reply(&catalog(), "en", &Reply::Blackjack { table, stage })
}

#[test]
fn a_blackjack_table_is_shown() {
    assert_eq!(
        table(BlackjackStage::Playing),
        "<code>♠️K</code> <code>♠️A</code> (21) vs <code>♥️9</code> (9)"
    );
    let shown = "<code>♠️K</code> <code>♠️A</code> (21) vs <code>♥️9</code> <code>♥️8</code> (17)";
    assert_eq!(table(BlackjackStage::Bust { bet: 10 }), format!("{}\n\nBust, 10 gone", shown));
    assert_eq!(table(BlackjackStage::Lost { bet: 10 }), format!("{}\n\nLost 10", shown));
    assert_eq!(table(BlackjackStage::Pushed), format!("{}\n\nPush", shown));
    assert_eq!(
        table(BlackjackStage::Won { bet: 10, record: false }),
        format!("{}\n\nWon 10", shown)
    );
    assert!(table(BlackjackStage::Won { bet: 10, record: true }).ends_with("biggest win yet!"));
}

fn poker(holds: Vec<bool>, stage: PokerStage) -> String {
    let hand = vec![card("♠️", "K", 10), card("♠️", "2", 2)];
    say_reply(&catalog(), "en", &Reply::Poker { hand, holds, stage })
}

#[test]
fn a_poker_hand_is_shown() {
    assert_eq!(
        poker(vec![false, true], PokerStage::Holding),
        "Poker\n1: <code>♠️K</code>\n2: <code>♠️2</code> (held)\nChoose."
    );
    assert_eq!(
        poker(Vec::new(), PokerStage::Holding),
        "Poker\n1: <code>♠️K</code>\n2: <code>♠️2</code>\nChoose."
    );
    assert_eq!(
        poker(
            vec![false, true],
            PokerStage::Finished { rank: HandRank::TwoPair, bet: 10, winnings: 20, record: false },
        ),
        "Poker\n1: <code>♠️K</code>\n2: <code>♠️2</code>\n\n\nTwo pair wins 20"
    );
    assert_eq!(
        poker(
            vec![false, true],
            PokerStage::Finished { rank: HandRank::HighCard, bet: 10, winnings: 0, record: false },
        ),
        "Poker\n1: <code>♠️K</code>\n2: <code>♠️2</code>\n\n\nHigh card loses 10"
    );
    assert!(poker(
        vec![],
        PokerStage::Finished { rank: HandRank::TwoPair, bet: 10, winnings: 20, record: true },
    )
    .ends_with("biggest win yet!"));
    assert_eq!(poker_status(&Vec::new(), &Vec::new(), true).len(), 1);
}

#[test]
fn some_replies_are_formatted() {
    assert!(html(&Reply::Notice(Notice::Welcome { tokens: 1, debt: 1 })));
    assert!(html(&Reply::Notice(Notice::Help)));
    assert!(html(&Reply::Leaderboard(Vec::new())));
    assert!(html(&Reply::Notice(Notice::NetWorth { tokens: 1, debt: 1, net: 0 })));
    assert!(html(&Reply::Notice(Notice::SpinLose { bet: 1 })));
    assert!(html(&Reply::Notice(Notice::FlipLose { heads: true, bet: 1 })));
    assert!(html(&Reply::Notice(Notice::DiceLose { value: 1, bet: 1 })));
    assert!(!html(&Reply::Notice(Notice::LangSet(Lang::En))));
    assert!(!html(&Reply::Notice(Notice::SetBetSuccess { bet: 1 })));
    assert!(!html(&Reply::Notice(Notice::BetRefused(BetError::Invalid))));
    assert!(!html(&Reply::Notice(Notice::DailySuccess)));
    assert!(!html(&Reply::Notice(Notice::Cooldown)));
    assert!(!html(&Reply::Notice(Notice::FaucetGranted)));
    assert!(!html(&Reply::Notice(Notice::FlipPrompt { bet: 1, user: 1 })));
    assert!(!html(&Reply::Notice(Notice::LoanRepaid { amount: 1 })));
    assert!(!html(&Reply::Notice(Notice::Rolling)));
    assert_eq!(compose(&Reply::Notice(Notice::Help)).len(), 1);
}

#[test]
fn buttons_are_written() {
    assert_eq!(write_flip(true, 100, 42), "flip_h_100_42");
    assert_eq!(write_flip(false, 100, -42), "flip_t_100_-42");
    assert_eq!(write_dice(6, 100, 42), "dice_6_100_42");
    assert_eq!(write_hold(4), "p_hold_4");
}

#[test]
fn pressed_buttons_read_back() {
    for user in [i64::MIN, -1, 0, 42, i64::MAX] {
        for bet in [i32::MIN, 0, 10, 50_000, i32::MAX] {
            assert_eq!(
                read_press(&write_flip(true, bet, user)),
                Press::Flip(Some(FlipBet { side: Side::Heads, bet, user }))
            );
            assert_eq!(
                read_press(&write_flip(false, bet, user)),
                Press::Flip(Some(FlipBet { side: Side::Tails, bet, user }))
            );
            assert_eq!(
                read_press(&write_dice(3, bet, user)),
                Press::Dice(Some(DiceBet { guess: 3, bet, user }))
            );
        }
    }
    assert_eq!(read_press(&write_hold(4)), Press::Poker(PokerMove::Hold(4)));
    assert_eq!(read_press("bj_hit"), Press::Blackjack(BlackjackMove::Hit));
    assert_eq!(read_press("bj_stand"), Press::Blackjack(BlackjackMove::Stand));
    assert_eq!(read_press("p_draw"), Press::Poker(PokerMove::Draw));
}

#[test]
fn odd_presses_are_read_too() {
    assert_eq!(read_press(""), Press::Unknown);
    assert_eq!(read_press("hello"), Press::Unknown);
    assert_eq!(read_press("bj_"), Press::Blackjack(BlackjackMove::Nothing));
    assert_eq!(read_press("bj_double"), Press::Blackjack(BlackjackMove::Nothing));
    assert_eq!(read_press("p_hold_x"), Press::Poker(PokerMove::Nothing));
    assert_eq!(read_press("p_hold_-1"), Press::Poker(PokerMove::Nothing));
    assert_eq!(read_press("p_hold_+1"), Press::Poker(PokerMove::Hold(1)));
    assert_eq!(read_press("p_fold"), Press::Poker(PokerMove::Nothing));
    assert_eq!(read_press("flip_h_10"), Press::Flip(None));
    assert_eq!(read_press("flip_h_10_1_1"), Press::Flip(None));
    assert_eq!(
        read_press("flip_x_y_z"),
        Press::Flip(Some(FlipBet { side: Side::Neither, bet: 0, user: 0 }))
    );
    assert_eq!(read_press("dice_"), Press::Dice(None));
    assert_eq!(
        read_press("dice_a_b_c"),
        Press::Dice(Some(DiceBet { guess: 0, bet: 0, user: 0 }))
    );
}

#[test]
fn keyboards_offer_the_bet() {
    let locales = catalog();
    let flip: Vec<Vec<(String, String)>> = flip_keyboard(100, 42)
        .into_iter()
        .map(|row| row.into_iter().map(|b| say_label(&locales, "en", b)).collect())
        .collect();
    assert_eq!(
        flip,
        vec![vec![
            ("🦅 Heads".to_string(), "flip_h_100_42".to_string()),
            ("🪙 Tails".to_string(), "flip_t_100_42".to_string()),
        ]]
    );
    let dice: Vec<Vec<(String, String)>> = dice_keyboard(100, 42)
        .into_iter()
        .map(|row| row.into_iter().map(|b| say_label(&locales, "en", b)).collect())
        .collect();
    assert_eq!(
        dice,
        vec![
            vec![
                ("⚀ 1".to_string(), "dice_1_100_42".to_string()),
                ("⚁ 2".to_string(), "dice_2_100_42".to_string()),
                ("⚂ 3".to_string(), "dice_3_100_42".to_string()),
            ],
            vec![
                ("⚃ 4".to_string(), "dice_4_100_42".to_string()),
                ("⚄ 5".to_string(), "dice_5_100_42".to_string()),
                ("⚅ 6".to_string(), "dice_6_100_42".to_string()),
            ],
        ]
    );
}

#[test]
fn keyboards_offer_the_moves() {
    let locales = catalog();
    let moves: Vec<(String, String)> = bj_keyboard()
        .into_iter()
        .flatten()
        .map(|b| say_label(&locales, "en", b))
        .collect();
    assert_eq!(
        moves,
        vec![
            ("Hit".to_string(), "bj_hit".to_string()),
            ("Stand".to_string(), "bj_stand".to_string()),
        ]
    );
    let rows = poker_keyboard(&vec![true, false]);
    assert_eq!(rows.len(), 2);
    let holds: Vec<(String, String)> = rows
        .into_iter()
        .flatten()
        .map(|b| say_label(&locales, "en", b))
        .collect();
    assert_eq!(
        holds,
        vec![
            ("🔒 C1".to_string(), "p_hold_0".to_string()),
            ("🔓 C2".to_string(), "p_hold_1".to_string()),
            ("Draw".to_string(), "p_draw".to_string()),
        ]
    );
}

#[test]
fn only_open_offers_have_buttons() {
    assert_eq!(
        keyboard(&Reply::Notice(Notice::FlipPrompt { bet: 10, user: 1 })),
        Some(flip_keyboard(10, 1))
    );
    assert_eq!(
        keyboard(&Reply::Notice(Notice::DicePrompt { bet: 10, user: 1 })),
        Some(dice_keyboard(10, 1))
    );
    assert_eq!(
        keyboard(&Reply::Poker {
            hand: Vec::new(),
            holds: vec![true],
            stage: PokerStage::Holding,
        }),
        Some(poker_keyboard(&vec![true]))
    );
    assert_eq!(
        keyboard(&Reply::Poker {
            hand: Vec::new(),
            holds: vec![true],
            stage: PokerStage::Finished {
                rank: HandRank::HighCard,
                bet: 1,
                winnings: 0,
                record: false,
            },
        }),
        None
    );
    assert_eq!(keyboard(&Reply::Notice(Notice::Help)), None);
}
