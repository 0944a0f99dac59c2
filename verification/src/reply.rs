//! What the bot says: each reply, its text and its buttons.

use vstd::prelude::*;

use crate::bets::BetError;
use crate::cards::{card_str, card_text, cards, Card, CardView};
use crate::hand_rank::{rank_key_of, HandRank};
use crate::locale::Locales;
use crate::message::{
    fill_views, pieces, render, renders, Fill, FillView, Filling, FillingView, Piece, PieceView,
};
use crate::text::{decimal, join, joined, show_i64, show_u64, texts};

verus! {

/// The languages that a player can choose.
#[derive(Clone, Copy, Debug, PartialEq, Eq, Structural)]
pub enum Lang {
    En,
    Uk,
}

/// The code of a language.
pub open spec fn lang_code(lang: Lang) -> Seq<char> {
    match lang {
        Lang::En => "en"@,
        Lang::Uk => "uk"@,
    }
}

impl Lang {
    /// The code of the language.
    pub fn code(self) -> (code: &'static str)
        ensures
            code@ == lang_code(self),
    {
        match self {
            Lang::En => "en",
            Lang::Uk => "uk",
        }
    }
}

/// A reply that shows no cards and no names.
#[derive(Clone, Copy, Debug, PartialEq, Eq, Structural)]
pub enum Notice {
    Welcome { tokens: i32, debt: i32 },
    Help,
    LangSet(Lang),
    SetBetUsage,
    SetBetSuccess { bet: i32 },
    BetRefused(BetError),
    DailySuccess,
    DailyWait { hours: i64, mins: i64 },
    FaucetGranted,
    FaucetRefused,
    NetWorth { tokens: i64, debt: i64, net: i64 },
    Cooldown,
    SpinWin { winnings: i32, record: bool },
    SpinLose { bet: i32 },
    FlipPrompt { bet: i32, user: i64 },
    DicePrompt { bet: i32, user: i64 },
    LoanRefused,
    LoanRepaid { amount: i32 },
    WrongUser,
    FlipWin { heads: bool, winnings: i32, record: bool },
    FlipLose { heads: bool, bet: i32 },
    Rolling,
    DiceWin { winnings: i32, record: bool },
    DiceLose { value: i32, bet: i32 },
}

/// A row of the leaderboard as it was read.
#[derive(Debug, PartialEq, Eq)]
pub struct LeaderRow {
    pub username: Option<String>,
    pub tokens: Option<i32>,
}

/// A row of the leaderboard as it is shown.
pub struct LeaderView {
    pub username: Seq<char>,
    pub tokens: i32,
}

impl View for LeaderRow {
    type V = LeaderView;

    open spec fn view(&self) -> LeaderView {
        LeaderView {
            username: match self.username {
                Some(s) => s@,
                None => "Anonymous"@,
            },
            tokens: match self.tokens {
                Some(n) => n,
                None => 0,
            },
        }
    }
}

/// The rows of a leaderboard as they are shown.
pub open spec fn leader_views(rows: Seq<LeaderRow>) -> Seq<LeaderView> {
    rows.map_values(|r: LeaderRow| r@)
}

/// A blackjack table as the player sees it: the player's cards and score, and of the
/// dealer's cards those that are shown, with their score.
#[derive(Debug, PartialEq, Eq)]
pub struct BlackjackTable {
    pub player: Vec<Card>,
    pub player_score: i32,
    pub dealer: Vec<Card>,
    pub dealer_score: i32,
}

/// A blackjack table as a mathematical value.
#[verifier::ext_equal]
pub struct BlackjackTableView {
    pub player: Seq<CardView>,
    pub player_score: i32,
    pub dealer: Seq<CardView>,
    pub dealer_score: i32,
}

impl View for BlackjackTable {
    type V = BlackjackTableView;

    open spec fn view(&self) -> BlackjackTableView {
        BlackjackTableView {
            player: cards(self.player@),
            player_score: self.player_score,
            dealer: cards(self.dealer@),
            dealer_score: self.dealer_score,
        }
    }
}

/// How far a game of blackjack is.
#[derive(Clone, Copy, Debug, PartialEq, Eq, Structural)]
pub enum BlackjackStage {
    Playing,
    Bust { bet: i32 },
    Won { bet: i32, record: bool },
    Pushed,
    Lost { bet: i32 },
}

/// How far a game of poker is.
#[derive(Clone, Copy, Debug, PartialEq, Eq, Structural)]
pub enum PokerStage {
    Holding,
    Finished { rank: HandRank, bet: i32, winnings: i32, record: bool },
}

/// Anything that the bot says.
#[derive(Debug, PartialEq, Eq)]
pub enum Reply {
    Notice(Notice),
    Leaderboard(Vec<LeaderRow>),
    Blackjack { table: BlackjackTable, stage: BlackjackStage },
    Poker { hand: Vec<Card>, holds: Vec<bool>, stage: PokerStage },
}

/// A reply as a mathematical value.
#[verifier::ext_equal]
pub enum ReplyView {
    Notice(Notice),
    Leaderboard(Seq<LeaderView>),
    Blackjack { table: BlackjackTableView, stage: BlackjackStage },
    Poker { hand: Seq<CardView>, holds: Seq<bool>, stage: PokerStage },
}

impl View for Reply {
    type V = ReplyView;

    open spec fn view(&self) -> ReplyView {
        match self {
            Reply::Notice(n) => ReplyView::Notice(*n),
            Reply::Leaderboard(rows) => ReplyView::Leaderboard(leader_views(rows@)),
            Reply::Blackjack { table, stage } => ReplyView::Blackjack {
                table: table@,
                stage: *stage,
            },
            Reply::Poker { hand, holds, stage } => ReplyView::Poker {
                hand: cards(hand@),
                holds: holds@,
                stage: *stage,
            },
        }
    }
}

// ---------- Building blocks ----------

/// A message without slots.
pub open spec fn say(key: Seq<char>) -> PieceView {
    PieceView::Template { key, fills: Seq::empty() }
}

/// A message with its slots filled.
pub open spec fn tell(key: Seq<char>, fills: Seq<FillView>) -> PieceView {
    PieceView::Template { key, fills }
}

/// A slot filled with a text.
pub open spec fn put(slot: Seq<char>, text: Seq<char>) -> FillView {
    FillView { slot, filling: FillingView::Plain(text) }
}

/// A slot filled with a number.
pub open spec fn put_number(slot: Seq<char>, n: int) -> FillView {
    put(slot, decimal(n))
}

/// A slot filled with a message.
pub open spec fn put_message(slot: Seq<char>, key: Seq<char>) -> FillView {
    FillView { slot, filling: FillingView::Message(key) }
}

/// An empty line, between two messages.
pub open spec fn gap() -> PieceView {
    PieceView::Literal("\n\n"@)
}

/// What is added when a win is the player's biggest so far.
pub open spec fn record_note(record: bool) -> Seq<PieceView> {
    if record {
        seq![gap(), say("achievement_unlocked"@)]
    } else {
        Seq::empty()
    }
}

fn message(key: &'static str) -> (p: Piece)
    ensures
        p@ == say(key@),
{
    let p = Piece::Template { key, fills: Vec::new() };
    proof {
        assert(fill_views(Seq::<Fill>::empty()) =~= Seq::<FillView>::empty());
    }
    p
}

fn with_fills(key: &'static str, fills: Vec<Fill>) -> (p: Piece)
    ensures
        p@ == tell(key@, fill_views(fills@)),
{
    Piece::Template { key, fills }
}

fn with_one(key: &'static str, a: Fill) -> (p: Piece)
    ensures
        p@ == tell(key@, seq![a@]),
{
    let mut fills: Vec<Fill> = Vec::new();
    fills.push(a);
    proof {
        assert(fill_views(fills@) =~= seq![a@]);
    }
    with_fills(key, fills)
}

fn with_two(key: &'static str, a: Fill, b: Fill) -> (p: Piece)
    ensures
        p@ == tell(key@, seq![a@, b@]),
{
    let mut fills: Vec<Fill> = Vec::new();
    fills.push(a);
    fills.push(b);
    proof {
        assert(fill_views(fills@) =~= seq![a@, b@]);
    }
    with_fills(key, fills)
}

fn with_three(key: &'static str, a: Fill, b: Fill, c: Fill) -> (p: Piece)
    ensures
        p@ == tell(key@, seq![a@, b@, c@]),
{
    let mut fills: Vec<Fill> = Vec::new();
    fills.push(a);
    fills.push(b);
    fills.push(c);
    proof {
        assert(fill_views(fills@) =~= seq![a@, b@, c@]);
    }
    with_fills(key, fills)
}

fn plain(slot: &'static str, s: String) -> (f: Fill)
    ensures
        f@ == put(slot@, s@),
{
    Fill { slot, filling: Filling::Plain(s) }
}

fn number(slot: &'static str, n: i64) -> (f: Fill)
    ensures
        f@ == put_number(slot@, n as int),
{
    plain(slot, show_i64(n))
}

fn nested(slot: &'static str, key: &'static str) -> (f: Fill)
    ensures
        f@ == put_message(slot@, key@),
{
    Fill { slot, filling: Filling::Message(key) }
}

fn literal(s: &str) -> (p: Piece)
    ensures
        p@ == PieceView::Literal(s@),
{
    Piece::Literal(s.to_owned())
}

fn single(p: Piece) -> (list: Vec<Piece>)
    ensures
        pieces(list@) == seq![p@],
{
    let mut list: Vec<Piece> = Vec::new();
    list.push(p);
    proof {
        assert(pieces(list@) =~= seq![p@]);
    }
    list
}

fn add_piece(list: &mut Vec<Piece>, p: Piece)
    ensures
        pieces(final(list)@) == pieces(old(list)@).push(p@),
{
    let ghost before = list@;
    list.push(p);
    proof {
        assert(pieces(list@) =~= pieces(before).push(p@));
    }
}

fn add_record(list: &mut Vec<Piece>, record: bool)
    ensures
        pieces(final(list)@) == pieces(old(list)@) + record_note(record),
{
    let ghost before = pieces(list@);
    if record {
        list.push(literal("\n\n"));
        list.push(message("achievement_unlocked"));
    }
    proof {
        assert(pieces(list@) =~= before + record_note(record));
    }
}

// ---------- Texts ----------

/// The key of the message that refuses a bet.
pub open spec fn refusal_key(error: BetError) -> Seq<char> {
    match error {
        BetError::Missing => "missing_bet"@,
        BetError::OutOfBounds => "bet_out_of_bounds"@,
        BetError::Invalid => "invalid_bet"@,
    }
}

/// The key of the message that names a side of the coin.
pub open spec fn side_key(heads: bool) -> Seq<char> {
    if heads {
        "coin_heads"@
    } else {
        "coin_tails"@
    }
}

/// The text of a notice.
pub open spec fn notice_text(notice: Notice) -> Seq<PieceView> {
    match notice {
        Notice::Welcome { tokens, debt } => seq![
            tell(
                "welcome"@,
                seq![put_number("{tokens}"@, tokens as int), put_number("{debt}"@, debt as int)],
            ),
        ],
        Notice::Help => seq![say("help"@)],
        Notice::LangSet(_) => seq![say("lang_set"@)],
        Notice::SetBetUsage => seq![say("setbet_usage"@)],
        Notice::SetBetSuccess { bet } => seq![
            tell("setbet_success"@, seq![put_number("{bet}"@, bet as int)]),
        ],
        Notice::BetRefused(error) => seq![say(refusal_key(error))],
        Notice::DailySuccess => seq![say("daily_success"@)],
        Notice::DailyWait { hours, mins } => seq![
            tell(
                "daily_wait"@,
                seq![put_number("{hours}"@, hours as int), put_number("{mins}"@, mins as int)],
            ),
        ],
        Notice::FaucetGranted => seq![say("faucet_granted"@)],
        Notice::FaucetRefused => seq![
            PieceView::Literal("⚠️ The casino is out of funds or you are too rich!"@),
        ],
        Notice::NetWorth { tokens, debt, net } => seq![
            tell(
                "networth"@,
                seq![
                    put_number("{tokens}"@, tokens as int),
                    put_number("{debt}"@, debt as int),
                    put_number("{net}"@, net as int),
                ],
            ),
        ],
        Notice::Cooldown => seq![say("cooldown_active"@)],
        Notice::SpinWin { winnings, record } => seq![
            tell("spin_win"@, seq![put_number("{winnings}"@, winnings as int)]),
        ] + record_note(record),
        Notice::SpinLose { bet } => seq![
            tell("spin_lose"@, seq![put_number("{bet}"@, bet as int)]),
        ],
        Notice::FlipPrompt { bet, user: _ } => seq![
            tell("flip_prompt"@, seq![put_number("{bet}"@, bet as int)]),
        ],
        Notice::DicePrompt { bet, user: _ } => seq![
            tell("dice_prompt"@, seq![put_number("{bet}"@, bet as int)]),
        ],
        Notice::LoanRefused => seq![PieceView::Literal("⚠️ Invalid amount."@)],
        Notice::LoanRepaid { amount } => seq![
            PieceView::Literal(
                "✅ Repaid "@ + decimal(amount as int) + " tokens to the bank."@,
            ),
        ],
        Notice::WrongUser => seq![say("wrong_user"@)],
        Notice::FlipWin { heads, winnings, record } => seq![
            tell(
                "flip_win"@,
                seq![
                    put_message("{side}"@, side_key(heads)),
                    put_number("{winnings}"@, winnings as int),
                ],
            ),
        ] + record_note(record),
        Notice::FlipLose { heads, bet } => seq![
            tell(
                "flip_lose"@,
                seq![put_message("{side}"@, side_key(heads)), put_number("{bet}"@, bet as int)],
            ),
        ],
        Notice::Rolling => seq![PieceView::Literal("🎲 Rolling..."@)],
        Notice::DiceWin { winnings, record } => seq![
            tell("dice_win"@, seq![put_number("{winnings}"@, winnings as int)]),
        ] + record_note(record),
        Notice::DiceLose { value, bet } => seq![
            tell(
                "dice_lose"@,
                seq![put_number("{value}"@, value as int), put_number("{bet}"@, bet as int)],
            ),
        ],
    }
}

fn side_message(heads: bool) -> (key: &'static str)
    ensures
        key@ == side_key(heads),
{
    if heads {
        "coin_heads"
    } else {
        "coin_tails"
    }
}

fn compose_notice(notice: Notice) -> (list: Vec<Piece>)
    ensures
        pieces(list@) == notice_text(notice),
{
    let mut record_won: bool = false;
    let piece = match notice {
        Notice::Welcome { tokens, debt } => with_two(
            "welcome",
            number("{tokens}", tokens as i64),
            number("{debt}", debt as i64),
        ),
        Notice::Help => message("help"),
        Notice::LangSet(_) => message("lang_set"),
        Notice::SetBetUsage => message("setbet_usage"),
        Notice::SetBetSuccess { bet } => with_one("setbet_success", number("{bet}", bet as i64)),
        Notice::BetRefused(BetError::Missing) => message("missing_bet"),
        Notice::BetRefused(BetError::OutOfBounds) => message("bet_out_of_bounds"),
        Notice::BetRefused(BetError::Invalid) => message("invalid_bet"),
        Notice::DailySuccess => message("daily_success"),
        Notice::DailyWait { hours, mins } => with_two(
            "daily_wait",
            number("{hours}", hours),
            number("{mins}", mins),
        ),
        Notice::FaucetGranted => message("faucet_granted"),
        Notice::FaucetRefused => literal("⚠️ The casino is out of funds or you are too rich!"),
        Notice::NetWorth { tokens, debt, net } => with_three(
            "networth",
            number("{tokens}", tokens),
            number("{debt}", debt),
            number("{net}", net),
        ),
        Notice::Cooldown => message("cooldown_active"),
        Notice::SpinWin { winnings, record } => {
            record_won = record;
            with_one("spin_win", number("{winnings}", winnings as i64))
        },
        Notice::SpinLose { bet } => with_one("spin_lose", number("{bet}", bet as i64)),
        Notice::FlipPrompt { bet, user: _ } => with_one("flip_prompt", number("{bet}", bet as i64)),
        Notice::DicePrompt { bet, user: _ } => with_one("dice_prompt", number("{bet}", bet as i64)),
        Notice::LoanRefused => literal("⚠️ Invalid amount."),
        Notice::LoanRepaid { amount } => {
            let mut line = "✅ Repaid ".to_owned();
            line.append(show_i64(amount as i64).as_str());
            line.append(" tokens to the bank.");
            literal(line.as_str())
        },
        Notice::WrongUser => message("wrong_user"),
        Notice::FlipWin { heads, winnings, record } => {
            record_won = record;
            with_two(
                "flip_win",
                nested("{side}", side_message(heads)),
                number("{winnings}", winnings as i64),
            )
        },
        Notice::FlipLose { heads, bet } => with_two(
            "flip_lose",
            nested("{side}", side_message(heads)),
            number("{bet}", bet as i64),
        ),
        Notice::Rolling => literal("🎲 Rolling..."),
        Notice::DiceWin { winnings, record } => {
            record_won = record;
            with_one("dice_win", number("{winnings}", winnings as i64))
        },
        Notice::DiceLose { value, bet } => with_two(
            "dice_lose",
            number("{value}", value as i64),
            number("{bet}", bet as i64),
        ),
    };
    let mut list = single(piece);
    add_record(&mut list, record_won);
    proof {
        assert(pieces(list@) =~= notice_text(notice));
    }
    list
}

/// A line of the leaderboard.
pub open spec fn leader_line(place: int, row: LeaderView) -> PieceView {
    PieceView::Literal(
        decimal(place) + ". <b>"@ + row.username + "</b> - "@ + decimal(row.tokens as int)
            + " tokens\n"@,
    )
}

/// The text of the leaderboard: the title, an empty line, and one line for each
/// player, numbered from one.
pub open spec fn leaderboard_text(rows: Seq<LeaderView>) -> Seq<PieceView> {
    seq![say("top_title"@), gap()] + Seq::new(rows.len(), |i: int| leader_line(i + 1, rows[i]))
}

fn compose_leaderboard(rows: &Vec<LeaderRow>) -> (list: Vec<Piece>)
    ensures
        pieces(list@) == leaderboard_text(leader_views(rows@)),
{
    let ghost views = leader_views(rows@);
    let mut list = single(message("top_title"));
    add_piece(&mut list, literal("\n\n"));
    let mut i: usize = 0;
    proof {
        assert(pieces(list@) =~= leaderboard_text(views).take(2));
    }
    while i < rows.len()
        invariant
            i <= rows.len(),
            views == leader_views(rows@),
            pieces(list@) == leaderboard_text(views).take(2 + i),
        decreases rows@.len() - i,
    {
        let mut line = show_u64(i as u64 + 1);
        line.append(". <b>");
        match &rows[i].username {
            Some(name) => line.append(name.as_str()),
            None => line.append("Anonymous"),
        }
        line.append("</b> - ");
        let tokens: i32 = match rows[i].tokens {
            Some(n) => n,
            None => 0,
        };
        line.append(show_i64(tokens as i64).as_str());
        line.append(" tokens\n");
        let ghost shown = line@;
        add_piece(&mut list, Piece::Literal(line));
        proof {
            assert(views[i as int] == rows@[i as int]@);
            assert(PieceView::Literal(shown) == leader_line(i + 1, views[i as int]));
            assert(leaderboard_text(views).take(2 + i + 1) =~= leaderboard_text(views).take(
                2 + i,
            ).push(leader_line(i + 1, views[i as int])));
        }
        i = i + 1;
    }
    proof {
        assert(leaderboard_text(views).take(2 + i) =~= leaderboard_text(views));
    }
    list
}

/// Cards as they are shown, next to each other.
pub open spec fn card_row(list: Seq<CardView>) -> Seq<char> {
    joined(list.map_values(|c: CardView| card_text(c)), " "@)
}

fn show_cards(list: &Vec<Card>) -> (row: String)
    ensures
        row@ == card_row(cards(list@)),
{
    let mut shown: Vec<String> = Vec::new();
    let mut i: usize = 0;
    while i < list.len()
        invariant
            i <= list@.len(),
            shown@.len() == i,
            forall|k: int| 0 <= k < i ==> (#[trigger] shown@[k])@ == card_text(list@[k]@),
        decreases list@.len() - i,
    {
        shown.push(card_str(&list[i]));
        i = i + 1;
    }
    proof {
        assert(texts(shown@) =~= cards(list@).map_values(|c: CardView| card_text(c)));
    }
    join(&shown, " ")
}

/// The blackjack table in words: with the dealer's first card only while the game
/// is on, and with all cards afterwards.
pub open spec fn bj_status_text(table: BlackjackTableView, show_all: bool) -> PieceView {
    let player = seq![
        put("{p_cards}"@, card_row(table.player)),
        put_number("{p_score}"@, table.player_score as int),
    ];
    if show_all {
        tell(
            "bj_status_all"@,
            player + seq![
                put("{d_cards}"@, card_row(table.dealer)),
                put_number("{d_score}"@, table.dealer_score as int),
            ],
        )
    } else {
        tell(
            "bj_status_hidden"@,
            player + seq![
                put("{d_card}"@, card_row(table.dealer)),
                put_number("{d_score}"@, table.dealer_score as int),
            ],
        )
    }
}

fn compose_table(table: &BlackjackTable, show_all: bool) -> (p: Piece)
    ensures
        p@ == bj_status_text(table@, show_all),
{
    let mut fills: Vec<Fill> = Vec::new();
    fills.push(plain("{p_cards}", show_cards(&table.player)));
    fills.push(number("{p_score}", table.player_score as i64));
    if show_all {
        fills.push(plain("{d_cards}", show_cards(&table.dealer)));
    } else {
        fills.push(plain("{d_card}", show_cards(&table.dealer)));
    }
    fills.push(number("{d_score}", table.dealer_score as i64));
    proof {
        assert(fill_views(fills@) =~= bj_status_text(table@, show_all)->fills);
    }
    if show_all {
        with_fills("bj_status_all", fills)
    } else {
        with_fills("bj_status_hidden", fills)
    }
}

/// The text of a blackjack reply: the table, and how the game ended once it has.
pub open spec fn blackjack_text(table: BlackjackTableView, stage: BlackjackStage) -> Seq<PieceView> {
    match stage {
        BlackjackStage::Playing => seq![bj_status_text(table, false)],
        BlackjackStage::Bust { bet } => seq![
            bj_status_text(table, true),
            gap(),
            tell("bj_bust"@, seq![put_number("{bet}"@, bet as int)]),
        ],
        BlackjackStage::Won { bet, record } => seq![
            bj_status_text(table, true),
            gap(),
            tell("bj_win"@, seq![put_number("{bet}"@, bet as int)]),
        ] + record_note(record),
        BlackjackStage::Pushed => seq![bj_status_text(table, true), gap(), say("bj_push"@)],
        BlackjackStage::Lost { bet } => seq![
            bj_status_text(table, true),
            gap(),
            tell("bj_lose"@, seq![put_number("{bet}"@, bet as int)]),
        ],
    }
}

fn compose_blackjack(table: &BlackjackTable, stage: BlackjackStage) -> (list: Vec<Piece>)
    ensures
        pieces(list@) == blackjack_text(table@, stage),
{
    let list = match stage {
        BlackjackStage::Playing => single(compose_table(table, false)),
        BlackjackStage::Bust { bet } => {
            let mut list = single(compose_table(table, true));
            add_piece(&mut list, literal("\n\n"));
            add_piece(&mut list, with_one("bj_bust", number("{bet}", bet as i64)));
            list
        },
        BlackjackStage::Won { bet, record } => {
            let mut list = single(compose_table(table, true));
            add_piece(&mut list, literal("\n\n"));
            add_piece(&mut list, with_one("bj_win", number("{bet}", bet as i64)));
            add_record(&mut list, record);
            list
        },
        BlackjackStage::Pushed => {
            let mut list = single(compose_table(table, true));
            add_piece(&mut list, literal("\n\n"));
            add_piece(&mut list, message("bj_push"));
            list
        },
        BlackjackStage::Lost { bet } => {
            let mut list = single(compose_table(table, true));
            add_piece(&mut list, literal("\n\n"));
            add_piece(&mut list, with_one("bj_lose", number("{bet}", bet as i64)));
            list
        },
    };
    proof {
        assert(pieces(list@) =~= blackjack_text(table@, stage));
    }
    list
}

/// Whether a card is marked as held.
pub open spec fn is_held(holds: Seq<bool>, i: int) -> bool {
    0 <= i < holds.len() && holds[i]
}

/// The line of a poker hand for one card.
pub open spec fn poker_line(i: int, card: CardView, held: bool) -> PieceView {
    tell(
        "poker_card"@,
        seq![
            put_number("{i}"@, i + 1),
            put("{card}"@, card_text(card)),
            if held {
                put_message("{held}"@, "poker_held"@)
            } else {
                put("{held}"@, ""@)
            },
        ],
    )
}

/// The poker hand in words: a title, a line for each card, and while the game is on
/// the marks of the held cards and a prompt.
pub open spec fn poker_status_text(
    hand: Seq<CardView>,
    holds: Seq<bool>,
    finished: bool,
) -> Seq<PieceView> {
    seq![say("poker_title"@)] + Seq::new(
        hand.len(),
        |i: int| poker_line(i, hand[i], is_held(holds, i) && !finished),
    ) + if finished {
        Seq::empty()
    } else {
        seq![say("poker_prompt"@)]
    }
}

/// Puts the poker hand into words.
pub fn poker_status(hand: &Vec<Card>, holds: &Vec<bool>, finished: bool) -> (list: Vec<Piece>)
    ensures
        pieces(list@) == poker_status_text(cards(hand@), holds@, finished),
{
    let ghost all = poker_status_text(cards(hand@), holds@, finished);
    let mut list = single(message("poker_title"));
    let mut i: usize = 0;
    proof {
        assert(pieces(list@) =~= all.take(1));
    }
    while i < hand.len()
        invariant
            i <= hand.len(),
            all == poker_status_text(cards(hand@), holds@, finished),
            pieces(list@) == all.take(1 + i),
        decreases hand@.len() - i,
    {
        let held: bool = i < holds.len() && holds[i] && !finished;
        let mark = if held {
            nested("{held}", "poker_held")
        } else {
            plain("{held}", "".to_owned())
        };
        let line = with_three(
            "poker_card",
            number_u64("{i}", i as u64 + 1),
            plain("{card}", card_str(&hand[i])),
            mark,
        );
        let ghost shown = line@;
        add_piece(&mut list, line);
        proof {
            assert(cards(hand@)[i as int] == hand@[i as int]@);
            assert(shown == poker_line(i as int, cards(hand@)[i as int], held));
            assert(all[1 + i] == shown);
            assert(all.take(1 + i + 1) =~= all.take(1 + i).push(shown));
        }
        i = i + 1;
    }
    if !finished {
        add_piece(&mut list, message("poker_prompt"));
    }
    proof {
        assert(pieces(list@) =~= all);
    }
    list
}

fn number_u64(slot: &'static str, n: u64) -> (f: Fill)
    ensures
        f@ == put_number(slot@, n as int),
{
    plain(slot, show_u64(n))
}

/// How a game of poker ended, in words.
pub open spec fn poker_result_text(
    rank: HandRank,
    bet: i32,
    winnings: i32,
    record: bool,
) -> Seq<PieceView> {
    if winnings > 0 {
        seq![
            gap(),
            tell(
                "poker_win"@,
                seq![
                    put_message("{rank}"@, rank_key_of(rank)),
                    put_number("{winnings}"@, winnings as int),
                ],
            ),
        ] + record_note(record)
    } else {
        seq![
            gap(),
            tell(
                "poker_lose"@,
                seq![
                    put_message("{rank}"@, rank_key_of(rank)),
                    put_number("{bet}"@, bet as int),
                ],
            ),
        ]
    }
}

/// The text of a poker reply: the hand, and how the game ended once it has.
pub open spec fn poker_text(hand: Seq<CardView>, holds: Seq<bool>, stage: PokerStage) -> Seq<
    PieceView,
> {
    match stage {
        PokerStage::Holding => poker_status_text(hand, holds, false),
        PokerStage::Finished { rank, bet, winnings, record } => poker_status_text(hand, holds, true)
            + poker_result_text(rank, bet, winnings, record),
    }
}

fn compose_poker(hand: &Vec<Card>, holds: &Vec<bool>, stage: PokerStage) -> (list: Vec<Piece>)
    ensures
        pieces(list@) == poker_text(cards(hand@), holds@, stage),
{
    match stage {
        PokerStage::Holding => poker_status(hand, holds, false),
        PokerStage::Finished { rank, bet, winnings, record } => {
            let mut list = poker_status(hand, holds, true);
            let ghost status = pieces(list@);
            add_piece(&mut list, literal("\n\n"));
            if winnings > 0 {
                add_piece(
                    &mut list,
                    with_two(
                        "poker_win",
                        nested("{rank}", rank.key()),
                        number("{winnings}", winnings as i64),
                    ),
                );
                add_record(&mut list, record);
            } else {
                add_piece(
                    &mut list,
                    with_two(
                        "poker_lose",
                        nested("{rank}", rank.key()),
                        number("{bet}", bet as i64),
                    ),
                );
            }
            proof {
                assert(pieces(list@) =~= status + poker_result_text(rank, bet, winnings, record));
            }
            list
        },
    }
}

/// The text of a reply.
pub open spec fn reply_text(reply: ReplyView) -> Seq<PieceView> {
    match reply {
        ReplyView::Notice(n) => notice_text(n),
        ReplyView::Leaderboard(rows) => leaderboard_text(rows),
        ReplyView::Blackjack { table, stage } => blackjack_text(table, stage),
        ReplyView::Poker { hand, holds, stage } => poker_text(hand, holds, stage),
    }
}

/// Puts a reply into words.
pub fn compose(reply: &Reply) -> (list: Vec<Piece>)
    ensures
        pieces(list@) == reply_text(reply@),
{
    match reply {
        Reply::Notice(n) => compose_notice(*n),
        Reply::Leaderboard(rows) => compose_leaderboard(rows),
        Reply::Blackjack { table, stage } => compose_blackjack(table, *stage),
        Reply::Poker { hand, holds, stage } => compose_poker(hand, holds, *stage),
    }
}

/// Whether the text of a reply is marked up as HTML.
pub open spec fn is_html(reply: ReplyView) -> bool {
    match reply {
        ReplyView::Notice(n) => match n {
            Notice::Welcome { .. } | Notice::Help | Notice::NetWorth { .. } => true,
            Notice::SpinWin { .. } | Notice::SpinLose { .. } => true,
            Notice::FlipWin { .. } | Notice::FlipLose { .. } => true,
            Notice::DiceWin { .. } | Notice::DiceLose { .. } => true,
            _ => false,
        },
        _ => true,
    }
}

/// Whether a reply is sent as HTML.
pub fn html(reply: &Reply) -> (yes: bool)
    ensures
        yes == is_html(reply@),
{
    match reply {
        Reply::Notice(n) => match *n {
            Notice::Welcome { .. } | Notice::Help | Notice::NetWorth { .. } => true,
            Notice::SpinWin { .. } | Notice::SpinLose { .. } => true,
            Notice::FlipWin { .. } | Notice::FlipLose { .. } => true,
            Notice::DiceWin { .. } | Notice::DiceLose { .. } => true,
            _ => false,
        },
        _ => true,
    }
}

/// The language that a reply is given in: the player's, and the new one when it was
/// just changed.
pub open spec fn reply_lang(reply: ReplyView, lang: Seq<char>) -> Seq<char> {
    match reply {
        ReplyView::Notice(Notice::LangSet(chosen)) => lang_code(chosen),
        _ => lang,
    }
}

/// Says a reply in the player's language.
pub fn say_reply(locales: &Locales, lang: &str, reply: &Reply) -> (text: String)
    ensures
        renders(locales@, reply_lang(reply@, lang@), reply_text(reply@), text@),
{
    let list = compose(reply);
    match reply {
        Reply::Notice(Notice::LangSet(chosen)) => render(locales, chosen.code(), &list),
        _ => render(locales, lang, &list),
    }
}

} // verus!
