//! What the bot hears: commands, and the answers to its questions.

use vstd::prelude::*;

use crate::bets::{given_bet, given_in, text_of};
use crate::blackjack::{BlackjackGame, BlackjackView};
use crate::clock::Timestamp;
use crate::ledger::Query;
use crate::poker::{PokerGame, PokerView};
use crate::reply::{leader_views, Lang, LeaderRow, LeaderView};
use crate::text::{
    decimal, decimal_nat, i32_in, is_digit, is_white_space, lemma_decimal_nat_reads_back,
    numbers_read_back, parse_i32, same, texts, words, words_of, words_stand_between_white_space,
};

verus! {

/// The games that are opened by a command.
#[derive(Clone, Copy, Debug, PartialEq, Eq, Structural)]
pub enum Game {
    Spin,
    Flip,
    Dice,
    Blackjack,
    Poker,
}

/// A command.
#[derive(Clone, Copy, Debug, PartialEq, Eq, Structural)]
pub enum Command {
    Balance,
    Help,
    ChangeLang(Lang),
    /// Sets the default bet; without a number it is a mistake.
    SetBet(Option<i32>),
    Daily,
    Top,
    Faucet,
    NetWorth,
    /// Opens a game, with the number given as the bet.
    Play { game: Game, given: Option<i32> },
    /// Repays a loan; without a number it is zero.
    PayLoan(i32),
    Unknown,
}

/// The first word of a message.
pub open spec fn first_word(text: Seq<char>) -> Seq<char> {
    if words_of(text).len() > 0 {
        words_of(text)[0]
    } else {
        ""@
    }
}

/// The second word of a message, if it has one.
pub open spec fn second_word(text: Seq<char>) -> Option<Seq<char>> {
    if words_of(text).len() > 1 {
        Some(words_of(text)[1])
    } else {
        None
    }
}

/// The number in the second word of a message, if it is one.
pub open spec fn second_number(text: Seq<char>) -> Option<i32> {
    match second_word(text) {
        Some(s) => i32_in(s),
        None => None,
    }
}

/// The command in a message: its first word says which, its second word is the
/// argument, and the rest is ignored.
pub open spec fn command_of(text: Seq<char>) -> Command {
    let word = first_word(text);
    let given = given_in(second_word(text));
    if word == "/start"@ || word == "/balance"@ {
        Command::Balance
    } else if word == "/help"@ {
        Command::Help
    } else if word == "/change_lang"@ {
        Command::ChangeLang(
            if second_word(text) == Some("uk"@) {
                Lang::Uk
            } else {
                Lang::En
            },
        )
    } else if word == "/setbet"@ {
        Command::SetBet(second_number(text))
    } else if word == "/daily"@ {
        Command::Daily
    } else if word == "/top"@ {
        Command::Top
    } else if word == "/faucet"@ {
        Command::Faucet
    } else if word == "/networth"@ {
        Command::NetWorth
    } else if word == "/spin"@ {
        Command::Play { game: Game::Spin, given }
    } else if word == "/flip"@ {
        Command::Play { game: Game::Flip, given }
    } else if word == "/dice"@ {
        Command::Play { game: Game::Dice, given }
    } else if word == "/blackjack"@ {
        Command::Play { game: Game::Blackjack, given }
    } else if word == "/poker"@ {
        Command::Play { game: Game::Poker, given }
    } else if word == "/payloan"@ {
        Command::PayLoan(
            match second_number(text) {
                Some(n) => n,
                None => 0,
            },
        )
    } else {
        Command::Unknown
    }
}

/// Reads the command in a message.
pub fn read_command(text: &str) -> (command: Command)
    ensures
        command == command_of(text@),
{
    let list = words(text);
    proof {
        assert(texts(list@).len() == list@.len());
        if list@.len() > 0 {
            assert(texts(list@)[0] == list@[0]@);
        }
        if list@.len() > 1 {
            assert(texts(list@)[1] == list@[1]@);
        }
    }
    let word: &str = if list.len() > 0 {
        list[0].as_str()
    } else {
        ""
    };
    let arg: Option<String> = if list.len() > 1 {
        Some(list[1].clone())
    } else {
        None
    };
    let given: Option<i32> = given_bet(&arg);
    let number: Option<i32> = match &arg {
        Some(s) => parse_i32(s.as_str()),
        None => None,
    };
    proof {
        assert(text_of(arg) == second_word(text@));
        assert(number == second_number(text@));
    }
    if same(word, "/start") || same(word, "/balance") {
        Command::Balance
    } else if same(word, "/help") {
        Command::Help
    } else if same(word, "/change_lang") {
        let uk: bool = match &arg {
            Some(s) => same(s.as_str(), "uk"),
            None => false,
        };
        if uk {
            Command::ChangeLang(Lang::Uk)
        } else {
            Command::ChangeLang(Lang::En)
        }
    } else if same(word, "/setbet") {
        Command::SetBet(number)
    } else if same(word, "/daily") {
        Command::Daily
    } else if same(word, "/top") {
        Command::Top
    } else if same(word, "/faucet") {
        Command::Faucet
    } else if same(word, "/networth") {
        Command::NetWorth
    } else if same(word, "/spin") {
        Command::Play { game: Game::Spin, given }
    } else if same(word, "/flip") {
        Command::Play { game: Game::Flip, given }
    } else if same(word, "/dice") {
        Command::Play { game: Game::Dice, given }
    } else if same(word, "/blackjack") {
        Command::Play { game: Game::Blackjack, given }
    } else if same(word, "/poker") {
        Command::Play { game: Game::Poker, given }
    } else if same(word, "/payloan") {
        match number {
            Some(n) => Command::PayLoan(n),
            None => Command::PayLoan(0),
        }
    } else {
        Command::Unknown
    }
}

/// What is known of a player.
#[derive(Debug, PartialEq, Eq)]
pub struct PlayerStats {
    pub tokens: i32,
    pub debt: i32,
    pub lang: String,
    pub default_bet: i32,
    pub last_daily: Option<Timestamp>,
    pub games_played: i32,
    pub biggest_win: i32,
}

/// What is known of a player, as a mathematical value.
#[verifier::ext_equal]
pub struct PlayerView {
    pub tokens: i32,
    pub debt: i32,
    pub lang: Seq<char>,
    pub default_bet: i32,
    pub last_daily: Option<Timestamp>,
    pub games_played: i32,
    pub biggest_win: i32,
}

impl View for PlayerStats {
    type V = PlayerView;

    open spec fn view(&self) -> PlayerView {
        PlayerView {
            tokens: self.tokens,
            debt: self.debt,
            lang: self.lang@,
            default_bet: self.default_bet,
            last_daily: self.last_daily,
            games_played: self.games_played,
            biggest_win: self.biggest_win,
        }
    }
}

/// What is taken of a player of whom nothing is known.
pub open spec fn unknown_player() -> PlayerView {
    PlayerView {
        tokens: 0,
        debt: 0,
        lang: Seq::empty(),
        default_bet: 0,
        last_daily: None,
        games_played: 0,
        biggest_win: 0,
    }
}

impl Default for PlayerStats {
    fn default() -> (stats: Self)
        ensures
            stats@ == unknown_player(),
    {
        PlayerStats {
            tokens: 0,
            debt: 0,
            lang: String::new(),
            default_bet: 0,
            last_daily: None,
            games_played: 0,
            biggest_win: 0,
        }
    }
}

/// The columns of a player's row, as far as they could be read.
#[derive(Debug, PartialEq, Eq)]
pub struct PlayerRow {
    pub tokens: Option<i32>,
    pub debt: Option<i32>,
    pub lang: Option<String>,
    pub default_bet: Option<i32>,
    pub last_daily: Option<Timestamp>,
    pub games_played: Option<i32>,
    pub biggest_win: Option<i32>,
}

/// A number that is zero where it could not be read.
pub open spec fn or_zero(n: Option<i32>) -> i32 {
    match n {
        Some(v) => v,
        None => 0,
    }
}

fn number_or_zero(n: Option<i32>) -> (v: i32)
    ensures
        v == or_zero(n),
{
    match n {
        Some(v) => v,
        None => 0,
    }
}

/// What a row says of a player: zero for a number that could not be read, and
/// English for the language.
pub fn stats(row: PlayerRow) -> (stats: PlayerStats)
    ensures
        stats@ == (PlayerView {
            tokens: or_zero(row.tokens),
            debt: or_zero(row.debt),
            lang: match row.lang {
                Some(s) => s@,
                None => "en"@,
            },
            default_bet: or_zero(row.default_bet),
            last_daily: row.last_daily,
            games_played: or_zero(row.games_played),
            biggest_win: or_zero(row.biggest_win),
        }),
{
    PlayerStats {
        tokens: number_or_zero(row.tokens),
        debt: number_or_zero(row.debt),
        lang: match row.lang {
            Some(s) => s,
            None => "en".to_owned(),
        },
        default_bet: number_or_zero(row.default_bet),
        last_daily: row.last_daily,
        games_played: number_or_zero(row.games_played),
        biggest_win: number_or_zero(row.biggest_win),
    }
}

/// An answer to a question; `None` inside stands for one that could not be had.
#[derive(Debug, PartialEq, Eq)]
pub enum Event {
    Ensured(bool),
    Stats(Option<PlayerStats>),
    LastAction { now: Timestamp, last: Option<Timestamp> },
    Clock(Timestamp),
    Top(Option<Vec<LeaderRow>>),
    Casino(Option<i32>),
    Totals(Option<(i64, i64)>),
    Rolled(Option<u8>),
    Blackjack(Option<BlackjackGame>),
    Poker(Option<PokerGame>),
}

/// An answer as a mathematical value.
#[verifier::ext_equal]
pub enum EventView {
    Ensured(bool),
    Stats(Option<PlayerView>),
    LastAction { now: Timestamp, last: Option<Timestamp> },
    Clock(Timestamp),
    Top(Option<Seq<LeaderView>>),
    Casino(Option<i32>),
    Totals(Option<(i64, i64)>),
    Rolled(Option<u8>),
    Blackjack(Option<BlackjackView>),
    Poker(Option<PokerView>),
}

impl View for Event {
    type V = EventView;

    open spec fn view(&self) -> EventView {
        match self {
            Event::Ensured(ok) => EventView::Ensured(*ok),
            Event::Stats(Some(s)) => EventView::Stats(Some(s@)),
            Event::Stats(None) => EventView::Stats(None),
            Event::LastAction { now, last } => EventView::LastAction { now: *now, last: *last },
            Event::Clock(now) => EventView::Clock(*now),
            Event::Top(Some(rows)) => EventView::Top(Some(leader_views(rows@))),
            Event::Top(None) => EventView::Top(None),
            Event::Casino(n) => EventView::Casino(*n),
            Event::Totals(t) => EventView::Totals(*t),
            Event::Rolled(v) => EventView::Rolled(*v),
            Event::Blackjack(Some(g)) => EventView::Blackjack(Some(g@)),
            Event::Blackjack(None) => EventView::Blackjack(None),
            Event::Poker(Some(g)) => EventView::Poker(Some(g@)),
            Event::Poker(None) => EventView::Poker(None),
        }
    }
}

/// Whether an answer is one to a question.
pub open spec fn answers(query: Query, event: EventView) -> bool {
    match query {
        Query::Stats => event is Stats,
        Query::LastAction => event is LastAction,
        Query::Clock => event is Clock,
        Query::Top => event is Top,
        Query::Casino => event is Casino,
        Query::Totals => event is Totals,
        Query::Slots => event is Rolled,
        Query::Dice => event is Rolled,
        Query::Blackjack => event is Blackjack,
        Query::Poker => event is Poker,
    }
}

/// What is known of a player, or what is taken where nothing is.
pub open spec fn known_or_default(stats: Option<PlayerView>) -> PlayerView {
    match stats {
        Some(p) => p,
        None => unknown_player(),
    }
}

#[verifier::rlimit(40)]
proof fn lemma_command_names()
    ensures
        ({
            let names = seq![
                "/start"@,
                "/balance"@,
                "/help"@,
                "/change_lang"@,
                "/setbet"@,
                "/daily"@,
                "/top"@,
                "/faucet"@,
                "/networth"@,
                "/spin"@,
                "/flip"@,
                "/dice"@,
                "/blackjack"@,
                "/poker"@,
                "/payloan"@,
            ];
            forall|i: int, j: int|
                #![trigger names[i], names[j]]
                0 <= i < j < 15 ==> names[i] != names[j]
        }),
{
    reveal_strlit("/start");
    reveal_strlit("/balance");
    reveal_strlit("/help");
    reveal_strlit("/change_lang");
    reveal_strlit("/setbet");
    reveal_strlit("/daily");
    reveal_strlit("/top");
    reveal_strlit("/faucet");
    reveal_strlit("/networth");
    reveal_strlit("/spin");
    reveal_strlit("/flip");
    reveal_strlit("/dice");
    reveal_strlit("/blackjack");
    reveal_strlit("/poker");
    reveal_strlit("/payloan");
    assert("/start"@[1] == 's' && "/start"@[2] == 't' && "/start"@[3] == 'a');
    assert("/balance"@[1] == 'b' && "/balance"@[2] == 'a' && "/balance"@[3] == 'l');
    assert("/help"@[1] == 'h' && "/help"@[2] == 'e' && "/help"@[3] == 'l');
    assert("/change_lang"@[1] == 'c' && "/change_lang"@[2] == 'h' && "/change_lang"@[3] == 'a');
    assert("/setbet"@[1] == 's' && "/setbet"@[2] == 'e' && "/setbet"@[3] == 't');
    assert("/daily"@[1] == 'd' && "/daily"@[2] == 'a' && "/daily"@[3] == 'i');
    assert("/top"@[1] == 't' && "/top"@[2] == 'o' && "/top"@[3] == 'p');
    assert("/faucet"@[1] == 'f' && "/faucet"@[2] == 'a' && "/faucet"@[3] == 'u');
    assert("/networth"@[1] == 'n' && "/networth"@[2] == 'e' && "/networth"@[3] == 't');
    assert("/spin"@[1] == 's' && "/spin"@[2] == 'p' && "/spin"@[3] == 'i');
    assert("/flip"@[1] == 'f' && "/flip"@[2] == 'l' && "/flip"@[3] == 'i');
    assert("/dice"@[1] == 'd' && "/dice"@[2] == 'i' && "/dice"@[3] == 'c');
    assert("/blackjack"@[1] == 'b' && "/blackjack"@[2] == 'l' && "/blackjack"@[3] == 'a');
    assert("/poker"@[1] == 'p' && "/poker"@[2] == 'o' && "/poker"@[3] == 'k');
    assert("/payloan"@[1] == 'p' && "/payloan"@[2] == 'a' && "/payloan"@[3] == 'y');
}

/// A message is heard by its first word, and its second word is the argument: a number,
/// or the code of a language. A message that begins with no command means nothing.
#[verifier::rlimit(40)]
pub proof fn commands_are_heard(text: Seq<char>, n: i32)
    requires
        words_of(text).len() > 0,
    ensures
        ({
            let name = words_of(text)[0];
            let alone = words_of(text).len() == 1;
            let with_number = !alone && words_of(text)[1] == decimal(n as int);
            let with_word = !alone && i32_in(words_of(text)[1]) is None;
            let heard = command_of(text);
            &&& name == "/start"@ || name == "/balance"@ <==> heard is Balance
            &&& name == "/help"@ <==> heard is Help
            &&& name == "/daily"@ <==> heard is Daily
            &&& name == "/top"@ <==> heard is Top
            &&& name == "/faucet"@ <==> heard is Faucet
            &&& name == "/networth"@ <==> heard is NetWorth
            &&& name == "/change_lang"@ <==> heard is ChangeLang
            &&& name == "/change_lang"@ ==> (heard == Command::ChangeLang(Lang::Uk) <==> !alone
                && words_of(text)[1] == "uk"@)
            &&& name == "/setbet"@ <==> heard is SetBet
            &&& name == "/setbet"@ && (alone || with_word) ==> heard == Command::SetBet(None)
            &&& name == "/setbet"@ && with_number ==> heard == Command::SetBet(Some(n))
            &&& name == "/payloan"@ <==> heard is PayLoan
            &&& name == "/payloan"@ && (alone || with_word) ==> heard == Command::PayLoan(0)
            &&& name == "/payloan"@ && with_number ==> heard == Command::PayLoan(n)
            &&& forall|game: Game|
                #![trigger game_name(game)]
                name == game_name(game) ==> {
                    &&& heard matches Command::Play { game: g, .. } && g == game
                    &&& alone ==> heard == (Command::Play { game, given: None })
                    &&& with_word ==> heard == (Command::Play { game, given: Some(0) })
                    &&& with_number ==> heard == (Command::Play { game, given: Some(n) })
                }
            &&& heard matches Command::Play { game: g, .. } ==> name == game_name(g)
        }),
{
    lemma_command_names();
    let names = seq![
        "/start"@,
        "/balance"@,
        "/help"@,
        "/change_lang"@,
        "/setbet"@,
        "/daily"@,
        "/top"@,
        "/faucet"@,
        "/networth"@,
        "/spin"@,
        "/flip"@,
        "/dice"@,
        "/blackjack"@,
        "/poker"@,
        "/payloan"@,
    ];
    assert(names[0] == "/start"@ && names[1] == "/balance"@ && names[2] == "/help"@);
    assert(names[3] == "/change_lang"@ && names[4] == "/setbet"@ && names[5] == "/daily"@);
    assert(names[6] == "/top"@ && names[7] == "/faucet"@ && names[8] == "/networth"@);
    assert(names[9] == "/spin"@ && names[10] == "/flip"@ && names[11] == "/dice"@);
    assert(names[12] == "/blackjack"@ && names[13] == "/poker"@ && names[14] == "/payloan"@);
    numbers_read_back(n as int);
}

/// The command that opens a game.
pub open spec fn game_name(game: Game) -> Seq<char> {
    match game {
        Game::Spin => "/spin"@,
        Game::Flip => "/flip"@,
        Game::Dice => "/dice"@,
        Game::Blackjack => "/blackjack"@,
        Game::Poker => "/poker"@,
    }
}

/// A command and a number, with white space between them, are two words.
pub proof fn a_command_and_its_number_are_two_words(name: Seq<char>, space: char, n: int)
    requires
        name.len() > 0,
        forall|i: int| 0 <= i < name.len() ==> !is_white_space(#[trigger] name[i]),
        is_white_space(space),
    ensures
        words_of(name.push(space) + decimal(n)) == seq![name, decimal(n)],
{
    let number = decimal(n);
    let size = if n < 0 {
        -n
    } else {
        n
    };
    lemma_decimal_nat_reads_back(size as nat);
    assert forall|i: int| 0 <= i < number.len() implies !is_white_space(#[trigger] number[i]) by {
        let at = if n < 0 {
            i - 1
        } else {
            i
        };
        if at >= 0 {
            assert(number[i] == decimal_nat(size as nat)[at]);
            assert(is_digit(decimal_nat(size as nat)[at]));
        }
    }
    words_stand_between_white_space(name, space, number);
    words_stand_between_white_space(number, space, name);
    assert(words_of(name) + words_of(number) =~= seq![name, number]);
}

/// A number that could be read is taken as it is, and as zero otherwise; an account
/// that could be read is taken as it is, and otherwise as one without anything in it.
pub proof fn what_is_known_is_taken(n: i32, player: PlayerView)
    ensures
        or_zero(Some(n)) == n,
        or_zero(None) == 0,
        known_or_default(Some(player)) == player,
        known_or_default(None) == (PlayerView {
            tokens: 0,
            debt: 0,
            lang: Seq::empty(),
            default_bet: 0,
            last_daily: None,
            games_played: 0,
            biggest_win: 0,
        }),
{
}

} // verus!
