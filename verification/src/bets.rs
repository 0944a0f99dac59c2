//! Bets: which are accepted, and what the machines pay.

use vstd::prelude::*;

use crate::text::{decimal, decimal_reads_back, i32_in, parse_i32};

verus! {

/// The smallest bet.
pub const MIN_BET: i32 = 10;

/// The largest bet.
pub const MAX_BET: i32 = 50000;

/// Why a bet is refused.
#[derive(Clone, Copy, Debug, PartialEq, Eq, Structural)]
pub enum BetError {
    Missing,
    OutOfBounds,
    Invalid,
}

/// Whether a bet lies within the limits.
pub open spec fn within_limits(bet: int) -> bool {
    MIN_BET <= bet <= MAX_BET
}

/// The number that a player gives with a command: zero when the argument is no
/// number, and none when there is no argument.
pub open spec fn given_in(arg: Option<Seq<char>>) -> Option<i32> {
    match arg {
        Some(s) => match i32_in(s) {
            Some(n) => Some(n),
            None => Some(0),
        },
        None => None,
    }
}

/// The bet that a player asks for: the number given with the command, and the
/// player's default bet where none is given.
pub open spec fn requested(given: Option<i32>, default_bet: i32) -> i32 {
    match given {
        Some(n) => n,
        None => default_bet,
    }
}

/// The bet that a player asks for, where it lies within the limits.
pub open spec fn asked(given: Option<i32>, default_bet: i32) -> Result<i32, BetError> {
    let bet = requested(given, default_bet);
    if bet <= 0 {
        Err(BetError::Missing)
    } else if !within_limits(bet as int) {
        Err(BetError::OutOfBounds)
    } else {
        Ok(bet)
    }
}

/// A bet within the limits stands when the balance is known and covers it.
pub open spec fn covered(bet: i32, tokens: Option<i32>) -> Result<i32, BetError> {
    match tokens {
        Some(t) => if bet > t {
            Err(BetError::Invalid)
        } else {
            Ok(bet)
        },
        None => Err(BetError::Invalid),
    }
}

/// The bet that a player gets: asked for within the limits, and covered by the
/// balance.
pub open spec fn resolved(arg: Option<Seq<char>>, default_bet: i32, tokens: Option<i32>) -> Result<
    i32,
    BetError,
> {
    match asked(given_in(arg), default_bet) {
        Ok(bet) => covered(bet, tokens),
        Err(e) => Err(e),
    }
}

/// The view of an optional string.
pub open spec fn text_of(arg: Option<String>) -> Option<Seq<char>> {
    match arg {
        Some(s) => Some(s@),
        None => None,
    }
}

/// Reads the number that a player gives with a command.
pub fn given_bet(arg: &Option<String>) -> (given: Option<i32>)
    ensures
        given == given_in(text_of(*arg)),
{
    match arg {
        Some(s) => match parse_i32(s.as_str()) {
            Some(n) => Some(n),
            None => Some(0),
        },
        None => None,
    }
}

/// Settles on the bet that a player asks for.
pub fn ask_bet(given: Option<i32>, default_bet: i32) -> (bet: Result<i32, BetError>)
    ensures
        bet == asked(given, default_bet),
{
    let bet: i32 = match given {
        Some(n) => n,
        None => default_bet,
    };
    if bet <= 0 {
        return Err(BetError::Missing);
    }
    if bet < MIN_BET || bet > MAX_BET {
        return Err(BetError::OutOfBounds);
    }
    Ok(bet)
}

/// Holds a bet against the balance; `None` stands for a balance that could not be
/// read.
pub fn cover_bet(bet: i32, tokens: Option<i32>) -> (result: Result<i32, BetError>)
    ensures
        result == covered(bet, tokens),
{
    match tokens {
        Some(t) => if bet > t {
            Err(BetError::Invalid)
        } else {
            Ok(bet)
        },
        None => Err(BetError::Invalid),
    }
}

/// Settles on the bet that a player gets.
pub fn resolve_bet(arg: &Option<String>, default_bet: i32, tokens: Option<i32>) -> (bet: Result<
    i32,
    BetError,
>)
    ensures
        bet == resolved(text_of(*arg), default_bet, tokens),
{
    match ask_bet(given_bet(arg), default_bet) {
        Ok(bet) => cover_bet(bet, tokens),
        Err(e) => Err(e),
    }
}

/// A bet that is accepted lies within the limits and is covered by the balance.
pub proof fn accepted_bets_are_sound(arg: Option<Seq<char>>, default_bet: i32, tokens: Option<i32>)
    ensures
        resolved(arg, default_bet, tokens) matches Ok(bet) ==> {
            &&& within_limits(bet as int)
            &&& tokens is Some
            &&& bet <= tokens->0
            &&& bet == requested(given_in(arg), default_bet)
        },
{
}

/// Every bet from ten to fifty thousand that the balance covers is accepted, whether it
/// is written behind the command or is the player's default.
pub proof fn affordable_bets_are_accepted(bet: i32, default_bet: i32, tokens: i32)
    requires
        10 <= bet <= 50000,
        bet <= tokens,
    ensures
        asked(Some(bet), default_bet) == Ok::<i32, BetError>(bet),
        asked(None, bet) == Ok::<i32, BetError>(bet),
        covered(bet, Some(tokens)) == Ok::<i32, BetError>(bet),
        resolved(Some(decimal(bet as int)), default_bet, Some(tokens)) == Ok::<i32, BetError>(bet),
        resolved(None, bet, Some(tokens)) == Ok::<i32, BetError>(bet),
{
    decimal_reads_back(bet as int);
}

/// Every other bet is refused, and for one reason: there is none above zero, it lies
/// below ten or above fifty thousand, or the balance is smaller or unknown.
pub proof fn other_bets_are_refused(bet: i32, default_bet: i32, tokens: Option<i32>)
    ensures
        bet <= 0 ==> asked(Some(bet), default_bet) == Err::<i32, BetError>(BetError::Missing)
            && asked(None, bet) == Err::<i32, BetError>(BetError::Missing),
        0 < bet < 10 || bet > 50000 ==> asked(Some(bet), default_bet) == Err::<i32, BetError>(
            BetError::OutOfBounds,
        ) && asked(None, bet) == Err::<i32, BetError>(BetError::OutOfBounds),
        tokens is None || bet > tokens->0 ==> covered(bet, tokens) == Err::<i32, BetError>(
            BetError::Invalid,
        ),
        resolved(Some(decimal(bet as int)), default_bet, tokens) == resolved(None, bet, tokens),
        resolved(None, bet, tokens) == if bet <= 0 {
            Err::<i32, BetError>(BetError::Missing)
        } else if bet < 10 || bet > 50000 {
            Err::<i32, BetError>(BetError::OutOfBounds)
        } else if tokens is None || bet > tokens->0 {
            Err::<i32, BetError>(BetError::Invalid)
        } else {
            Ok::<i32, BetError>(bet)
        },
{
    decimal_reads_back(bet as int);
}

/// An argument that is no number counts as a missing bet, even where there is a
/// default.
pub proof fn words_are_no_bets(word: Seq<char>, default_bet: i32, tokens: Option<i32>)
    requires
        exists|i: int| 0 <= i < word.len() && !('0' <= #[trigger] word[i] <= '9') && word[i] != '+'
            && word[i] != '-',
    ensures
        resolved(Some(word), default_bet, tokens) == Err::<i32, BetError>(BetError::Missing),
{
    let i = choose|i: int|
        0 <= i < word.len() && !('0' <= #[trigger] word[i] <= '9') && word[i] != '+' && word[i]
            != '-';
    if word[0] == '-' || word[0] == '+' {
        assert(word.skip(1)[i - 1] == word[i]);
    }
    assert(i32_in(word) is None);
}

/// The limits of the house.
pub proof fn limits_are_ten_and_fifty_thousand(bet: int)
    ensures
        within_limits(bet) <==> 10 <= bet <= 50000,
{
}

/// How many times the bet the slot machine pays for each of its faces.
pub open spec fn slots_pay(value: int) -> int {
    if value == 64 {
        10
    } else if value == 1 || value == 22 || value == 43 {
        3
    } else {
        0
    }
}

/// How many times the bet the slot machine pays.
pub fn slots_multiplier(value: u8) -> (times: i32)
    ensures
        times == slots_pay(value as int),
{
    match value {
        64 => 10,
        1 | 22 | 43 => 3,
        _ => 0,
    }
}

} // verus!
