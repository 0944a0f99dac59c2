//! The data behind a button: how it is written, and what a press means.

use vstd::prelude::*;

use crate::text::{
    after, decimal, decimal_nat, decimal_reads_back, fields, i32_in, i64_in, is_digit,
    lemma_decimal_nat_reads_back, lemma_fields_extend, lemma_fields_separator, parse_digits,
    parse_i32, parse_i64, parse_usize, prefix_and_rest_make_the_text, same, show_i64, show_u64,
    split, strip_prefix, texts, usize_in,
};

verus! {

/// A move in blackjack.
#[derive(Clone, Copy, Debug, PartialEq, Eq, Structural)]
pub enum BlackjackMove {
    Hit,
    Stand,
    Nothing,
}

/// A move in poker.
#[derive(Clone, Copy, Debug, PartialEq, Eq, Structural)]
pub enum PokerMove {
    Hold(usize),
    Draw,
    Nothing,
}

/// The side of the coin that a player has chosen.
#[derive(Clone, Copy, Debug, PartialEq, Eq, Structural)]
pub enum Side {
    Heads,
    Tails,
    Neither,
}

/// A bet on a coin flip, and the player it was offered to.
#[derive(Clone, Copy, Debug, PartialEq, Eq, Structural)]
pub struct FlipBet {
    pub side: Side,
    pub bet: i32,
    pub user: i64,
}

/// A bet on a roll of the dice, and the player it was offered to.
#[derive(Clone, Copy, Debug, PartialEq, Eq, Structural)]
pub struct DiceBet {
    pub guess: i32,
    pub bet: i32,
    pub user: i64,
}

/// What the press of a button means. A coin flip or a roll of the dice without its
/// three fields means nothing.
#[derive(Clone, Copy, Debug, PartialEq, Eq, Structural)]
pub enum Press {
    Blackjack(BlackjackMove),
    Poker(PokerMove),
    Flip(Option<FlipBet>),
    Dice(Option<DiceBet>),
    Unknown,
}

/// The move behind the data of a blackjack button.
pub open spec fn blackjack_move(action: Seq<char>) -> BlackjackMove {
    if action == "hit"@ {
        BlackjackMove::Hit
    } else if action == "stand"@ {
        BlackjackMove::Stand
    } else {
        BlackjackMove::Nothing
    }
}

/// The move behind the data of a poker button.
pub open spec fn poker_move(action: Seq<char>) -> PokerMove {
    match after(action, "hold_"@) {
        Some(place) => match usize_in(place) {
            Some(i) => PokerMove::Hold(i),
            None => PokerMove::Nothing,
        },
        None => if action == "draw"@ {
            PokerMove::Draw
        } else {
            PokerMove::Nothing
        },
    }
}

/// The side behind a letter.
pub open spec fn side_of(letter: Seq<char>) -> Side {
    if letter == "h"@ {
        Side::Heads
    } else if letter == "t"@ {
        Side::Tails
    } else {
        Side::Neither
    }
}

/// A number in a field; zero where the field is no number.
pub open spec fn i32_or_zero(field: Seq<char>) -> i32 {
    match i32_in(field) {
        Some(n) => n,
        None => 0,
    }
}

/// A number in a field; zero where the field is no number.
pub open spec fn i64_or_zero(field: Seq<char>) -> i64 {
    match i64_in(field) {
        Some(n) => n,
        None => 0,
    }
}

/// The bet behind the data of a coin flip button.
pub open spec fn flip_bet(action: Seq<char>) -> Option<FlipBet> {
    let parts = fields(action, '_');
    if parts.len() == 3 {
        Some(
            FlipBet {
                side: side_of(parts[0]),
                bet: i32_or_zero(parts[1]),
                user: i64_or_zero(parts[2]),
            },
        )
    } else {
        None
    }
}

/// The bet behind the data of a dice button.
pub open spec fn dice_bet(action: Seq<char>) -> Option<DiceBet> {
    let parts = fields(action, '_');
    if parts.len() == 3 {
        Some(
            DiceBet {
                guess: i32_or_zero(parts[0]),
                bet: i32_or_zero(parts[1]),
                user: i64_or_zero(parts[2]),
            },
        )
    } else {
        None
    }
}

/// What the data behind a button means.
pub open spec fn press_of(data: Seq<char>) -> Press {
    if let Some(action) = after(data, "bj_"@) {
        Press::Blackjack(blackjack_move(action))
    } else if let Some(action) = after(data, "p_"@) {
        Press::Poker(poker_move(action))
    } else if let Some(action) = after(data, "flip_"@) {
        Press::Flip(flip_bet(action))
    } else if let Some(action) = after(data, "dice_"@) {
        Press::Dice(dice_bet(action))
    } else {
        Press::Unknown
    }
}

fn read_blackjack(action: &str) -> (press: BlackjackMove)
    ensures
        press == blackjack_move(action@),
{
    if same(action, "hit") {
        BlackjackMove::Hit
    } else if same(action, "stand") {
        BlackjackMove::Stand
    } else {
        BlackjackMove::Nothing
    }
}

fn read_poker(action: &str) -> (press: PokerMove)
    ensures
        press == poker_move(action@),
{
    match strip_prefix(action, "hold_") {
        Some(place) => match parse_usize(place.as_str()) {
            Some(i) => PokerMove::Hold(i),
            None => PokerMove::Nothing,
        },
        None => if same(action, "draw") {
            PokerMove::Draw
        } else {
            PokerMove::Nothing
        },
    }
}

fn read_i32(field: &str) -> (n: i32)
    ensures
        n == i32_or_zero(field@),
{
    match parse_i32(field) {
        Some(n) => n,
        None => 0,
    }
}

fn read_i64(field: &str) -> (n: i64)
    ensures
        n == i64_or_zero(field@),
{
    match parse_i64(field) {
        Some(n) => n,
        None => 0,
    }
}

fn read_flip(action: &str) -> (press: Option<FlipBet>)
    ensures
        press == flip_bet(action@),
{
    let parts = split(action, '_');
    proof {
        assert(texts(parts@).len() == parts@.len());
    }
    if parts.len() != 3 {
        return None;
    }
    proof {
        assert(texts(parts@)[0] == parts@[0]@);
        assert(texts(parts@)[1] == parts@[1]@);
        assert(texts(parts@)[2] == parts@[2]@);
    }
    let letter = parts[0].as_str();
    let side: Side = if same(letter, "h") {
        Side::Heads
    } else if same(letter, "t") {
        Side::Tails
    } else {
        Side::Neither
    };
    Some(FlipBet { side, bet: read_i32(parts[1].as_str()), user: read_i64(parts[2].as_str()) })
}

fn read_dice(action: &str) -> (press: Option<DiceBet>)
    ensures
        press == dice_bet(action@),
{
    let parts = split(action, '_');
    proof {
        assert(texts(parts@).len() == parts@.len());
    }
    if parts.len() != 3 {
        return None;
    }
    proof {
        assert(texts(parts@)[0] == parts@[0]@);
        assert(texts(parts@)[1] == parts@[1]@);
        assert(texts(parts@)[2] == parts@[2]@);
    }
    Some(
        DiceBet {
            guess: read_i32(parts[0].as_str()),
            bet: read_i32(parts[1].as_str()),
            user: read_i64(parts[2].as_str()),
        },
    )
}

/// Reads the data behind a button.
pub fn read_press(data: &str) -> (press: Press)
    ensures
        press == press_of(data@),
{
    if let Some(action) = strip_prefix(data, "bj_") {
        Press::Blackjack(read_blackjack(action.as_str()))
    } else if let Some(action) = strip_prefix(data, "p_") {
        Press::Poker(read_poker(action.as_str()))
    } else if let Some(action) = strip_prefix(data, "flip_") {
        Press::Flip(read_flip(action.as_str()))
    } else if let Some(action) = strip_prefix(data, "dice_") {
        Press::Dice(read_dice(action.as_str()))
    } else {
        Press::Unknown
    }
}

/// The letter of a side of the coin.
pub open spec fn side_letter(heads: bool) -> Seq<char> {
    if heads {
        "h"@
    } else {
        "t"@
    }
}

/// The data behind a coin flip button.
pub open spec fn flip_data(heads: bool, bet: int, user: int) -> Seq<char> {
    "flip_"@ + (side_letter(heads) + "_"@ + decimal(bet) + "_"@ + decimal(user))
}

/// The data behind a dice button.
pub open spec fn dice_data(guess: int, bet: int, user: int) -> Seq<char> {
    "dice_"@ + (decimal(guess) + "_"@ + decimal(bet) + "_"@ + decimal(user))
}

/// The data behind the button that holds a card.
pub open spec fn hold_data(i: int) -> Seq<char> {
    "p_hold_"@ + decimal(i)
}

/// Writes the data behind a coin flip button.
pub fn write_flip(heads: bool, bet: i32, user: i64) -> (data: String)
    ensures
        data@ == flip_data(heads, bet as int, user as int),
{
    let mut out = "flip_".to_owned();
    if heads {
        out.append("h");
    } else {
        out.append("t");
    }
    out.append("_");
    out.append(show_i64(bet as i64).as_str());
    out.append("_");
    out.append(show_i64(user).as_str());
    proof {
        assert(out@ =~= flip_data(heads, bet as int, user as int));
    }
    out
}

/// Writes the data behind a dice button.
pub fn write_dice(guess: i32, bet: i32, user: i64) -> (data: String)
    ensures
        data@ == dice_data(guess as int, bet as int, user as int),
{
    let mut out = "dice_".to_owned();
    out.append(show_i64(guess as i64).as_str());
    out.append("_");
    out.append(show_i64(bet as i64).as_str());
    out.append("_");
    out.append(show_i64(user).as_str());
    proof {
        assert(out@ =~= dice_data(guess as int, bet as int, user as int));
    }
    out
}

/// Writes the data behind the button that holds a card.
pub fn write_hold(i: usize) -> (data: String)
    ensures
        data@ == hold_data(i as int),
{
    let mut out = "p_hold_".to_owned();
    out.append(show_u64(i as u64).as_str());
    out
}

proof fn lemma_decimal_has_no_underscore(n: int)
    ensures
        !decimal(n).contains('_'),
{
    let magnitude: nat = if n < 0 {
        (-n) as nat
    } else {
        n as nat
    };
    lemma_decimal_nat_reads_back(magnitude);
    let digits = decimal_nat(magnitude);
    assert(parse_digits(digits) is Some);
    if decimal(n).contains('_') {
        let i = choose|i: int| 0 <= i < decimal(n).len() && decimal(n)[i] == '_';
        if n < 0 {
            if i > 0 {
                assert(digits[i - 1] == '_');
                assert(is_digit(digits[i - 1]));
            }
        } else {
            assert(is_digit(digits[i]));
        }
    }
}

/// Three fields without underscores come apart as they were put together.
proof fn lemma_three_fields(a: Seq<char>, b: Seq<char>, c: Seq<char>)
    requires
        !a.contains('_'),
        !b.contains('_'),
        !c.contains('_'),
    ensures
        fields(a + "_"@ + b + "_"@ + c, '_') == seq![a, b, c],
{
    reveal_strlit("_");
    assert("_"@ =~= seq!['_']);
    let none = Seq::<char>::empty();
    lemma_fields_extend(none, a, '_');
    assert(none + a =~= a);
    assert(fields(a, '_') =~= seq![a]);
    lemma_fields_separator(a, '_');
    let ab = a.push('_');
    assert(fields(ab, '_') =~= seq![a, none]);
    lemma_fields_extend(ab, b, '_');
    assert(none + b =~= b);
    let abb = ab + b;
    assert(fields(abb, '_') =~= seq![a, b]);
    lemma_fields_separator(abb, '_');
    let abc = abb.push('_');
    assert(fields(abc, '_') =~= seq![a, b, none]);
    lemma_fields_extend(abc, c, '_');
    assert(none + c =~= c);
    assert(fields(abc + c, '_') =~= seq![a, b, c]);
    assert(a + "_"@ + b + "_"@ + c =~= abc + c);
}

/// A press of a coin flip button means the side, the bet and the player that the
/// button was made for.
pub proof fn flip_button_reads_back(heads: bool, bet: i32, user: i64)
    ensures
        press_of(flip_data(heads, bet as int, user as int)) == Press::Flip(
            Some(
                FlipBet {
                    side: if heads {
                        Side::Heads
                    } else {
                        Side::Tails
                    },
                    bet,
                    user,
                },
            ),
        ),
{
    let data = flip_data(heads, bet as int, user as int);
    let action = side_letter(heads) + "_"@ + decimal(bet as int) + "_"@ + decimal(user as int);
    reveal_strlit("flip_");
    reveal_strlit("bj_");
    reveal_strlit("p_");
    reveal_strlit("h");
    reveal_strlit("t");
    assert(data[0] == 'f');
    assert(after(data, "bj_"@) is None) by {
        assert("bj_"@[0] == 'b');
    }
    assert(after(data, "p_"@) is None) by {
        assert("p_"@[0] == 'p');
    }
    assert(after(data, "flip_"@) == Some(action)) by {
        assert(data.subrange(0, 5) =~= "flip_"@);
        assert(data.skip(5) =~= action);
    }
    assert("h"@[0] == 'h' && "t"@[0] == 't');
    assert(!side_letter(heads).contains('_')) by {
        assert(side_letter(heads).len() == 1);
    }
    lemma_decimal_has_no_underscore(bet as int);
    lemma_decimal_has_no_underscore(user as int);
    lemma_three_fields(side_letter(heads), decimal(bet as int), decimal(user as int));
    decimal_reads_back(bet as int);
    decimal_reads_back(user as int);
}

/// A press of a dice button means the guess, the bet and the player that the button
/// was made for.
pub proof fn dice_button_reads_back(guess: i32, bet: i32, user: i64)
    ensures
        press_of(dice_data(guess as int, bet as int, user as int)) == Press::Dice(
            Some(DiceBet { guess, bet, user }),
        ),
{
    let data = dice_data(guess as int, bet as int, user as int);
    let action = decimal(guess as int) + "_"@ + decimal(bet as int) + "_"@ + decimal(user as int);
    reveal_strlit("dice_");
    reveal_strlit("flip_");
    reveal_strlit("bj_");
    reveal_strlit("p_");
    assert(data[0] == 'd');
    assert(after(data, "bj_"@) is None) by {
        assert("bj_"@[0] == 'b');
    }
    assert(after(data, "p_"@) is None) by {
        assert("p_"@[0] == 'p');
    }
    assert(after(data, "flip_"@) is None) by {
        assert("flip_"@[0] == 'f');
    }
    assert(after(data, "dice_"@) == Some(action)) by {
        assert(data.subrange(0, 5) =~= "dice_"@);
        assert(data.skip(5) =~= action);
    }
    lemma_decimal_has_no_underscore(guess as int);
    lemma_decimal_has_no_underscore(bet as int);
    lemma_decimal_has_no_underscore(user as int);
    lemma_three_fields(decimal(guess as int), decimal(bet as int), decimal(user as int));
    decimal_reads_back(guess as int);
    decimal_reads_back(bet as int);
    decimal_reads_back(user as int);
}

/// A press of a hold button means the card that the button was made for.
pub proof fn hold_button_reads_back(i: usize)
    ensures
        press_of(hold_data(i as int)) == Press::Poker(PokerMove::Hold(i)),
{
    let data = hold_data(i as int);
    let action = "hold_"@ + decimal(i as int);
    reveal_strlit("p_hold_");
    reveal_strlit("hold_");
    reveal_strlit("bj_");
    reveal_strlit("p_");
    assert(data[0] == 'p');
    assert(after(data, "bj_"@) is None) by {
        assert("bj_"@[0] == 'b');
    }
    assert(after(data, "p_"@) == Some(action)) by {
        assert("p_hold_"@ =~= "p_"@ + "hold_"@);
        assert(data.subrange(0, 2) =~= "p_"@);
        assert(data.skip(2) =~= action);
    }
    assert(after(action, "hold_"@) == Some(decimal(i as int))) by {
        assert(action.subrange(0, 5) =~= "hold_"@);
        assert(action.skip(5) =~= decimal(i as int));
    }
    decimal_reads_back(i as int);
}

/// The buttons with fixed data mean the moves that they are labelled with.
pub proof fn lemma_move_buttons_read_back()
    ensures
        press_of("bj_hit"@) == Press::Blackjack(BlackjackMove::Hit),
        press_of("bj_stand"@) == Press::Blackjack(BlackjackMove::Stand),
        press_of("p_draw"@) == Press::Poker(PokerMove::Draw),
{
    reveal_strlit("bj_hit");
    reveal_strlit("bj_stand");
    reveal_strlit("p_draw");
    reveal_strlit("bj_");
    reveal_strlit("p_");
    reveal_strlit("hit");
    reveal_strlit("stand");
    reveal_strlit("draw");
    reveal_strlit("hold_");
    assert("bj_hit"@.subrange(0, 3) =~= "bj_"@);
    assert("bj_hit"@.skip(3) =~= "hit"@);
    assert("bj_stand"@.subrange(0, 3) =~= "bj_"@);
    assert("bj_stand"@.skip(3) =~= "stand"@);
    assert("stand"@[0] == 's' && "hit"@[0] == 'h');
    assert(after("p_draw"@, "bj_"@) is None) by {
        assert("p_draw"@[0] == 'p' && "bj_"@[0] == 'b');
    }
    assert("p_draw"@.subrange(0, 2) =~= "p_"@);
    assert("p_draw"@.skip(2) =~= "draw"@);
    assert(after("draw"@, "hold_"@) is None);
}

/// The prefix of the data tells which game a press belongs to, and the rest which move
/// it is; data with none of the four prefixes mean nothing.
#[verifier::rlimit(40)]
pub proof fn presses_are_told_by_their_prefix(data: Seq<char>, rest: Seq<char>, i: usize)
    ensures
        press_of("bj_"@ + rest) == Press::Blackjack(
            if rest == "hit"@ {
                BlackjackMove::Hit
            } else if rest == "stand"@ {
                BlackjackMove::Stand
            } else {
                BlackjackMove::Nothing
            },
        ),
        press_of("p_"@ + rest) is Poker,
        press_of("p_"@ + rest) == Press::Poker(PokerMove::Draw) <==> rest == "draw"@,
        press_of("p_"@ + ("hold_"@ + rest)) == Press::Poker(PokerMove::Hold(i)) <==> usize_in(rest)
            == Some(i),
        press_of("p_"@ + ("hold_"@ + rest)) == Press::Poker(PokerMove::Nothing) <==> usize_in(rest)
            is None,
        press_of("flip_"@ + rest) is Flip,
        press_of("flip_"@ + rest) == Press::Flip(None) <==> fields(rest, '_').len() != 3,
        press_of("dice_"@ + rest) is Dice,
        press_of("dice_"@ + rest) == Press::Dice(None) <==> fields(rest, '_').len() != 3,
        press_of(data) is Unknown <==> !"bj_"@.is_prefix_of(data) && !"p_"@.is_prefix_of(data)
            && !"flip_"@.is_prefix_of(data) && !"dice_"@.is_prefix_of(data),
{
    reveal_strlit("bj_");
    reveal_strlit("p_");
    reveal_strlit("flip_");
    reveal_strlit("dice_");
    reveal_strlit("hold_");
    reveal_strlit("draw");
    assert("bj_"@[0] == 'b' && "p_"@[0] == 'p' && "flip_"@[0] == 'f' && "dice_"@[0] == 'd');
    assert("hold_"@[0] == 'h' && "draw"@[0] == 'd');
    prefix_and_rest_make_the_text("bj_"@ + rest, "bj_"@, rest);
    prefix_and_rest_make_the_text("p_"@ + rest, "p_"@, rest);
    prefix_and_rest_make_the_text("p_"@ + ("hold_"@ + rest), "p_"@, "hold_"@ + rest);
    prefix_and_rest_make_the_text("hold_"@ + rest, "hold_"@, rest);
    prefix_and_rest_make_the_text("flip_"@ + rest, "flip_"@, rest);
    prefix_and_rest_make_the_text("dice_"@ + rest, "dice_"@, rest);
    assert(("p_"@ + rest)[0] == 'p');
    assert(("p_"@ + ("hold_"@ + rest))[0] == 'p');
    assert(("flip_"@ + rest)[0] == 'f');
    assert(("dice_"@ + rest)[0] == 'd');
    assert(("hold_"@ + rest)[0] == 'h');
    if rest == "draw"@ {
        assert(rest[0] == 'd');
        assert(after(rest, "hold_"@) is None);
    }
}

proof fn lemma_bet_prefixes(rest: Seq<char>)
    ensures
        press_of("flip_"@ + rest) == Press::Flip(flip_bet(rest)),
        press_of("dice_"@ + rest) == Press::Dice(dice_bet(rest)),
{
    prefix_and_rest_make_the_text("flip_"@ + rest, "flip_"@, rest);
    prefix_and_rest_make_the_text("dice_"@ + rest, "dice_"@, rest);
    reveal_strlit("bj_");
    reveal_strlit("p_");
    reveal_strlit("flip_");
    reveal_strlit("dice_");
    assert("bj_"@[0] == 'b' && "p_"@[0] == 'p' && "flip_"@[0] == 'f' && "dice_"@[0] == 'd');
    assert(("flip_"@ + rest)[0] == 'f');
    assert(("dice_"@ + rest)[0] == 'd');
}

/// A bet is read from three fields: the side or the guess, the amount, and the player;
/// a field that is no number counts as zero.
#[verifier::rlimit(40)]
pub proof fn bets_are_read_from_three_fields(a: Seq<char>, b: Seq<char>, c: Seq<char>)
    requires
        !a.contains('_'),
        !b.contains('_'),
        !c.contains('_'),
    ensures
        ({
            let rest = a + "_"@ + b + "_"@ + c;
            let number = |s: Seq<char>|
                match i32_in(s) {
                    Some(n) => n,
                    None => 0,
                };
            let user = match i64_in(c) {
                Some(n) => n,
                None => 0,
            };
            &&& press_of("flip_"@ + rest) == Press::Flip(
                Some(
                    FlipBet {
                        side: if a == "h"@ {
                            Side::Heads
                        } else if a == "t"@ {
                            Side::Tails
                        } else {
                            Side::Neither
                        },
                        bet: number(b),
                        user,
                    },
                ),
            )
            &&& press_of("dice_"@ + rest) == Press::Dice(
                Some(DiceBet { guess: number(a), bet: number(b), user }),
            )
        }),
{
    let rest = a + "_"@ + b + "_"@ + c;
    lemma_three_fields(a, b, c);
    lemma_bet_prefixes(rest);
    assert(fields(rest, '_')[0] == a && fields(rest, '_')[1] == b && fields(rest, '_')[2] == c);
}

} // verus!
