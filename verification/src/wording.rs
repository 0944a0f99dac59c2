//! What replies say: which message, and what stands in its slots.

use vstd::prelude::*;

use crate::bets::BetError;
use crate::cards::{card_text, CardView};
use crate::hand_rank::{rank_key_of, HandRank};
use crate::keyboard::reply_buttons;
use crate::locale::{is_message, message_for, MessageView, Tables};
use crate::message::{
    a_slot_takes_its_value, has_no_brace, is_slot, piece_renders, pieces_come_out_in_order,
    renders, template_renders, FillView, FillingView, PieceView,
};
use crate::reply::{
    card_row, is_html, leader_views, reply_lang, reply_text, BlackjackStage, BlackjackTableView,
    Lang, LeaderRow, LeaderView, Notice, PokerStage, ReplyView,
};
use crate::text::{
    decimal, decimal_nat, is_digit, joining_keeps_the_order, lemma_decimal_nat_reads_back,
};

verus! {

/// Whether a text can be said for a notice.
pub open spec fn told(tables: Tables, lang: Seq<char>, notice: Notice, text: Seq<char>) -> bool {
    renders(tables, lang, reply_text(ReplyView::Notice(notice)), text)
}

/// Whether a slot is filled with a value: where the message under the key has that slot
/// and no other, the text is the message with the value in its place.
pub open spec fn fills_in(
    tables: Tables,
    lang: Seq<char>,
    key: Seq<char>,
    pre: Seq<char>,
    slot: Seq<char>,
    value: Seq<char>,
    post: Seq<char>,
    text: Seq<char>,
) -> bool {
    message_for(tables, lang, key) == Some(MessageView::Text(pre + slot + post)) ==> text == pre
        + value + post
}

proof fn lemma_number_has_no_brace(n: int)
    ensures
        has_no_brace(decimal(n)),
{
    let size = if n < 0 {
        -n
    } else {
        n
    };
    let digits = decimal_nat(size as nat);
    lemma_decimal_nat_reads_back(size as nat);
    assert forall|i: int| 0 <= i < decimal(n).len() implies #[trigger] decimal(n)[i] != '{' by {
        let at = if n < 0 {
            i - 1
        } else {
            i
        };
        if at >= 0 {
            assert(decimal(n)[i] == digits[at]);
            assert(is_digit(digits[at]));
        }
    }
}

#[verifier::rlimit(40)]
proof fn lemma_slots()
    ensures
        is_slot("{tokens}"@),
        is_slot("{debt}"@),
        is_slot("{net}"@),
        is_slot("{bet}"@),
        is_slot("{hours}"@),
        is_slot("{mins}"@),
        is_slot("{winnings}"@),
        is_slot("{side}"@),
        is_slot("{value}"@),
        is_slot("{p_cards}"@),
        is_slot("{p_score}"@),
        is_slot("{d_cards}"@),
        is_slot("{d_card}"@),
        is_slot("{d_score}"@),
        is_slot("{i}"@),
        is_slot("{card}"@),
        is_slot("{held}"@),
        is_slot("{rank}"@),
        "{tokens}"@ != "{debt}"@,
        "{tokens}"@ != "{net}"@,
        "{debt}"@ != "{net}"@,
        "{hours}"@ != "{mins}"@,
        "{side}"@ != "{winnings}"@,
        "{side}"@ != "{bet}"@,
        "{value}"@ != "{bet}"@,
        "{p_cards}"@ != "{p_score}"@,
        "{p_cards}"@ != "{d_cards}"@,
        "{p_cards}"@ != "{d_card}"@,
        "{p_cards}"@ != "{d_score}"@,
        "{p_score}"@ != "{d_cards}"@,
        "{p_score}"@ != "{d_card}"@,
        "{p_score}"@ != "{d_score}"@,
        "{d_cards}"@ != "{d_score}"@,
        "{d_card}"@ != "{d_score}"@,
        "{i}"@ != "{card}"@,
        "{i}"@ != "{held}"@,
        "{card}"@ != "{held}"@,
        "{rank}"@ != "{winnings}"@,
        "{rank}"@ != "{bet}"@,
{
    reveal_strlit("{tokens}");
    reveal_strlit("{debt}");
    reveal_strlit("{net}");
    reveal_strlit("{bet}");
    reveal_strlit("{hours}");
    reveal_strlit("{mins}");
    reveal_strlit("{winnings}");
    reveal_strlit("{side}");
    reveal_strlit("{value}");
    reveal_strlit("{p_cards}");
    reveal_strlit("{p_score}");
    reveal_strlit("{d_cards}");
    reveal_strlit("{d_card}");
    reveal_strlit("{d_score}");
    reveal_strlit("{i}");
    reveal_strlit("{card}");
    reveal_strlit("{held}");
    reveal_strlit("{rank}");
    assert("{tokens}"@[0] == '{' && "{tokens}"@[1] == 't' && "{tokens}"@[2] == 'o' && "{tokens}"@[3] == 'k' && "{tokens}"@[4] == 'e' && "{tokens}"@[5] == 'n' && "{tokens}"@[6] == 's' && "{tokens}"@[7] == '}');
    assert("{debt}"@[0] == '{' && "{debt}"@[1] == 'd' && "{debt}"@[2] == 'e' && "{debt}"@[3] == 'b' && "{debt}"@[4] == 't' && "{debt}"@[5] == '}');
    assert("{net}"@[0] == '{' && "{net}"@[1] == 'n' && "{net}"@[2] == 'e' && "{net}"@[3] == 't' && "{net}"@[4] == '}');
    assert("{bet}"@[0] == '{' && "{bet}"@[1] == 'b' && "{bet}"@[2] == 'e' && "{bet}"@[3] == 't' && "{bet}"@[4] == '}');
    assert("{hours}"@[0] == '{' && "{hours}"@[1] == 'h' && "{hours}"@[2] == 'o' && "{hours}"@[3] == 'u' && "{hours}"@[4] == 'r' && "{hours}"@[5] == 's' && "{hours}"@[6] == '}');
    assert("{mins}"@[0] == '{' && "{mins}"@[1] == 'm' && "{mins}"@[2] == 'i' && "{mins}"@[3] == 'n' && "{mins}"@[4] == 's' && "{mins}"@[5] == '}');
    assert("{winnings}"@[0] == '{' && "{winnings}"@[1] == 'w' && "{winnings}"@[2] == 'i' && "{winnings}"@[3] == 'n' && "{winnings}"@[4] == 'n' && "{winnings}"@[5] == 'i' && "{winnings}"@[6] == 'n' && "{winnings}"@[7] == 'g' && "{winnings}"@[8] == 's' && "{winnings}"@[9] == '}');
    assert("{side}"@[0] == '{' && "{side}"@[1] == 's' && "{side}"@[2] == 'i' && "{side}"@[3] == 'd' && "{side}"@[4] == 'e' && "{side}"@[5] == '}');
    assert("{value}"@[0] == '{' && "{value}"@[1] == 'v' && "{value}"@[2] == 'a' && "{value}"@[3] == 'l' && "{value}"@[4] == 'u' && "{value}"@[5] == 'e' && "{value}"@[6] == '}');
    assert("{p_cards}"@[0] == '{' && "{p_cards}"@[1] == 'p' && "{p_cards}"@[2] == '_' && "{p_cards}"@[3] == 'c' && "{p_cards}"@[4] == 'a' && "{p_cards}"@[5] == 'r' && "{p_cards}"@[6] == 'd' && "{p_cards}"@[7] == 's' && "{p_cards}"@[8] == '}');
    assert("{p_score}"@[0] == '{' && "{p_score}"@[1] == 'p' && "{p_score}"@[2] == '_' && "{p_score}"@[3] == 's' && "{p_score}"@[4] == 'c' && "{p_score}"@[5] == 'o' && "{p_score}"@[6] == 'r' && "{p_score}"@[7] == 'e' && "{p_score}"@[8] == '}');
    assert("{d_cards}"@[0] == '{' && "{d_cards}"@[1] == 'd' && "{d_cards}"@[2] == '_' && "{d_cards}"@[3] == 'c' && "{d_cards}"@[4] == 'a' && "{d_cards}"@[5] == 'r' && "{d_cards}"@[6] == 'd' && "{d_cards}"@[7] == 's' && "{d_cards}"@[8] == '}');
    assert("{d_card}"@[0] == '{' && "{d_card}"@[1] == 'd' && "{d_card}"@[2] == '_' && "{d_card}"@[3] == 'c' && "{d_card}"@[4] == 'a' && "{d_card}"@[5] == 'r' && "{d_card}"@[6] == 'd' && "{d_card}"@[7] == '}');
    assert("{d_score}"@[0] == '{' && "{d_score}"@[1] == 'd' && "{d_score}"@[2] == '_' && "{d_score}"@[3] == 's' && "{d_score}"@[4] == 'c' && "{d_score}"@[5] == 'o' && "{d_score}"@[6] == 'r' && "{d_score}"@[7] == 'e' && "{d_score}"@[8] == '}');
    assert("{i}"@[0] == '{' && "{i}"@[1] == 'i' && "{i}"@[2] == '}');
    assert("{card}"@[0] == '{' && "{card}"@[1] == 'c' && "{card}"@[2] == 'a' && "{card}"@[3] == 'r' && "{card}"@[4] == 'd' && "{card}"@[5] == '}');
    assert("{held}"@[0] == '{' && "{held}"@[1] == 'h' && "{held}"@[2] == 'e' && "{held}"@[3] == 'l' && "{held}"@[4] == 'd' && "{held}"@[5] == '}');
    assert("{rank}"@[0] == '{' && "{rank}"@[1] == 'r' && "{rank}"@[2] == 'a' && "{rank}"@[3] == 'n' && "{rank}"@[4] == 'k' && "{rank}"@[5] == '}');
}

/// A single message with its slots filled.
proof fn lemma_fills_in(
    tables: Tables,
    lang: Seq<char>,
    piece: PieceView,
    key: Seq<char>,
    fills: Seq<FillView>,
    k: int,
    pre: Seq<char>,
    value: Seq<char>,
    post: Seq<char>,
    text: Seq<char>,
)
    requires
        has_no_brace(pre),
        has_no_brace(value),
        has_no_brace(post),
        piece == (PieceView::Template { key, fills }),
        0 <= k < fills.len(),
        forall|j: int| 0 <= j < fills.len() ==> is_slot((#[trigger] fills[j]).slot),
        forall|i: int, j: int|
            0 <= i < j < fills.len() ==> (#[trigger] fills[i]).slot != (#[trigger] fills[j]).slot,
        match fills[k].filling {
            FillingView::Plain(s) => s == value,
            FillingView::Message(other) => message_for(tables, lang, other) == Some(
                MessageView::Text(value),
            ),
        },
        piece_renders(tables, lang, piece, text),
    ensures
        fills_in(tables, lang, key, pre, fills[k].slot, value, post, text),
{
    if message_for(tables, lang, key) == Some(MessageView::Text(pre + fills[k].slot + post)) {
        a_slot_takes_its_value(tables, lang, key, fills, k, pre, value, post, text);
    }
}

proof fn lemma_single(
    tables: Tables,
    lang: Seq<char>,
    list: Seq<PieceView>,
    text: Seq<char>,
)
    requires
        list.len() == 1,
        renders(tables, lang, list, text),
    ensures
        piece_renders(tables, lang, list[0], text),
{
    pieces_come_out_in_order(tables, lang, Seq::empty(), list[0], text);
    assert(list =~= seq![list[0]]);
}

/// The balance is told with its tokens and its debt.
pub proof fn balance_is_told(
    tables: Tables,
    lang: Seq<char>,
    pre: Seq<char>,
    post: Seq<char>,
    text: Seq<char>,
    tokens: i32,
    debt: i32,
)
    requires
        has_no_brace(pre),
        has_no_brace(post),
        told(tables, lang, Notice::Welcome { tokens, debt }, text),
    ensures
        fills_in(tables, lang, "welcome"@, pre, "{tokens}"@, decimal(tokens as int), post, text),
        fills_in(tables, lang, "welcome"@, pre, "{debt}"@, decimal(debt as int), post, text),
{
    lemma_slots();
    let list = reply_text(ReplyView::Notice(Notice::Welcome { tokens, debt }));
    lemma_single(tables, lang, list, text);
    let fills = list[0]->fills;
    lemma_number_has_no_brace(tokens as int);
    lemma_fills_in(
        tables,
        lang,
        list[0],
        "welcome"@,
        fills,
        0,
        pre,
        decimal(tokens as int),
        post,
        text,
    );
    lemma_number_has_no_brace(debt as int);
    lemma_fills_in(
        tables,
        lang,
        list[0],
        "welcome"@,
        fills,
        1,
        pre,
        decimal(debt as int),
        post,
        text,
    );
}

/// A new default bet is confirmed with its amount.
pub proof fn new_default_is_told(
    tables: Tables,
    lang: Seq<char>,
    pre: Seq<char>,
    post: Seq<char>,
    text: Seq<char>,
    bet: i32,
)
    requires
        has_no_brace(pre),
        has_no_brace(post),
        told(tables, lang, Notice::SetBetSuccess { bet }, text),
    ensures
        fills_in(tables, lang, "setbet_success"@, pre, "{bet}"@, decimal(bet as int), post, text),
{
    lemma_slots();
    let list = reply_text(ReplyView::Notice(Notice::SetBetSuccess { bet }));
    lemma_single(tables, lang, list, text);
    let fills = list[0]->fills;
    lemma_number_has_no_brace(bet as int);
    lemma_fills_in(
        tables,
        lang,
        list[0],
        "setbet_success"@,
        fills,
        0,
        pre,
        decimal(bet as int),
        post,
        text,
    );
}

/// The wait for the daily reward is told in hours and minutes.
pub proof fn wait_is_told(
    tables: Tables,
    lang: Seq<char>,
    pre: Seq<char>,
    post: Seq<char>,
    text: Seq<char>,
    hours: i64,
    mins: i64,
)
    requires
        has_no_brace(pre),
        has_no_brace(post),
        told(tables, lang, Notice::DailyWait { hours, mins }, text),
    ensures
        fills_in(tables, lang, "daily_wait"@, pre, "{hours}"@, decimal(hours as int), post, text),
        fills_in(tables, lang, "daily_wait"@, pre, "{mins}"@, decimal(mins as int), post, text),
{
    lemma_slots();
    let list = reply_text(ReplyView::Notice(Notice::DailyWait { hours, mins }));
    lemma_single(tables, lang, list, text);
    let fills = list[0]->fills;
    lemma_number_has_no_brace(hours as int);
    lemma_fills_in(
        tables,
        lang,
        list[0],
        "daily_wait"@,
        fills,
        0,
        pre,
        decimal(hours as int),
        post,
        text,
    );
    lemma_number_has_no_brace(mins as int);
    lemma_fills_in(
        tables,
        lang,
        list[0],
        "daily_wait"@,
        fills,
        1,
        pre,
        decimal(mins as int),
        post,
        text,
    );
}

/// The net worth is told with the tokens and the debt of all.
pub proof fn net_worth_is_told(
    tables: Tables,
    lang: Seq<char>,
    pre: Seq<char>,
    post: Seq<char>,
    text: Seq<char>,
    tokens: i64,
    debt: i64,
    net: i64,
)
    requires
        has_no_brace(pre),
        has_no_brace(post),
        told(tables, lang, Notice::NetWorth { tokens, debt, net }, text),
    ensures
        fills_in(tables, lang, "networth"@, pre, "{tokens}"@, decimal(tokens as int), post, text),
        fills_in(tables, lang, "networth"@, pre, "{debt}"@, decimal(debt as int), post, text),
        fills_in(tables, lang, "networth"@, pre, "{net}"@, decimal(net as int), post, text),
{
    lemma_slots();
    let list = reply_text(ReplyView::Notice(Notice::NetWorth { tokens, debt, net }));
    lemma_single(tables, lang, list, text);
    let fills = list[0]->fills;
    lemma_number_has_no_brace(tokens as int);
    lemma_fills_in(
        tables,
        lang,
        list[0],
        "networth"@,
        fills,
        0,
        pre,
        decimal(tokens as int),
        post,
        text,
    );
    lemma_number_has_no_brace(debt as int);
    lemma_fills_in(
        tables,
        lang,
        list[0],
        "networth"@,
        fills,
        1,
        pre,
        decimal(debt as int),
        post,
        text,
    );
    lemma_number_has_no_brace(net as int);
    lemma_fills_in(
        tables,
        lang,
        list[0],
        "networth"@,
        fills,
        2,
        pre,
        decimal(net as int),
        post,
        text,
    );
}

/// A lost turn of the slot machine is told with the bet.
pub proof fn lost_spin_is_told(
    tables: Tables,
    lang: Seq<char>,
    pre: Seq<char>,
    post: Seq<char>,
    text: Seq<char>,
    bet: i32,
)
    requires
        has_no_brace(pre),
        has_no_brace(post),
        told(tables, lang, Notice::SpinLose { bet }, text),
    ensures
        fills_in(tables, lang, "spin_lose"@, pre, "{bet}"@, decimal(bet as int), post, text),
{
    lemma_slots();
    let list = reply_text(ReplyView::Notice(Notice::SpinLose { bet }));
    lemma_single(tables, lang, list, text);
    let fills = list[0]->fills;
    lemma_number_has_no_brace(bet as int);
    lemma_fills_in(
        tables,
        lang,
        list[0],
        "spin_lose"@,
        fills,
        0,
        pre,
        decimal(bet as int),
        post,
        text,
    );
}

/// A turn of the slot machine that was won is told with the winnings.
pub proof fn won_spin_is_told(
    tables: Tables,
    lang: Seq<char>,
    pre: Seq<char>,
    post: Seq<char>,
    text: Seq<char>,
    winnings: i32,
)
    requires
        has_no_brace(pre),
        has_no_brace(post),
        told(tables, lang, Notice::SpinWin { winnings, record: false }, text),
    ensures
        fills_in(tables, lang, "spin_win"@, pre, "{winnings}"@, decimal(winnings as int), post, text),
{
    lemma_slots();
    let list = reply_text(ReplyView::Notice(Notice::SpinWin { winnings, record: false }));
    lemma_single(tables, lang, list, text);
    let fills = list[0]->fills;
    lemma_number_has_no_brace(winnings as int);
    lemma_fills_in(
        tables,
        lang,
        list[0],
        "spin_win"@,
        fills,
        0,
        pre,
        decimal(winnings as int),
        post,
        text,
    );
}

/// A coin flip is offered with the bet.
pub proof fn flip_is_offered(
    tables: Tables,
    lang: Seq<char>,
    pre: Seq<char>,
    post: Seq<char>,
    text: Seq<char>,
    bet: i32,
    user: i64,
)
    requires
        has_no_brace(pre),
        has_no_brace(post),
        told(tables, lang, Notice::FlipPrompt { bet, user }, text),
    ensures
        fills_in(tables, lang, "flip_prompt"@, pre, "{bet}"@, decimal(bet as int), post, text),
{
    lemma_slots();
    let list = reply_text(ReplyView::Notice(Notice::FlipPrompt { bet, user }));
    lemma_single(tables, lang, list, text);
    let fills = list[0]->fills;
    lemma_number_has_no_brace(bet as int);
    lemma_fills_in(
        tables,
        lang,
        list[0],
        "flip_prompt"@,
        fills,
        0,
        pre,
        decimal(bet as int),
        post,
        text,
    );
}

/// A roll of the dice is offered with the bet.
pub proof fn roll_is_offered(
    tables: Tables,
    lang: Seq<char>,
    pre: Seq<char>,
    post: Seq<char>,
    text: Seq<char>,
    bet: i32,
    user: i64,
)
    requires
        has_no_brace(pre),
        has_no_brace(post),
        told(tables, lang, Notice::DicePrompt { bet, user }, text),
    ensures
        fills_in(tables, lang, "dice_prompt"@, pre, "{bet}"@, decimal(bet as int), post, text),
{
    lemma_slots();
    let list = reply_text(ReplyView::Notice(Notice::DicePrompt { bet, user }));
    lemma_single(tables, lang, list, text);
    let fills = list[0]->fills;
    lemma_number_has_no_brace(bet as int);
    lemma_fills_in(
        tables,
        lang,
        list[0],
        "dice_prompt"@,
        fills,
        0,
        pre,
        decimal(bet as int),
        post,
        text,
    );
}

/// A roll that was won is told with the winnings.
pub proof fn won_roll_is_told(
    tables: Tables,
    lang: Seq<char>,
    pre: Seq<char>,
    post: Seq<char>,
    text: Seq<char>,
    winnings: i32,
)
    requires
        has_no_brace(pre),
        has_no_brace(post),
        told(tables, lang, Notice::DiceWin { winnings, record: false }, text),
    ensures
        fills_in(tables, lang, "dice_win"@, pre, "{winnings}"@, decimal(winnings as int), post, text),
{
    lemma_slots();
    let list = reply_text(ReplyView::Notice(Notice::DiceWin { winnings, record: false }));
    lemma_single(tables, lang, list, text);
    let fills = list[0]->fills;
    lemma_number_has_no_brace(winnings as int);
    lemma_fills_in(
        tables,
        lang,
        list[0],
        "dice_win"@,
        fills,
        0,
        pre,
        decimal(winnings as int),
        post,
        text,
    );
}

/// A lost roll is told with what the dice showed and the bet.
pub proof fn lost_roll_is_told(
    tables: Tables,
    lang: Seq<char>,
    pre: Seq<char>,
    post: Seq<char>,
    text: Seq<char>,
    value: i32,
    bet: i32,
)
    requires
        has_no_brace(pre),
        has_no_brace(post),
        told(tables, lang, Notice::DiceLose { value, bet }, text),
    ensures
        fills_in(tables, lang, "dice_lose"@, pre, "{value}"@, decimal(value as int), post, text),
        fills_in(tables, lang, "dice_lose"@, pre, "{bet}"@, decimal(bet as int), post, text),
{
    lemma_slots();
    let list = reply_text(ReplyView::Notice(Notice::DiceLose { value, bet }));
    lemma_single(tables, lang, list, text);
    let fills = list[0]->fills;
    lemma_number_has_no_brace(value as int);
    lemma_fills_in(
        tables,
        lang,
        list[0],
        "dice_lose"@,
        fills,
        0,
        pre,
        decimal(value as int),
        post,
        text,
    );
    lemma_number_has_no_brace(bet as int);
    lemma_fills_in(
        tables,
        lang,
        list[0],
        "dice_lose"@,
        fills,
        1,
        pre,
        decimal(bet as int),
        post,
        text,
    );
}

/// A coin flip that was won is told with the side that showed and the winnings.
pub proof fn won_flip_is_told(
    tables: Tables,
    lang: Seq<char>,
    pre: Seq<char>,
    post: Seq<char>,
    text: Seq<char>,
    heads: bool,
    winnings: i32,
    side: Seq<char>,
)
    requires
        has_no_brace(pre),
        has_no_brace(post),
        has_no_brace(side),
        told(tables, lang, Notice::FlipWin { heads, winnings, record: false }, text),
    ensures
        fills_in(tables, lang, "flip_win"@, pre, "{winnings}"@, decimal(winnings as int), post, text),
        message_for(
            tables,
            lang,
            if heads {
                "coin_heads"@
            } else {
                "coin_tails"@
            },
        ) == Some(MessageView::Text(side)) ==> fills_in(
            tables,
            lang,
            "flip_win"@,
            pre,
            "{side}"@,
            side,
            post,
            text,
        ),
{
    lemma_slots();
    lemma_number_has_no_brace(winnings as int);
    let list = reply_text(ReplyView::Notice(Notice::FlipWin { heads, winnings, record: false }));
    lemma_single(tables, lang, list, text);
    let fills = list[0]->fills;
    lemma_fills_in(
        tables,
        lang,
        list[0],
        "flip_win"@,
        fills,
        1,
        pre,
        decimal(winnings as int),
        post,
        text,
    );
    if fills[0].filling matches FillingView::Message(key) && message_for(tables, lang, key) == Some(
        MessageView::Text(side),
    ) {
        lemma_fills_in(tables, lang, list[0], "flip_win"@, fills, 0, pre, side, post, text);
    }
}

/// A lost coin flip is told with the side that showed and the bet.
pub proof fn lost_flip_is_told(
    tables: Tables,
    lang: Seq<char>,
    pre: Seq<char>,
    post: Seq<char>,
    text: Seq<char>,
    heads: bool,
    bet: i32,
    side: Seq<char>,
)
    requires
        has_no_brace(pre),
        has_no_brace(post),
        has_no_brace(side),
        told(tables, lang, Notice::FlipLose { heads, bet }, text),
    ensures
        fills_in(tables, lang, "flip_lose"@, pre, "{bet}"@, decimal(bet as int), post, text),
        message_for(
            tables,
            lang,
            if heads {
                "coin_heads"@
            } else {
                "coin_tails"@
            },
        ) == Some(MessageView::Text(side)) ==> fills_in(
            tables,
            lang,
            "flip_lose"@,
            pre,
            "{side}"@,
            side,
            post,
            text,
        ),
{
    lemma_slots();
    lemma_number_has_no_brace(bet as int);
    let list = reply_text(ReplyView::Notice(Notice::FlipLose { heads, bet }));
    lemma_single(tables, lang, list, text);
    let fills = list[0]->fills;
    lemma_fills_in(
        tables,
        lang,
        list[0],
        "flip_lose"@,
        fills,
        1,
        pre,
        decimal(bet as int),
        post,
        text,
    );
    if fills[0].filling matches FillingView::Message(key) && message_for(tables, lang, key) == Some(
        MessageView::Text(side),
    ) {
        lemma_fills_in(tables, lang, list[0], "flip_lose"@, fills, 0, pre, side, post, text);
    }
}

/// Other notices say the message under their key, with nothing filled in.
#[verifier::rlimit(40)]
pub proof fn plain_notices_say_their_message(
    tables: Tables,
    lang: Seq<char>,
    chosen: Lang,
    text: Seq<char>,
)
    ensures
        ({
            let only = |notice: Notice, key: Seq<char>|
                told(tables, lang, notice, text) ==> is_message(tables, lang, key, text);
            &&& only(Notice::Help, "help"@)
            &&& only(Notice::LangSet(chosen), "lang_set"@)
            &&& only(Notice::SetBetUsage, "setbet_usage"@)
            &&& only(Notice::BetRefused(BetError::Missing), "missing_bet"@)
            &&& only(Notice::BetRefused(BetError::OutOfBounds), "bet_out_of_bounds"@)
            &&& only(Notice::BetRefused(BetError::Invalid), "invalid_bet"@)
            &&& only(Notice::DailySuccess, "daily_success"@)
            &&& only(Notice::FaucetGranted, "faucet_granted"@)
            &&& only(Notice::Cooldown, "cooldown_active"@)
            &&& only(Notice::WrongUser, "wrong_user"@)
        }),
{
    let notices = seq![
        Notice::Help,
        Notice::LangSet(chosen),
        Notice::SetBetUsage,
        Notice::BetRefused(BetError::Missing),
        Notice::BetRefused(BetError::OutOfBounds),
        Notice::BetRefused(BetError::Invalid),
        Notice::DailySuccess,
        Notice::FaucetGranted,
        Notice::Cooldown,
        Notice::WrongUser,
    ];
    assert forall|i: int|
        0 <= i < notices.len() && told(tables, lang, #[trigger] notices[i], text) implies {
        &&& reply_text(ReplyView::Notice(notices[i])).len() == 1
        &&& reply_text(ReplyView::Notice(notices[i]))[0] matches PieceView::Template { key, .. }
            && is_message(tables, lang, key, text)
    } by {
        lemma_plain(tables, lang, notices[i], text);
    }
    assert(notices[0] == Notice::Help && notices[1] == Notice::LangSet(chosen) && notices[2]
        == Notice::SetBetUsage && notices[3] == Notice::BetRefused(BetError::Missing) && notices[4]
        == Notice::BetRefused(BetError::OutOfBounds) && notices[5] == Notice::BetRefused(
        BetError::Invalid,
    ) && notices[6] == Notice::DailySuccess && notices[7] == Notice::FaucetGranted && notices[8]
        == Notice::Cooldown && notices[9] == Notice::WrongUser);
}

proof fn lemma_plain(tables: Tables, lang: Seq<char>, notice: Notice, text: Seq<char>)
    requires
        told(tables, lang, notice, text),
        reply_text(ReplyView::Notice(notice)).len() == 1,
        reply_text(ReplyView::Notice(notice))[0] matches PieceView::Template { fills, .. }
            && fills.len() == 0,
    ensures
        reply_text(ReplyView::Notice(notice))[0] matches PieceView::Template { key, .. }
            && is_message(tables, lang, key, text),
{
    let list = reply_text(ReplyView::Notice(notice));
    lemma_single(tables, lang, list, text);
    if let PieceView::Template { key, fills } = list[0] {
        assert(template_renders(tables, lang, key, fills, text));
    }
}

/// Three notices have a fixed text, and a repayment is confirmed with its amount.
pub proof fn fixed_notices(tables: Tables, lang: Seq<char>, amount: i32, text: Seq<char>)
    ensures
        told(tables, lang, Notice::FaucetRefused, text) ==> text
            == "⚠️ The casino is out of funds or you are too rich!"@,
        told(tables, lang, Notice::LoanRefused, text) ==> text == "⚠️ Invalid amount."@,
        told(tables, lang, Notice::Rolling, text) ==> text == "🎲 Rolling..."@,
        told(tables, lang, Notice::LoanRepaid { amount }, text) ==> text == "✅ Repaid "@ + decimal(
            amount as int,
        ) + " tokens to the bank."@,
{
    if told(tables, lang, Notice::FaucetRefused, text) {
        lemma_single(
            tables,
            lang,
            reply_text(ReplyView::Notice(Notice::FaucetRefused)),
            text,
        );
    }
    if told(tables, lang, Notice::LoanRefused, text) {
        lemma_single(tables, lang, reply_text(ReplyView::Notice(Notice::LoanRefused)), text);
    }
    if told(tables, lang, Notice::Rolling, text) {
        lemma_single(tables, lang, reply_text(ReplyView::Notice(Notice::Rolling)), text);
    }
    if told(tables, lang, Notice::LoanRepaid { amount }, text) {
        lemma_single(
            tables,
            lang,
            reply_text(ReplyView::Notice(Notice::LoanRepaid { amount })),
            text,
        );
    }
}

/// What a record adds to a reply: an empty line and a message of its own.
pub open spec fn celebration() -> Seq<PieceView> {
    seq![
        PieceView::Literal("\n\n"@),
        PieceView::Template { key: "achievement_unlocked"@, fills: Seq::empty() },
    ]
}

/// A win that is a record is told like any other, and then celebrated.
#[verifier::rlimit(40)]
pub proof fn records_are_celebrated(
    winnings: i32,
    bet: i32,
    heads: bool,
    table: BlackjackTableView,
    hand: Seq<CardView>,
    holds: Seq<bool>,
    rank: HandRank,
)
    ensures
        ({
            let spin = |record: bool|
                reply_text(ReplyView::Notice(Notice::SpinWin { winnings, record }));
            let flip = |record: bool|
                reply_text(ReplyView::Notice(Notice::FlipWin { heads, winnings, record }));
            let dice = |record: bool|
                reply_text(ReplyView::Notice(Notice::DiceWin { winnings, record }));
            let blackjack = |record: bool|
                reply_text(
                    ReplyView::Blackjack { table, stage: BlackjackStage::Won { bet, record } },
                );
            let poker = |record: bool|
                reply_text(
                    ReplyView::Poker {
                        hand,
                        holds,
                        stage: PokerStage::Finished { rank, bet, winnings, record },
                    },
                );
            &&& spin(true) == spin(false) + celebration()
            &&& flip(true) == flip(false) + celebration()
            &&& dice(true) == dice(false) + celebration()
            &&& blackjack(true) == blackjack(false) + celebration()
            &&& winnings > 0 ==> poker(true) == poker(false) + celebration()
            &&& winnings <= 0 ==> poker(true) == poker(false)
        }),
{
    let spin = |record: bool|
        reply_text(ReplyView::Notice(Notice::SpinWin { winnings, record }));
    assert(spin(true) =~= spin(false) + celebration());
    let flip = |record: bool|
        reply_text(ReplyView::Notice(Notice::FlipWin { heads, winnings, record }));
    assert(flip(true) =~= flip(false) + celebration());
    let dice = |record: bool|
        reply_text(ReplyView::Notice(Notice::DiceWin { winnings, record }));
    assert(dice(true) =~= dice(false) + celebration());
    let blackjack = |record: bool|
        reply_text(ReplyView::Blackjack { table, stage: BlackjackStage::Won { bet, record } });
    assert(blackjack(true) =~= blackjack(false) + celebration());
    let poker = |record: bool|
        reply_text(
            ReplyView::Poker {
                hand,
                holds,
                stage: PokerStage::Finished { rank, bet, winnings, record },
            },
        );
    if winnings > 0 {
        assert(poker(true) =~= poker(false) + celebration());
    } else {
        assert(poker(true) =~= poker(false));
    }
}

/// The leaderboard begins with its title and an empty line; each player that follows
/// adds one line with the next place, the name and the tokens.
pub proof fn leaderboard_grows_by_a_line(rows: Seq<LeaderView>, row: LeaderView)
    ensures
        reply_text(ReplyView::Leaderboard(Seq::empty())) == seq![
            PieceView::Template { key: "top_title"@, fills: Seq::empty() },
            PieceView::Literal("\n\n"@),
        ],
        reply_text(ReplyView::Leaderboard(rows.push(row))) == reply_text(
            ReplyView::Leaderboard(rows),
        ).push(
            PieceView::Literal(
                decimal(rows.len() as int + 1) + ". <b>"@ + row.username + "</b> - "@ + decimal(
                    row.tokens as int,
                ) + " tokens\n"@,
            ),
        ),
{
    assert(reply_text(ReplyView::Leaderboard(Seq::empty())) =~= seq![
        PieceView::Template { key: "top_title"@, fills: Seq::empty() },
        PieceView::Literal("\n\n"@),
    ]);
    let line = PieceView::Literal(
        decimal(rows.len() as int + 1) + ". <b>"@ + row.username + "</b> - "@ + decimal(row.tokens as int)
            + " tokens\n"@,
    );
    assert(reply_text(ReplyView::Leaderboard(rows.push(row))) =~= reply_text(
        ReplyView::Leaderboard(rows),
    ).push(line));
}

/// Cards are shown next to each other, with a space in between.
pub proof fn cards_are_shown_next_to_each_other(a: Seq<CardView>, b: Seq<CardView>, c: CardView)
    ensures
        card_row(seq![c]) == card_text(c),
        card_row(Seq::empty()) == Seq::<char>::empty(),
        a.len() > 0 && b.len() > 0 ==> card_row(a + b) == card_row(a) + " "@ + card_row(b),
{
    let show = |c: CardView| card_text(c);
    joining_keeps_the_order(a.map_values(show), b.map_values(show), " "@);
    assert((a + b).map_values(show) =~= a.map_values(show) + b.map_values(show));
    assert(seq![c].map_values(show) =~= seq![card_text(c)]);
    assert(Seq::<CardView>::empty().map_values(show) =~= Seq::empty());
    joining_keeps_the_order(seq![card_text(c)], Seq::empty(), " "@);
}

#[verifier::rlimit(40)]
proof fn lemma_table_fills(
    tables: Tables,
    lang: Seq<char>,
    pre: Seq<char>,
    post: Seq<char>,
    text: Seq<char>,
    piece: PieceView,
    key: Seq<char>,
    dealer_slot: Seq<char>,
    table: BlackjackTableView,
)
    requires
        has_no_brace(pre),
        has_no_brace(post),
        has_no_brace(card_row(table.player)),
        has_no_brace(card_row(table.dealer)),
        dealer_slot == "{d_card}"@ || dealer_slot == "{d_cards}"@,
        piece matches PieceView::Template { key: k, fills } && {
            &&& k == key
            &&& fills.len() == 4
            &&& fills[0] == (FillView {
                slot: "{p_cards}"@,
                filling: FillingView::Plain(card_row(table.player)),
            })
            &&& fills[1] == (FillView {
                slot: "{p_score}"@,
                filling: FillingView::Plain(decimal(table.player_score as int)),
            })
            &&& fills[2] == (FillView {
                slot: dealer_slot,
                filling: FillingView::Plain(card_row(table.dealer)),
            })
            &&& fills[3] == (FillView {
                slot: "{d_score}"@,
                filling: FillingView::Plain(decimal(table.dealer_score as int)),
            })
        },
        piece_renders(tables, lang, piece, text),
    ensures
        fills_in(tables, lang, key, pre, "{p_cards}"@, card_row(table.player), post, text),
        fills_in(
            tables,
            lang,
            key,
            pre,
            "{p_score}"@,
            decimal(table.player_score as int),
            post,
            text,
        ),
        fills_in(tables, lang, key, pre, dealer_slot, card_row(table.dealer), post, text),
        fills_in(
            tables,
            lang,
            key,
            pre,
            "{d_score}"@,
            decimal(table.dealer_score as int),
            post,
            text,
        ),
{
    lemma_slots();
    lemma_number_has_no_brace(table.player_score as int);
    lemma_number_has_no_brace(table.dealer_score as int);
    if let PieceView::Template { key: k, fills } = piece {
        assert forall|j: int| 0 <= j < fills.len() implies is_slot((#[trigger] fills[j]).slot) by {
            assert(j == 0 || j == 1 || j == 2 || j == 3);
        }
        lemma_fills_in(tables, lang, piece, key, fills, 0, pre, card_row(table.player), post, text);
        lemma_fills_in(
            tables,
            lang,
            piece,
            key,
            fills,
            1,
            pre,
            decimal(table.player_score as int),
            post,
            text,
        );
        lemma_fills_in(tables, lang, piece, key, fills, 2, pre, card_row(table.dealer), post, text);
        lemma_fills_in(
            tables,
            lang,
            piece,
            key,
            fills,
            3,
            pre,
            decimal(table.dealer_score as int),
            post,
            text,
        );
    }
}

/// While a game of blackjack goes on, the table is told under one message, with the
/// cards that it shows and their scores.
pub proof fn open_table_is_told(
    tables: Tables,
    lang: Seq<char>,
    pre: Seq<char>,
    post: Seq<char>,
    text: Seq<char>,
    table: BlackjackTableView,
)
    requires
        has_no_brace(pre),
        has_no_brace(post),
        has_no_brace(card_row(table.player)),
        has_no_brace(card_row(table.dealer)),
        renders(
            tables,
            lang,
            reply_text(ReplyView::Blackjack { table, stage: BlackjackStage::Playing }),
            text,
        ),
    ensures
        ({
            let key = "bj_status_hidden"@;
            &&& fills_in(tables, lang, key, pre, "{p_cards}"@, card_row(table.player), post, text)
            &&& fills_in(
                tables,
                lang,
                key,
                pre,
                "{p_score}"@,
                decimal(table.player_score as int),
                post,
                text,
            )
            &&& fills_in(tables, lang, key, pre, "{d_card}"@, card_row(table.dealer), post, text)
            &&& fills_in(
                tables,
                lang,
                key,
                pre,
                "{d_score}"@,
                decimal(table.dealer_score as int),
                post,
                text,
            )
        }),
{
    let list = reply_text(ReplyView::Blackjack { table, stage: BlackjackStage::Playing });
    lemma_single(tables, lang, list, text);
    lemma_table_fills(
        tables,
        lang,
        pre,
        post,
        text,
        list[0],
        "bj_status_hidden"@,
        "{d_card}"@,
        table,
    );
}

/// After a game of blackjack all cards are told under another message, then comes an
/// empty line, and then the end of the game with the bet.
#[verifier::rlimit(40)]
pub proof fn final_table_is_told(
    tables: Tables,
    lang: Seq<char>,
    pre: Seq<char>,
    post: Seq<char>,
    shown: Seq<char>,
    ended: Seq<char>,
    table: BlackjackTableView,
    stage: BlackjackStage,
    bet: i32,
)
    requires
        has_no_brace(pre),
        has_no_brace(post),
        has_no_brace(card_row(table.player)),
        has_no_brace(card_row(table.dealer)),
        stage == (BlackjackStage::Bust { bet }) || stage == BlackjackStage::Pushed || stage == (
        BlackjackStage::Lost { bet }) || stage == (BlackjackStage::Won { bet, record: false }),
        ({
            let list = reply_text(ReplyView::Blackjack { table, stage });
            &&& piece_renders(tables, lang, list[0], shown)
            &&& piece_renders(tables, lang, list[2], ended)
        }),
    ensures
        ({
            let list = reply_text(ReplyView::Blackjack { table, stage });
            let all = "bj_status_all"@;
            let end = match stage {
                BlackjackStage::Bust { .. } => "bj_bust"@,
                BlackjackStage::Won { .. } => "bj_win"@,
                _ => "bj_lose"@,
            };
            &&& list.len() == 3
            &&& list[1] == PieceView::Literal("\n\n"@)
            &&& fills_in(tables, lang, all, pre, "{p_cards}"@, card_row(table.player), post, shown)
            &&& fills_in(
                tables,
                lang,
                all,
                pre,
                "{p_score}"@,
                decimal(table.player_score as int),
                post,
                shown,
            )
            &&& fills_in(tables, lang, all, pre, "{d_cards}"@, card_row(table.dealer), post, shown)
            &&& fills_in(
                tables,
                lang,
                all,
                pre,
                "{d_score}"@,
                decimal(table.dealer_score as int),
                post,
                shown,
            )
            &&& stage is Pushed ==> is_message(tables, lang, "bj_push"@, ended)
            &&& stage !is Pushed ==> fills_in(
                tables,
                lang,
                end,
                pre,
                "{bet}"@,
                decimal(bet as int),
                post,
                ended,
            )
        }),
{
    lemma_slots();
    lemma_number_has_no_brace(bet as int);
    let list = reply_text(ReplyView::Blackjack { table, stage });
    lemma_table_fills(
        tables,
        lang,
        pre,
        post,
        shown,
        list[0],
        "bj_status_all"@,
        "{d_cards}"@,
        table,
    );
    if let PieceView::Template { key, fills } = list[2] {
        assert(template_renders(tables, lang, key, fills, ended));
        if stage !is Pushed {
            lemma_fills_in(
                tables,
                lang,
                list[2],
                key,
                fills,
                0,
                pre,
                decimal(bet as int),
                post,
                ended,
            );
        }
    }
}

/// A poker hand is told card by card: first the title, then a line for each card with
/// its place, the card and, while the game goes on, a mark where it is held; the
/// prompt comes last while the game goes on.
#[verifier::rlimit(40)]
pub proof fn poker_hand_is_told(
    tables: Tables,
    lang: Seq<char>,
    pre: Seq<char>,
    post: Seq<char>,
    line: Seq<char>,
    hand: Seq<CardView>,
    holds: Seq<bool>,
    stage: PokerStage,
    i: int,
    mark: Seq<char>,
)
    requires
        has_no_brace(pre),
        has_no_brace(post),
        has_no_brace(mark),
        0 <= i < hand.len(),
        has_no_brace(card_text(hand[i])),
        message_for(tables, lang, "poker_held"@) == Some(MessageView::Text(mark)),
        piece_renders(
            tables,
            lang,
            reply_text(ReplyView::Poker { hand, holds, stage })[i + 1],
            line,
        ),
    ensures
        ({
            let list = reply_text(ReplyView::Poker { hand, holds, stage });
            let marked = stage is Holding && i < holds.len() && holds[i];
            &&& list[0] == (PieceView::Template { key: "poker_title"@, fills: Seq::empty() })
            &&& stage is Holding ==> list.len() == hand.len() + 2 && list.last() == (
            PieceView::Template { key: "poker_prompt"@, fills: Seq::empty() })
            &&& stage is Finished ==> list.len() >= hand.len() + 3
            &&& fills_in(tables, lang, "poker_card"@, pre, "{i}"@, decimal(i + 1), post, line)
            &&& fills_in(
                tables,
                lang,
                "poker_card"@,
                pre,
                "{card}"@,
                card_text(hand[i]),
                post,
                line,
            )
            &&& fills_in(
                tables,
                lang,
                "poker_card"@,
                pre,
                "{held}"@,
                if marked {
                    mark
                } else {
                    Seq::empty()
                },
                post,
                line,
            )
        }),
{
    lemma_slots();
    lemma_number_has_no_brace(i + 1);
    reveal_strlit("");
    assert(""@ =~= Seq::empty());
    let list = reply_text(ReplyView::Poker { hand, holds, stage });
    let piece = list[i + 1];
    let marked = stage is Holding && i < holds.len() && holds[i];
    if let PieceView::Template { key, fills } = piece {
        assert(fills.len() == 3);
        lemma_fills_in(tables, lang, piece, key, fills, 0, pre, decimal(i + 1), post, line);
        lemma_fills_in(tables, lang, piece, key, fills, 1, pre, card_text(hand[i]), post, line);
        lemma_fills_in(
            tables,
            lang,
            piece,
            key,
            fills,
            2,
            pre,
            if marked {
                mark
            } else {
                Seq::empty()
            },
            post,
            line,
        );
    }
}

/// The end of a game of poker is told behind the hand: an empty line, and then under
/// one message what was won, or under another what was lost, each with the name of
/// the rank.
#[verifier::rlimit(40)]
pub proof fn poker_end_is_told(
    tables: Tables,
    lang: Seq<char>,
    pre: Seq<char>,
    post: Seq<char>,
    text: Seq<char>,
    hand: Seq<CardView>,
    holds: Seq<bool>,
    rank: HandRank,
    bet: i32,
    winnings: i32,
    name: Seq<char>,
)
    requires
        has_no_brace(pre),
        has_no_brace(post),
        has_no_brace(name),
        message_for(tables, lang, rank_key_of(rank)) == Some(MessageView::Text(name)),
        piece_renders(
            tables,
            lang,
            reply_text(
                ReplyView::Poker {
                    hand,
                    holds,
                    stage: PokerStage::Finished { rank, bet, winnings, record: false },
                },
            )[hand.len() as int + 2],
            text,
        ),
    ensures
        ({
            let list = reply_text(
                ReplyView::Poker {
                    hand,
                    holds,
                    stage: PokerStage::Finished { rank, bet, winnings, record: false },
                },
            );
            &&& list.len() == hand.len() + 3
            &&& list[hand.len() as int + 1] == PieceView::Literal("\n\n"@)
            &&& winnings > 0 ==> fills_in(
                tables,
                lang,
                "poker_win"@,
                pre,
                "{winnings}"@,
                decimal(winnings as int),
                post,
                text,
            ) && fills_in(tables, lang, "poker_win"@, pre, "{rank}"@, name, post, text)
            &&& winnings <= 0 ==> fills_in(
                tables,
                lang,
                "poker_lose"@,
                pre,
                "{bet}"@,
                decimal(bet as int),
                post,
                text,
            ) && fills_in(tables, lang, "poker_lose"@, pre, "{rank}"@, name, post, text)
        }),
{
    lemma_slots();
    lemma_number_has_no_brace(winnings as int);
    lemma_number_has_no_brace(bet as int);
    let list = reply_text(
        ReplyView::Poker {
            hand,
            holds,
            stage: PokerStage::Finished { rank, bet, winnings, record: false },
        },
    );
    let piece = list[hand.len() as int + 2];
    if let PieceView::Template { key, fills } = piece {
        let number = if winnings > 0 {
            decimal(winnings as int)
        } else {
            decimal(bet as int)
        };
        lemma_fills_in(tables, lang, piece, key, fills, 1, pre, number, post, text);
        lemma_fills_in(tables, lang, piece, key, fills, 0, pre, name, post, text);
    }
}

/// Each rank is named by a message of its own.
pub proof fn ranks_have_names(rank: HandRank)
    ensures
        rank_key_of(rank) == match rank {
            HandRank::RoyalFlush => "rank_royal_flush"@,
            HandRank::StraightFlush => "rank_straight_flush"@,
            HandRank::FourOfAKind => "rank_four_of_a_kind"@,
            HandRank::FullHouse => "rank_full_house"@,
            HandRank::Flush => "rank_flush"@,
            HandRank::Straight => "rank_straight"@,
            HandRank::ThreeOfAKind => "rank_three_of_a_kind"@,
            HandRank::TwoPair => "rank_two_pair"@,
            HandRank::JacksOrBetter => "rank_jacks_or_better"@,
            HandRank::HighCard => "rank_high_card"@,
        },
{
}

/// Every reply is in the language of the player, but the confirmation of a new language
/// is in that one.
pub proof fn replies_have_one_language(reply: ReplyView, lang: Seq<char>, chosen: Lang)
    ensures
        reply_lang(ReplyView::Notice(Notice::LangSet(chosen)), lang) == match chosen {
            Lang::En => "en"@,
            Lang::Uk => "uk"@,
        },
        !(reply is Notice && reply->Notice_0 is LangSet) ==> reply_lang(reply, lang) == lang,
{
}

/// Replies that show cards, names, a balance, the net worth or the end of a game are
/// marked up; the others are plain.
pub proof fn some_replies_are_marked_up(reply: ReplyView)
    ensures
        is_html(reply) <==> (reply matches ReplyView::Notice(notice) ==> (notice is Welcome
            || notice is Help || notice is NetWorth || notice is SpinWin || notice is SpinLose
            || notice is FlipWin || notice is FlipLose || notice is DiceWin || notice is DiceLose)),
{
}

/// The buttons of a poker hand name the cards by their places, with a closed lock for a
/// held card and an open one for any other.
pub proof fn hold_buttons_name_their_cards(hand: Seq<CardView>, holds: Seq<bool>, i: int)
    requires
        0 <= i < holds.len(),
    ensures
        reply_buttons(
            ReplyView::Poker { hand, holds, stage: PokerStage::Holding },
        )->0[0][i].label == PieceView::Literal(
            if holds[i] {
                "🔒 C"@
            } else {
                "🔓 C"@
            } + decimal(i + 1),
        ),
{
}

/// Only offers and games that go on have buttons.
pub proof fn only_open_replies_have_buttons(reply: ReplyView)
    ensures
        reply_buttons(reply) is Some <==> match reply {
            ReplyView::Notice(notice) => notice is FlipPrompt || notice is DicePrompt,
            ReplyView::Leaderboard(_) => false,
            ReplyView::Blackjack { stage, .. } => stage is Playing,
            ReplyView::Poker { stage, .. } => stage is Holding,
        },
{
}

/// A player is listed under the name and with the tokens that were read, as
/// "Anonymous" without a name and with zero without tokens.
pub proof fn players_are_listed_as_they_were_read(rows: Seq<LeaderRow>, i: int)
    requires
        0 <= i < rows.len(),
    ensures
        ({
            let shown = leader_views(rows)[i];
            &&& leader_views(rows).len() == rows.len()
            &&& rows[i].username is Some ==> shown.username == rows[i].username->0@
            &&& rows[i].username is None ==> shown.username == "Anonymous"@
            &&& rows[i].tokens is Some ==> shown.tokens == rows[i].tokens->0
            &&& rows[i].tokens is None ==> shown.tokens == 0
        }),
{
}

/// The buttons of an offer are labelled by what they stand for, whatever the bet.
pub proof fn offers_are_labelled(bet: i32, user: i64, face: int)
    requires
        1 <= face <= 6,
    ensures
        ({
            let flip = reply_buttons(ReplyView::Notice(Notice::FlipPrompt { bet, user }))->0;
            let dice = reply_buttons(ReplyView::Notice(Notice::DicePrompt { bet, user }))->0;
            let faces = seq!["⚀ 1"@, "⚁ 2"@, "⚂ 3"@, "⚃ 4"@, "⚄ 5"@, "⚅ 6"@];
            &&& flip[0][0].label == PieceView::Literal("🦅 Heads"@)
            &&& flip[0][1].label == PieceView::Literal("🪙 Tails"@)
            &&& dice[(face - 1) / 3][(face - 1) % 3].label == PieceView::Literal(faces[face - 1])
        }),
{
    assert(face == 1 || face == 2 || face == 3 || face == 4 || face == 5 || face == 6);
}

} // verus!
