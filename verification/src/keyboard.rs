//! The buttons under a reply.

use vstd::prelude::*;

use crate::cards::CardView;
use crate::locale::Locales;
use crate::message::{pieces, render, renders, Piece, PieceView};
use crate::payload::{
    dice_button_reads_back, dice_data, flip_button_reads_back, flip_data, hold_button_reads_back,
    hold_data, lemma_move_buttons_read_back, press_of, write_dice, write_flip, write_hold,
    BlackjackMove, DiceBet, FlipBet, PokerMove, Press, Side,
};
use crate::reply::{
    say, BlackjackStage, BlackjackTableView, Notice, PokerStage, Reply, ReplyView,
};
use crate::text::{decimal, show_u64};

verus! {

/// A button: its label, and the data that a press of it sends.
#[derive(Debug, PartialEq, Eq)]
pub struct Button {
    pub label: Piece,
    pub data: String,
}

/// A button as a mathematical value.
pub struct ButtonView {
    pub label: PieceView,
    pub data: Seq<char>,
}

impl View for Button {
    type V = ButtonView;

    open spec fn view(&self) -> ButtonView {
        ButtonView { label: self.label@, data: self.data@ }
    }
}

/// The views of a row of buttons.
pub open spec fn row_view(row: Seq<Button>) -> Seq<ButtonView> {
    row.map_values(|b: Button| b@)
}

/// The views of rows of buttons.
pub open spec fn rows_view(rows: Seq<Vec<Button>>) -> Seq<Seq<ButtonView>> {
    rows.map_values(|row: Vec<Button>| row_view(row@))
}

/// The buttons that offer the sides of the coin.
pub open spec fn flip_buttons(bet: int, user: int) -> Seq<Seq<ButtonView>> {
    seq![
        seq![
            ButtonView {
                label: PieceView::Literal("🦅 Heads"@),
                data: flip_data(true, bet, user),
            },
            ButtonView {
                label: PieceView::Literal("🪙 Tails"@),
                data: flip_data(false, bet, user),
            },
        ],
    ]
}

/// The label of a face of the dice.
pub open spec fn face_label(face: int) -> Seq<char> {
    if face == 1 {
        "⚀ 1"@
    } else if face == 2 {
        "⚁ 2"@
    } else if face == 3 {
        "⚂ 3"@
    } else if face == 4 {
        "⚃ 4"@
    } else if face == 5 {
        "⚄ 5"@
    } else {
        "⚅ 6"@
    }
}

/// The button that bets on a face of the dice.
pub open spec fn face_button(face: int, bet: int, user: int) -> ButtonView {
    ButtonView {
        label: PieceView::Literal(face_label(face)),
        data: dice_data(face, bet, user),
    }
}

/// The buttons that offer the faces of the dice, three to a row.
pub open spec fn dice_buttons(bet: int, user: int) -> Seq<Seq<ButtonView>> {
    seq![
        seq![face_button(1, bet, user), face_button(2, bet, user), face_button(3, bet, user)],
        seq![face_button(4, bet, user), face_button(5, bet, user), face_button(6, bet, user)],
    ]
}

/// The buttons of a blackjack table.
pub open spec fn blackjack_buttons() -> Seq<Seq<ButtonView>> {
    seq![
        seq![
            ButtonView { label: say("bj_btn_hit"@), data: "bj_hit"@ },
            ButtonView { label: say("bj_btn_stand"@), data: "bj_stand"@ },
        ],
    ]
}

/// The button that holds a card or lets it go.
pub open spec fn hold_button(i: int, held: bool) -> ButtonView {
    ButtonView {
        label: PieceView::Literal(
            if held {
                "🔒 C"@
            } else {
                "🔓 C"@
            } + decimal(i + 1),
        ),
        data: hold_data(i),
    }
}

/// The buttons of a poker hand: one for each card, and one to draw.
pub open spec fn poker_buttons(holds: Seq<bool>) -> Seq<Seq<ButtonView>> {
    seq![
        Seq::new(holds.len(), |i: int| hold_button(i, holds[i])),
        seq![ButtonView { label: say("poker_btn_draw"@), data: "p_draw"@ }],
    ]
}

/// The buttons under a reply, if it has any.
pub open spec fn reply_buttons(reply: ReplyView) -> Option<Seq<Seq<ButtonView>>> {
    match reply {
        ReplyView::Notice(Notice::FlipPrompt { bet, user }) => Some(
            flip_buttons(bet as int, user as int),
        ),
        ReplyView::Notice(Notice::DicePrompt { bet, user }) => Some(
            dice_buttons(bet as int, user as int),
        ),
        ReplyView::Blackjack { table: _, stage: BlackjackStage::Playing } => Some(
            blackjack_buttons(),
        ),
        ReplyView::Poker { hand: _, holds, stage: PokerStage::Holding } => Some(
            poker_buttons(holds),
        ),
        _ => None,
    }
}

/// The two buttons of a coin flip, pressed, mean the bet that was offered, on heads
/// and on tails, for the player it was offered to.
pub proof fn flip_buttons_mean_the_offer(bet: i32, user: i64)
    ensures
        ({
            let rows = reply_buttons(ReplyView::Notice(Notice::FlipPrompt { bet, user }))->0;
            &&& rows.len() == 1
            &&& rows[0].len() == 2
            &&& press_of(rows[0][0].data) == Press::Flip(
                Some(FlipBet { side: Side::Heads, bet, user }),
            )
            &&& press_of(rows[0][1].data) == Press::Flip(
                Some(FlipBet { side: Side::Tails, bet, user }),
            )
        }),
{
    flip_button_reads_back(true, bet, user);
    flip_button_reads_back(false, bet, user);
}

/// The six buttons of a roll of the dice, pressed, mean the bet that was offered, on
/// one to six, for the player it was offered to.
pub proof fn dice_buttons_mean_the_offer(bet: i32, user: i64, guess: int)
    requires
        1 <= guess <= 6,
    ensures
        ({
            let rows = reply_buttons(ReplyView::Notice(Notice::DicePrompt { bet, user }))->0;
            &&& rows.len() == 2
            &&& rows[0].len() == 3
            &&& rows[1].len() == 3
            &&& press_of(rows[(guess - 1) / 3][(guess - 1) % 3].data) == Press::Dice(
                Some(DiceBet { guess: guess as i32, bet, user }),
            )
        }),
{
    dice_button_reads_back(guess as i32, bet, user);
    assert(guess == 1 || guess == 2 || guess == 3 || guess == 4 || guess == 5 || guess == 6);
}

/// The buttons of a blackjack table, pressed, mean a hit and a stand.
pub proof fn blackjack_buttons_mean_the_moves(table: BlackjackTableView)
    ensures
        ({
            let rows = reply_buttons(
                ReplyView::Blackjack { table, stage: BlackjackStage::Playing },
            )->0;
            &&& rows.len() == 1
            &&& rows[0].len() == 2
            &&& press_of(rows[0][0].data) == Press::Blackjack(BlackjackMove::Hit)
            &&& press_of(rows[0][1].data) == Press::Blackjack(BlackjackMove::Stand)
        }),
{
    lemma_move_buttons_read_back();
}

/// The buttons of a poker hand, pressed, mean to hold each card or let it go, and to
/// draw.
pub proof fn poker_buttons_mean_the_moves(hand: Seq<CardView>, holds: Seq<bool>, i: int)
    requires
        0 <= i < holds.len() <= usize::MAX,
    ensures
        ({
            let rows = reply_buttons(
                ReplyView::Poker { hand, holds, stage: PokerStage::Holding },
            )->0;
            &&& rows.len() == 2
            &&& rows[0].len() == holds.len()
            &&& rows[1].len() == 1
            &&& press_of(rows[0][i].data) == Press::Poker(PokerMove::Hold(i as usize))
            &&& press_of(rows[1][0].data) == Press::Poker(PokerMove::Draw)
        }),
{
    hold_button_reads_back(i as usize);
    lemma_move_buttons_read_back();
}

fn message_label(key: &'static str) -> (label: Piece)
    ensures
        label@ == say(key@),
{
    let label = Piece::Template { key, fills: Vec::new() };
    proof {
        assert(label@->fills =~= Seq::<crate::message::FillView>::empty());
    }
    label
}

fn pair(a: Button, b: Button) -> (row: Vec<Button>)
    ensures
        row_view(row@) == seq![a@, b@],
{
    let mut row: Vec<Button> = Vec::new();
    row.push(a);
    row.push(b);
    proof {
        assert(row_view(row@) =~= seq![a@, b@]);
    }
    row
}

fn one_row(row: Vec<Button>) -> (rows: Vec<Vec<Button>>)
    ensures
        rows_view(rows@) == seq![row_view(row@)],
{
    let mut rows: Vec<Vec<Button>> = Vec::new();
    rows.push(row);
    proof {
        assert(rows_view(rows@) =~= seq![row_view(row@)]);
    }
    rows
}

fn two_rows(a: Vec<Button>, b: Vec<Button>) -> (rows: Vec<Vec<Button>>)
    ensures
        rows_view(rows@) == seq![row_view(a@), row_view(b@)],
{
    let mut rows: Vec<Vec<Button>> = Vec::new();
    rows.push(a);
    rows.push(b);
    proof {
        assert(rows_view(rows@) =~= seq![row_view(a@), row_view(b@)]);
    }
    rows
}

/// The buttons that offer the sides of the coin.
pub fn flip_keyboard(bet: i32, user: i64) -> (rows: Vec<Vec<Button>>)
    ensures
        rows_view(rows@) == flip_buttons(bet as int, user as int),
{
    one_row(
        pair(
            Button {
                label: Piece::Literal("🦅 Heads".to_owned()),
                data: write_flip(true, bet, user),
            },
            Button {
                label: Piece::Literal("🪙 Tails".to_owned()),
                data: write_flip(false, bet, user),
            },
        ),
    )
}

fn face(n: i32, bet: i32, user: i64) -> (button: Button)
    requires
        1 <= n <= 6,
    ensures
        button@ == face_button(n as int, bet as int, user as int),
{
    let label: &'static str = match n {
        1 => "⚀ 1",
        2 => "⚁ 2",
        3 => "⚂ 3",
        4 => "⚃ 4",
        5 => "⚄ 5",
        _ => "⚅ 6",
    };
    Button { label: Piece::Literal(label.to_owned()), data: write_dice(n, bet, user) }
}

fn three_faces(first: i32, bet: i32, user: i64) -> (row: Vec<Button>)
    requires
        1 <= first <= 4,
    ensures
        row_view(row@) == seq![
            face_button(first as int, bet as int, user as int),
            face_button(first + 1, bet as int, user as int),
            face_button(first + 2, bet as int, user as int),
        ],
{
    let mut row: Vec<Button> = Vec::new();
    row.push(face(first, bet, user));
    row.push(face(first + 1, bet, user));
    row.push(face(first + 2, bet, user));
    proof {
        assert(row_view(row@) =~= seq![
            face_button(first as int, bet as int, user as int),
            face_button(first + 1, bet as int, user as int),
            face_button(first + 2, bet as int, user as int),
        ]);
    }
    row
}

/// The buttons that offer the faces of the dice.
pub fn dice_keyboard(bet: i32, user: i64) -> (rows: Vec<Vec<Button>>)
    ensures
        rows_view(rows@) == dice_buttons(bet as int, user as int),
{
    two_rows(three_faces(1, bet, user), three_faces(4, bet, user))
}

/// The buttons of a blackjack table.
pub fn bj_keyboard() -> (rows: Vec<Vec<Button>>)
    ensures
        rows_view(rows@) == blackjack_buttons(),
{
    one_row(
        pair(
            Button { label: message_label("bj_btn_hit"), data: "bj_hit".to_owned() },
            Button { label: message_label("bj_btn_stand"), data: "bj_stand".to_owned() },
        ),
    )
}

/// The buttons of a poker hand.
pub fn poker_keyboard(holds: &Vec<bool>) -> (rows: Vec<Vec<Button>>)
    ensures
        rows_view(rows@) == poker_buttons(holds@),
{
    let mut row: Vec<Button> = Vec::new();
    let mut i: usize = 0;
    while i < holds.len()
        invariant
            i <= holds.len(),
            row@.len() == i,
            forall|k: int| 0 <= k < i ==> (#[trigger] row@[k])@ == hold_button(k, holds@[k]),
        decreases holds@.len() - i,
    {
        let mut label = if holds[i] {
            "🔒 C".to_owned()
        } else {
            "🔓 C".to_owned()
        };
        label.append(show_u64(i as u64 + 1).as_str());
        row.push(Button { label: Piece::Literal(label), data: write_hold(i) });
        i = i + 1;
    }
    let mut draw: Vec<Button> = Vec::new();
    draw.push(Button { label: message_label("poker_btn_draw"), data: "p_draw".to_owned() });
    proof {
        assert(row_view(row@) =~= poker_buttons(holds@)[0]);
        assert(row_view(draw@) =~= poker_buttons(holds@)[1]);
    }
    let rows = two_rows(row, draw);
    proof {
        assert(rows_view(rows@) =~= poker_buttons(holds@));
    }
    rows
}

/// The buttons under a reply.
pub fn keyboard(reply: &Reply) -> (rows: Option<Vec<Vec<Button>>>)
    ensures
        match reply_buttons(reply@) {
            Some(buttons) => rows is Some && rows_view(rows->0@) == buttons,
            None => rows is None,
        },
{
    match reply {
        Reply::Notice(Notice::FlipPrompt { bet, user }) => Some(flip_keyboard(*bet, *user)),
        Reply::Notice(Notice::DicePrompt { bet, user }) => Some(dice_keyboard(*bet, *user)),
        Reply::Blackjack { table: _, stage: BlackjackStage::Playing } => Some(bj_keyboard()),
        Reply::Poker { hand: _, holds, stage: PokerStage::Holding } => Some(poker_keyboard(holds)),
        _ => None,
    }
}

/// Says the label of a button.
pub fn say_label(locales: &Locales, lang: &str, button: Button) -> (shown: (String, String))
    ensures
        renders(locales@, lang@, seq![button@.label], shown.0@),
        shown.1@ == button@.data,
{
    let mut list: Vec<Piece> = Vec::new();
    list.push(button.label);
    proof {
        assert(pieces(list@) =~= seq![button@.label]);
    }
    (render(locales, lang, &list), button.data)
}

} // verus!
