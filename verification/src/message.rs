//! Messages before translation: templates with slots, and how they are rendered.

use vstd::prelude::*;

use crate::locale::{is_message, message_for, t, Locales, MessageView, Tables};
use crate::text::{replace, replace_all, replacing_goes_from_left_to_right};

verus! {

/// What goes into a slot of a template: a text, or a message under its key.
#[derive(Debug, PartialEq, Eq)]
pub enum Filling {
    Plain(String),
    Message(&'static str),
}

/// A filling as a mathematical value.
pub enum FillingView {
    Plain(Seq<char>),
    Message(Seq<char>),
}

impl View for Filling {
    type V = FillingView;

    open spec fn view(&self) -> FillingView {
        match self {
            Filling::Plain(s) => FillingView::Plain(s@),
            Filling::Message(key) => FillingView::Message(key@),
        }
    }
}

/// A slot of a template and what goes into it.
#[derive(Debug, PartialEq, Eq)]
pub struct Fill {
    pub slot: &'static str,
    pub filling: Filling,
}

/// A filled slot as a mathematical value.
pub struct FillView {
    pub slot: Seq<char>,
    pub filling: FillingView,
}

impl View for Fill {
    type V = FillView;

    open spec fn view(&self) -> FillView {
        FillView { slot: self.slot@, filling: self.filling@ }
    }
}

/// A piece of a text: characters as they are, or a message whose slots are filled
/// in order.
#[derive(Debug, PartialEq, Eq)]
pub enum Piece {
    Literal(String),
    Template { key: &'static str, fills: Vec<Fill> },
}

/// A piece as a mathematical value.
pub enum PieceView {
    Literal(Seq<char>),
    Template { key: Seq<char>, fills: Seq<FillView> },
}

/// The views of a list of filled slots.
pub open spec fn fill_views(fills: Seq<Fill>) -> Seq<FillView> {
    fills.map_values(|f: Fill| f@)
}

impl View for Piece {
    type V = PieceView;

    open spec fn view(&self) -> PieceView {
        match self {
            Piece::Literal(s) => PieceView::Literal(s@),
            Piece::Template { key, fills } => PieceView::Template {
                key: key@,
                fills: fill_views(fills@),
            },
        }
    }
}

/// The views of a list of pieces.
pub open spec fn pieces(list: Seq<Piece>) -> Seq<PieceView> {
    list.map_values(|p: Piece| p@)
}

/// The texts that a filling can stand for.
pub open spec fn fits(
    tables: Tables,
    lang: Seq<char>,
    filling: FillingView,
    text: Seq<char>,
) -> bool {
    match filling {
        FillingView::Plain(s) => text == s,
        FillingView::Message(key) => is_message(tables, lang, key, text),
    }
}

/// A text with its slots filled by the given values, one slot after the other.
pub open spec fn filled(base: Seq<char>, fills: Seq<FillView>, values: Seq<Seq<char>>) -> Seq<char>
    decreases fills.len(),
{
    if fills.len() == 0 {
        base
    } else {
        replace_all(
            filled(base, fills.drop_last(), values.drop_last()),
            fills.last().slot,
            values.last(),
        )
    }
}

/// The values can stand for the fillings, one for one.
pub open spec fn values_fit(
    tables: Tables,
    lang: Seq<char>,
    fills: Seq<FillView>,
    values: Seq<Seq<char>>,
) -> bool {
    values.len() == fills.len() && forall|i: int|
        0 <= i < fills.len() ==> fits(tables, lang, fills[i].filling, #[trigger] values[i])
}

/// The texts that a message with filled slots can come out as.
pub open spec fn template_renders(
    tables: Tables,
    lang: Seq<char>,
    key: Seq<char>,
    fills: Seq<FillView>,
    text: Seq<char>,
) -> bool {
    exists|base: Seq<char>, values: Seq<Seq<char>>|
        {
            &&& is_message(tables, lang, key, base)
            &&& values_fit(tables, lang, fills, values)
            &&& text == #[trigger] filled(base, fills, values)
        }
}

/// The texts that a piece can come out as.
pub open spec fn piece_renders(
    tables: Tables,
    lang: Seq<char>,
    piece: PieceView,
    text: Seq<char>,
) -> bool {
    match piece {
        PieceView::Literal(s) => text == s,
        PieceView::Template { key, fills } => template_renders(tables, lang, key, fills, text),
    }
}

/// Texts one after the other.
pub open spec fn concat(parts: Seq<Seq<char>>) -> Seq<char>
    decreases parts.len(),
{
    if parts.len() == 0 {
        Seq::empty()
    } else {
        concat(parts.drop_last()) + parts.last()
    }
}

/// The pieces can come out as the parts, one for one.
pub open spec fn parts_render(
    tables: Tables,
    lang: Seq<char>,
    list: Seq<PieceView>,
    parts: Seq<Seq<char>>,
) -> bool {
    parts.len() == list.len() && forall|i: int|
        0 <= i < list.len() ==> piece_renders(tables, lang, list[i], #[trigger] parts[i])
}

/// The texts that a list of pieces can come out as. There is more than one only
/// where a message has several versions to choose from.
pub open spec fn renders(
    tables: Tables,
    lang: Seq<char>,
    list: Seq<PieceView>,
    text: Seq<char>,
) -> bool {
    exists|parts: Seq<Seq<char>>|
        parts_render(tables, lang, list, parts) && text == #[trigger] concat(parts)
}

/// Whether there is only one text to say for a key.
pub open spec fn has_one_text(tables: Tables, lang: Seq<char>, key: Seq<char>) -> bool {
    match message_for(tables, lang, key) {
        Some(MessageView::Choices(list)) => list.len() <= 1,
        _ => true,
    }
}

/// Whether all messages in a piece have only one text.
pub open spec fn is_settled(tables: Tables, lang: Seq<char>, piece: PieceView) -> bool {
    match piece {
        PieceView::Literal(_) => true,
        PieceView::Template { key, fills } => has_one_text(tables, lang, key) && forall|i: int|
            0 <= i < fills.len() ==> match (#[trigger] fills[i]).filling {
                FillingView::Plain(_) => true,
                FillingView::Message(k) => has_one_text(tables, lang, k),
            },
    }
}

proof fn lemma_one_text(tables: Tables, lang: Seq<char>, key: Seq<char>, a: Seq<char>, b: Seq<char>)
    requires
        has_one_text(tables, lang, key),
        is_message(tables, lang, key, a),
        is_message(tables, lang, key, b),
    ensures
        a == b,
{
}

proof fn lemma_piece_renders_one_way(
    tables: Tables,
    lang: Seq<char>,
    piece: PieceView,
    a: Seq<char>,
    b: Seq<char>,
)
    requires
        is_settled(tables, lang, piece),
        piece_renders(tables, lang, piece, a),
        piece_renders(tables, lang, piece, b),
    ensures
        a == b,
{
    if let PieceView::Template { key, fills } = piece {
        let (base_a, values_a) = choose|base: Seq<char>, values: Seq<Seq<char>>|
            {
                &&& is_message(tables, lang, key, base)
                &&& values_fit(tables, lang, fills, values)
                &&& a == #[trigger] filled(base, fills, values)
            };
        let (base_b, values_b) = choose|base: Seq<char>, values: Seq<Seq<char>>|
            {
                &&& is_message(tables, lang, key, base)
                &&& values_fit(tables, lang, fills, values)
                &&& b == #[trigger] filled(base, fills, values)
            };
        lemma_one_text(tables, lang, key, base_a, base_b);
        assert forall|i: int| 0 <= i < fills.len() implies values_a[i] == values_b[i] by {
            assert(fits(tables, lang, fills[i].filling, values_a[i]));
            assert(fits(tables, lang, fills[i].filling, values_b[i]));
            if let FillingView::Message(k) = fills[i].filling {
                lemma_one_text(tables, lang, k, values_a[i], values_b[i]);
            }
        }
        assert(values_a =~= values_b);
    }
}

/// Pieces whose messages have one text each come out as one text only.
pub proof fn settled_pieces_render_one_way(
    tables: Tables,
    lang: Seq<char>,
    list: Seq<PieceView>,
    a: Seq<char>,
    b: Seq<char>,
)
    requires
        forall|i: int| 0 <= i < list.len() ==> is_settled(tables, lang, #[trigger] list[i]),
        renders(tables, lang, list, a),
        renders(tables, lang, list, b),
    ensures
        a == b,
{
    let parts_a = choose|parts: Seq<Seq<char>>|
        parts_render(tables, lang, list, parts) && a == #[trigger] concat(parts);
    let parts_b = choose|parts: Seq<Seq<char>>|
        parts_render(tables, lang, list, parts) && b == #[trigger] concat(parts);
    assert forall|i: int| 0 <= i < list.len() implies parts_a[i] == parts_b[i] by {
        lemma_piece_renders_one_way(tables, lang, list[i], parts_a[i], parts_b[i]);
    }
    assert(parts_a =~= parts_b);
}

/// Whether a text has no opening brace in it.
pub open spec fn has_no_brace(s: Seq<char>) -> bool {
    forall|i: int| 0 <= i < s.len() ==> #[trigger] s[i] != '{'
}

/// Whether a text is a slot: a name in braces.
pub open spec fn is_slot(s: Seq<char>) -> bool {
    &&& s.len() >= 2
    &&& s[0] == '{'
    &&& s.last() == '}'
    &&& forall|i: int| 0 < i < s.len() - 1 ==> #[trigger] s[i] != '{' && s[i] != '}'
}

/// Replacing a slot in a text without one changes nothing.
proof fn lemma_replace_without_slot(s: Seq<char>, slot: Seq<char>, with: Seq<char>)
    requires
        is_slot(slot),
        has_no_brace(s),
    ensures
        replace_all(s, slot, with) == s,
{
    assert forall|i: int| 0 <= i < s.len() implies !slot.is_prefix_of(#[trigger] s.skip(i)) by {
        if slot.is_prefix_of(s.skip(i)) {
            assert(s.skip(i)[0] == slot[0]);
            assert(s[i] == '{');
        }
    }
    replacing_goes_from_left_to_right(s, slot, with, s.len() as int);
}

/// Replacing a slot in a text with one slot fills it, and leaves another slot alone.
#[verifier::rlimit(40)]
proof fn lemma_replace_one_slot(
    pre: Seq<char>,
    slot: Seq<char>,
    post: Seq<char>,
    wanted: Seq<char>,
    with: Seq<char>,
)
    requires
        is_slot(slot),
        is_slot(wanted),
        has_no_brace(pre),
        has_no_brace(post),
    ensures
        replace_all(pre + slot + post, wanted, with) == if wanted == slot {
            pre + with + post
        } else {
            pre + slot + post
        },
{
    let s = pre + slot + post;
    let n = pre.len() as int;
    assert forall|i: int| 0 <= i < s.len() && i != n implies !wanted.is_prefix_of(
        #[trigger] s.skip(i),
    ) by {
        if wanted.is_prefix_of(s.skip(i)) {
            assert(s.skip(i)[0] == wanted[0]);
            assert(s[i] == '{');
            if i < n {
                assert(s[i] == pre[i]);
            } else if i < n + slot.len() {
                assert(s[i] == slot[i - n]);
                if i == n + slot.len() - 1 {
                    assert(slot.last() == '}');
                }
            } else {
                assert(s[i] == post[i - n - slot.len()]);
            }
        }
    }
    if wanted == slot {
        assert(s.skip(n).subrange(0, slot.len() as int) =~= slot);
        assert(s.take(n) =~= pre);
        assert(s.skip(n + slot.len()) =~= post);
        replacing_goes_from_left_to_right(s, wanted, with, n);
        lemma_replace_without_slot(post, wanted, with);
    } else {
        if wanted.is_prefix_of(s.skip(n)) {
            let w = wanted.len() as int;
            let m = slot.len() as int;
            assert forall|k: int| 0 <= k < w && k < m implies #[trigger] wanted[k] == slot[k] by {
                assert(s.skip(n)[k] == wanted[k]);
                assert(s[n + k] == slot[k]);
            }
            if w < m {
                assert(wanted[w - 1] == slot[w - 1]);
            } else if m < w {
                assert(wanted[m - 1] == slot[m - 1]);
            } else {
                assert(wanted =~= slot);
            }
        }
        assert(!wanted.is_prefix_of(s.skip(n)));
        replacing_goes_from_left_to_right(s, wanted, with, s.len() as int);
    }
}

#[verifier::rlimit(40)]
proof fn lemma_filled_slot(
    pre: Seq<char>,
    post: Seq<char>,
    fills: Seq<FillView>,
    values: Seq<Seq<char>>,
    k: int,
)
    requires
        has_no_brace(pre),
        has_no_brace(post),
        values.len() == fills.len(),
        0 <= k,
        forall|j: int| 0 <= j < fills.len() ==> is_slot((#[trigger] fills[j]).slot),
        forall|i: int, j: int|
            0 <= i < j < fills.len() ==> (#[trigger] fills[i]).slot != (#[trigger] fills[j]).slot,
        k < fills.len() ==> has_no_brace(values[k]),
    ensures
        k < fills.len() ==> filled(pre + fills[k].slot + post, fills, values) == pre + values[k]
            + post,
        forall|slot: Seq<char>|
            is_slot(slot) && (forall|j: int|
                0 <= j < fills.len() ==> (#[trigger] fills[j]).slot != slot) ==> #[trigger] filled(
                pre + slot + post,
                fills,
                values,
            ) == pre + slot + post,
    decreases fills.len(),
{
    if fills.len() > 0 {
        let f = fills.drop_last();
        let v = values.drop_last();
        let last = fills.last();
        assert forall|j: int| 0 <= j < f.len() implies is_slot((#[trigger] f[j]).slot) by {
            assert(f[j] == fills[j]);
        }
        assert forall|i: int, j: int| 0 <= i < j < f.len() implies (#[trigger] f[i]).slot != (
        #[trigger] f[j]).slot by {
            assert(f[i] == fills[i] && f[j] == fills[j]);
        }
        if k < f.len() {
            assert(v[k] == values[k] && f[k] == fills[k]);
        }
        lemma_filled_slot(pre, post, f, v, k);
        assert(is_slot(last.slot)) by {
            assert(fills[fills.len() - 1] == last);
        }
        if k < fills.len() {
            if k < f.len() {
                assert(has_no_brace(pre + values[k] + post)) by {
                    let s = pre + values[k] + post;
                    assert forall|i: int| 0 <= i < s.len() implies #[trigger] s[i] != '{' by {
                        if i < pre.len() {
                            assert(s[i] == pre[i]);
                        } else if i < pre.len() + values[k].len() {
                            assert(s[i] == values[k][i - pre.len()]);
                        } else {
                            assert(s[i] == post[i - pre.len() - values[k].len()]);
                        }
                    }
                }
                lemma_replace_without_slot(pre + values[k] + post, last.slot, values.last());
            } else {
                assert forall|j: int| 0 <= j < f.len() implies (#[trigger] f[j]).slot
                    != last.slot by {
                    assert(f[j] == fills[j] && fills[fills.len() - 1] == last);
                }
                assert(filled(pre + last.slot + post, f, v) == pre + last.slot + post);
                lemma_replace_one_slot(pre, last.slot, post, last.slot, values.last());
            }
        }
        assert forall|slot: Seq<char>|
            is_slot(slot) && (forall|j: int|
                0 <= j < fills.len() ==> (#[trigger] fills[j]).slot != slot) implies #[trigger] filled(
            pre + slot + post,
            fills,
            values,
        ) == pre + slot + post by {
            assert forall|j: int| 0 <= j < f.len() implies (#[trigger] f[j]).slot != slot by {
                assert(f[j] == fills[j]);
            }
            assert(filled(pre + slot + post, f, v) == pre + slot + post);
            assert(fills[fills.len() - 1].slot != slot);
            lemma_replace_one_slot(pre, slot, post, last.slot, values.last());
        }
    }
}

/// A message with one slot in it comes out with the value of that slot in its place,
/// and with everything around it as it was.
pub proof fn a_slot_takes_its_value(
    tables: Tables,
    lang: Seq<char>,
    key: Seq<char>,
    fills: Seq<FillView>,
    k: int,
    pre: Seq<char>,
    value: Seq<char>,
    post: Seq<char>,
    text: Seq<char>,
)
    requires
        has_no_brace(pre),
        has_no_brace(value),
        has_no_brace(post),
        0 <= k < fills.len(),
        forall|j: int| 0 <= j < fills.len() ==> is_slot((#[trigger] fills[j]).slot),
        forall|i: int, j: int|
            0 <= i < j < fills.len() ==> (#[trigger] fills[i]).slot != (#[trigger] fills[j]).slot,
        match fills[k].filling {
            FillingView::Plain(s) => s == value,
            FillingView::Message(other) => message_for(tables, lang, other) == Some(
                MessageView::Text(value),
            ),
        },
        message_for(tables, lang, key) == Some(MessageView::Text(pre + fills[k].slot + post)),
        piece_renders(tables, lang, PieceView::Template { key, fills }, text),
    ensures
        text == pre + value + post,
{
    let (base, values) = choose|base: Seq<char>, values: Seq<Seq<char>>|
        {
            &&& is_message(tables, lang, key, base)
            &&& values_fit(tables, lang, fills, values)
            &&& text == #[trigger] filled(base, fills, values)
        };
    assert(base == pre + fills[k].slot + post);
    assert(fits(tables, lang, fills[k].filling, values[k]));
    assert(values[k] == value);
    lemma_filled_slot(pre, post, fills, values, k);
}

/// Pieces come out one behind the other.
#[verifier::rlimit(40)]
pub proof fn pieces_come_out_in_order(
    tables: Tables,
    lang: Seq<char>,
    list: Seq<PieceView>,
    piece: PieceView,
    text: Seq<char>,
)
    ensures
        renders(tables, lang, seq![piece], text) <==> piece_renders(tables, lang, piece, text),
        renders(tables, lang, list.push(piece), text) <==> (exists|a: Seq<char>, b: Seq<char>|
            #![trigger renders(tables, lang, list, a), piece_renders(tables, lang, piece, b)]
            renders(tables, lang, list, a) && piece_renders(tables, lang, piece, b) && text == a
                + b),
        renders(tables, lang, Seq::empty(), text) <==> text.len() == 0,
{
    reveal_with_fuel(concat, 2);
    let none = Seq::<Seq<char>>::empty();
    assert(concat(none) =~= Seq::<char>::empty());
    if renders(tables, lang, seq![piece], text) {
        let parts = choose|parts: Seq<Seq<char>>|
            parts_render(tables, lang, seq![piece], parts) && text == #[trigger] concat(parts);
        assert(piece_renders(tables, lang, seq![piece][0], parts[0]));
        assert(parts.drop_last() =~= none);
        assert(text =~= parts[0]);
    }
    if piece_renders(tables, lang, piece, text) {
        let parts = seq![text];
        assert(parts.drop_last() =~= none);
        assert(concat(parts) =~= text);
        assert(parts_render(tables, lang, seq![piece], parts));
    }
    if renders(tables, lang, list.push(piece), text) {
        let parts = choose|parts: Seq<Seq<char>>|
            parts_render(tables, lang, list.push(piece), parts) && text == #[trigger] concat(parts);
        let front = parts.drop_last();
        assert forall|i: int| 0 <= i < list.len() implies piece_renders(
            tables,
            lang,
            list[i],
            #[trigger] front[i],
        ) by {
            assert(front[i] == parts[i]);
            assert(list.push(piece)[i] == list[i]);
        }
        assert(parts_render(tables, lang, list, front));
        assert(renders(tables, lang, list, concat(front)));
        assert(piece_renders(tables, lang, list.push(piece)[list.len() as int], parts.last()));
    }
    if exists|a: Seq<char>, b: Seq<char>|
        #![trigger renders(tables, lang, list, a), piece_renders(tables, lang, piece, b)]
        renders(tables, lang, list, a) && piece_renders(tables, lang, piece, b) && text == a + b {
        let (a, b) = choose|a: Seq<char>, b: Seq<char>|
            #![trigger renders(tables, lang, list, a), piece_renders(tables, lang, piece, b)]
            renders(tables, lang, list, a) && piece_renders(tables, lang, piece, b) && text == a
                + b;
        let front = choose|parts: Seq<Seq<char>>|
            parts_render(tables, lang, list, parts) && a == #[trigger] concat(parts);
        let parts = front.push(b);
        assert(parts.drop_last() =~= front);
        assert forall|i: int| 0 <= i < list.push(piece).len() implies piece_renders(
            tables,
            lang,
            list.push(piece)[i],
            #[trigger] parts[i],
        ) by {
            if i < list.len() {
                assert(parts[i] == front[i]);
            }
        }
        assert(parts_render(tables, lang, list.push(piece), parts));
        assert(text == concat(parts));
    }
    if renders(tables, lang, Seq::empty(), text) {
        let parts = choose|parts: Seq<Seq<char>>|
            parts_render(tables, lang, Seq::empty(), parts) && text == #[trigger] concat(parts);
        assert(parts =~= none);
    }
    if text.len() == 0 {
        assert(parts_render(tables, lang, Seq::empty(), none));
        assert(text =~= concat(none));
    }
}

fn render_piece(locales: &Locales, lang: &str, piece: &Piece) -> (text: String)
    ensures
        piece_renders(locales@, lang@, piece@, text@),
{
    match piece {
        Piece::Literal(s) => s.clone(),
        Piece::Template { key, fills } => {
            let mut text = t(locales, lang, key);
            let ghost base = text@;
            let ghost mut values: Seq<Seq<char>> = Seq::empty();
            let ghost all = fill_views(fills@);
            let mut i: usize = 0;
            while i < fills.len()
                invariant
                    i <= fills@.len(),
                    all == fill_views(fills@),
                    values_fit(locales@, lang@, all.take(i as int), values),
                    text@ == filled(base, all.take(i as int), values),
                decreases fills@.len() - i,
            {
                let value = match &fills[i].filling {
                    Filling::Plain(s) => s.clone(),
                    Filling::Message(k) => t(locales, lang, k),
                };
                text = replace(text.as_str(), fills[i].slot, value.as_str());
                proof {
                    let old_values = values;
                    values = values.push(value@);
                    assert(all.take(i + 1).drop_last() =~= all.take(i as int));
                    assert(values.drop_last() =~= old_values);
                    assert(all.take(i + 1).last() == fills@[i as int]@);
                    assert forall|k: int| 0 <= k < i + 1 implies fits(
                        locales@,
                        lang@,
                        all.take(i + 1)[k].filling,
                        #[trigger] values[k],
                    ) by {
                        if k < i {
                            assert(values[k] == old_values[k]);
                            assert(all.take(i as int)[k] == all.take(i + 1)[k]);
                        }
                    }
                }
                i = i + 1;
            }
            proof {
                assert(all.take(i as int) =~= all);
                assert(text@ == filled(base, all, values));
            }
            text
        },
    }
}

/// Renders pieces in a language. Where a message has several versions, chance
/// chooses.
pub fn render(locales: &Locales, lang: &str, list: &Vec<Piece>) -> (text: String)
    ensures
        renders(locales@, lang@, pieces(list@), text@),
{
    let mut text = String::new();
    let ghost mut parts: Seq<Seq<char>> = Seq::empty();
    let ghost all = pieces(list@);
    let mut i: usize = 0;
    while i < list.len()
        invariant
            i <= list@.len(),
            all == pieces(list@),
            parts_render(locales@, lang@, all.take(i as int), parts),
            text@ == concat(parts),
        decreases list@.len() - i,
    {
        let part = render_piece(locales, lang, &list[i]);
        text.append(part.as_str());
        proof {
            let old_parts = parts;
            parts = parts.push(part@);
            assert(parts.drop_last() =~= old_parts);
            assert forall|k: int| 0 <= k < i + 1 implies piece_renders(
                locales@,
                lang@,
                all.take(i + 1)[k],
                #[trigger] parts[k],
            ) by {
                if k < i {
                    assert(parts[k] == old_parts[k]);
                    assert(all.take(i as int)[k] == all.take(i + 1)[k]);
                } else {
                    assert(all.take(i + 1)[k] == list@[i as int]@);
                }
            }
        }
        i = i + 1;
    }
    proof {
        assert(all.take(i as int) =~= all);
        assert(text@ == concat(parts));
    }
    text
}

} // verus!
