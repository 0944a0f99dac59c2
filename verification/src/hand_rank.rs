//! The ranking of poker hands and the pay table.

use vstd::prelude::*;
use vstd::relations::{sorted_by, total_ordering};
use vstd::seq_lib::lemma_sorted_unique;

use crate::cards::{
    card_of, cards, label_of, lemma_labels_differ, lemma_suits_differ, Card, CardView,
};
use crate::text::same;

verus! {

/// What a poker hand is worth, best first.
#[derive(Clone, Copy, Debug, PartialEq, Eq, Structural)]
pub enum HandRank {
    RoyalFlush,
    StraightFlush,
    FourOfAKind,
    FullHouse,
    Flush,
    Straight,
    ThreeOfAKind,
    TwoPair,
    JacksOrBetter,
    HighCard,
}

/// The value of a card in poker: eleven to fourteen from the jack to the ace, and
/// the weight of any other card.
pub open spec fn poker_value(c: CardView) -> int {
    if c.label == "J"@ {
        11
    } else if c.label == "Q"@ {
        12
    } else if c.label == "K"@ {
        13
    } else if c.label == "A"@ {
        14
    } else {
        c.weight as int
    }
}

/// The values of a hand, card by card.
pub open spec fn poker_values(hand: Seq<CardView>) -> Seq<int> {
    hand.map_values(|c: CardView| poker_value(c))
}

/// All cards have one suit.
pub open spec fn is_flush(hand: Seq<CardView>) -> bool {
    forall|i: int| 0 <= i < hand.len() ==> #[trigger] hand[i].suit == hand[0].suit
}

/// The numbers from `low` on, `n` of them.
pub open spec fn run_from(low: int, n: nat) -> Seq<int> {
    Seq::new(n, |k: int| low + k)
}

/// The values are consecutive numbers from `low` on, in some order.
pub open spec fn is_run_from(values: Seq<int>, low: int) -> bool {
    values.to_multiset() == run_from(low, values.len()).to_multiset()
}

/// The values are those of ace, two, three, four and five, in some order.
pub open spec fn is_wheel(values: Seq<int>) -> bool {
    values.to_multiset() == seq![2int, 3, 4, 5, 14].to_multiset()
}

/// The values are consecutive, or the ace stands below the two.
pub open spec fn is_straight(values: Seq<int>) -> bool {
    (exists|low: int| #[trigger] is_run_from(values, low)) || is_wheel(values)
}

/// How often a value occurs.
pub open spec fn times(values: Seq<int>, x: int) -> nat {
    values.to_multiset().count(x)
}

/// Some value occurs `n` times, and none more often.
pub open spec fn top_count_is(values: Seq<int>, n: nat) -> bool {
    &&& exists|x: int| #[trigger] times(values, x) == n
    &&& forall|x: int| #[trigger] times(values, x) <= n
}

/// One value occurs three times, and of the others one occurs twice and none more
/// often.
pub open spec fn is_full_house(values: Seq<int>) -> bool {
    exists|x: int, y: int|
        {
            &&& x != y
            &&& #[trigger] times(values, x) == 3
            &&& #[trigger] times(values, y) == 2
            &&& forall|z: int| z != x ==> #[trigger] times(values, z) <= 2
        }
}

/// Two values occur twice, and none occurs more often.
pub open spec fn is_two_pair(values: Seq<int>) -> bool {
    exists|x: int, y: int|
        {
            &&& x != y
            &&& #[trigger] times(values, x) == 2
            &&& #[trigger] times(values, y) == 2
            &&& forall|z: int| #[trigger] times(values, z) <= 2
        }
}

/// The value `x` occurs twice, and every other value at most once.
pub open spec fn is_only_pair(values: Seq<int>, x: int) -> bool {
    &&& times(values, x) == 2
    &&& forall|z: int| z != x ==> #[trigger] times(values, z) <= 1
}

/// The rank of a hand: the best description that fits it.
pub open spec fn rank_of(hand: Seq<CardView>) -> HandRank {
    let values = poker_values(hand);
    if is_flush(hand) && is_run_from(values, 10) {
        HandRank::RoyalFlush
    } else if is_flush(hand) && is_straight(values) {
        HandRank::StraightFlush
    } else if top_count_is(values, 4) {
        HandRank::FourOfAKind
    } else if is_full_house(values) {
        HandRank::FullHouse
    } else if is_flush(hand) {
        HandRank::Flush
    } else if is_straight(values) {
        HandRank::Straight
    } else if top_count_is(values, 3) {
        HandRank::ThreeOfAKind
    } else if is_two_pair(values) {
        HandRank::TwoPair
    } else if exists|x: int| x >= 11 && #[trigger] is_only_pair(values, x) {
        HandRank::JacksOrBetter
    } else {
        HandRank::HighCard
    }
}

proof fn lemma_values_ignore_order(a: Seq<CardView>, b: Seq<CardView>)
    requires
        a.to_multiset() == b.to_multiset(),
    ensures
        a.len() == b.len(),
        poker_values(a).to_multiset() == poker_values(b).to_multiset(),
    decreases a.len(),
{
    a.to_multiset_ensures();
    b.to_multiset_ensures();
    if a.len() == 0 {
        assert(poker_values(a) =~= poker_values(b));
    } else {
        let n = a.len() - 1;
        assert(a.to_multiset().count(a[n]) > 0);
        let i = b.index_of(a[n]);
        assert(b.contains(a[n]));
        assert(a.remove(n).to_multiset() =~= b.remove(i).to_multiset());
        lemma_values_ignore_order(a.remove(n), b.remove(i));
        let (va, vb) = (poker_values(a), poker_values(b));
        va.to_multiset_ensures();
        vb.to_multiset_ensures();
        assert(poker_values(a.remove(n)) =~= va.remove(n));
        assert(poker_values(b.remove(i)) =~= vb.remove(i));
        assert(va.to_multiset().count(va[n]) > 0);
        assert(vb.to_multiset().count(vb[i]) > 0);
        assert(va.to_multiset() =~= va.remove(n).to_multiset().insert(va[n]));
        assert(vb.to_multiset() =~= vb.remove(i).to_multiset().insert(vb[i]));
    }
}

proof fn lemma_flush_ignores_order(a: Seq<CardView>, b: Seq<CardView>)
    requires
        a.to_multiset() == b.to_multiset(),
        is_flush(a),
    ensures
        is_flush(b),
{
    a.to_multiset_ensures();
    b.to_multiset_ensures();
    assert forall|i: int| 0 <= i < b.len() implies #[trigger] b[i].suit == b[0].suit by {
        assert(b.to_multiset().count(b[i]) > 0);
        assert(b.to_multiset().count(b[0]) > 0);
        assert(a.contains(b[i]) && a.contains(b[0]));
        let (j, k) = (a.index_of(b[i]), a.index_of(b[0]));
        assert(a[j].suit == a[0].suit && a[k].suit == a[0].suit);
    }
}

/// The order of the cards does not matter for the rank.
pub proof fn rank_ignores_order(a: Seq<CardView>, b: Seq<CardView>)
    requires
        a.to_multiset() == b.to_multiset(),
    ensures
        rank_of(a) == rank_of(b),
{
    lemma_values_ignore_order(a, b);
    if is_flush(a) {
        lemma_flush_ignores_order(a, b);
    }
    if is_flush(b) {
        lemma_flush_ignores_order(b, a);
    }
    let (va, vb) = (poker_values(a), poker_values(b));
    assert forall|x: int| times(va, x) == times(vb, x) by {}
    assert forall|low: int| is_run_from(va, low) == is_run_from(vb, low) by {}
    assert forall|x: int| is_only_pair(va, x) == is_only_pair(vb, x) by {
        assert(forall|z: int| times(va, z) == times(vb, z));
    }
}

/// The hands that have a rank: those of five cards or more, and shorter ones that
/// are not a straight in one suit; an empty hand has none.
pub open spec fn is_rankable(hand: Seq<CardView>) -> bool {
    hand.len() > 0 && (is_flush(hand) && is_straight(poker_values(hand)) ==> hand.len() >= 5)
}

/// A list of machine integers as numbers.
pub open spec fn ints(v: Seq<i32>) -> Seq<int> {
    v.map_values(|x: i32| x as int)
}

fn value_of(c: &Card) -> (value: i32)
    ensures
        value == poker_value(c@),
{
    let label = c.label.as_str();
    if same(label, "J") {
        11
    } else if same(label, "Q") {
        12
    } else if same(label, "K") {
        13
    } else if same(label, "A") {
        14
    } else {
        c.weight
    }
}

fn values_of(hand: &Vec<Card>) -> (values: Vec<i32>)
    ensures
        ints(values@) == poker_values(cards(hand@)),
{
    let mut values: Vec<i32> = Vec::new();
    let mut i: usize = 0;
    while i < hand.len()
        invariant
            i <= hand@.len(),
            values@.len() == i,
            forall|k: int| 0 <= k < i ==> #[trigger] values@[k] == poker_value(hand@[k]@),
        decreases hand@.len() - i,
    {
        values.push(value_of(&hand[i]));
        i = i + 1;
    }
    proof {
        assert(ints(values@) =~= poker_values(cards(hand@)));
    }
    values
}

/// The values in ascending order.
fn sorted(values: &Vec<i32>) -> (out: Vec<i32>)
    ensures
        ints(out@).to_multiset() == ints(values@).to_multiset(),
        forall|i: int, j: int| 0 <= i <= j < out@.len() ==> out@[i] <= out@[j],
{
    let mut out: Vec<i32> = Vec::new();
    let mut n: usize = 0;
    proof {
        assert(ints(values@).take(0) =~= ints(out@));
    }
    while n < values.len()
        invariant
            n <= values@.len(),
            ints(out@).to_multiset() == ints(values@).take(n as int).to_multiset(),
            forall|i: int, j: int| 0 <= i <= j < out@.len() ==> out@[i] <= out@[j],
        decreases values@.len() - n,
    {
        let x: i32 = values[n];
        let mut at: usize = 0;
        while at < out.len() && out[at] <= x
            invariant
                at <= out@.len(),
                forall|i: int| 0 <= i < at ==> out@[i] <= x,
            decreases out@.len() - at,
        {
            at = at + 1;
        }
        let ghost before = out@;
        out.insert(at, x);
        proof {
            assert(ints(out@) =~= ints(before).insert(at as int, x as int));
            vstd::seq_lib::to_multiset_insert(ints(before), at as int, x as int);
            assert(ints(values@).take(n + 1) =~= ints(values@).take(n as int).push(x as int));
            vstd::seq_lib::to_multiset_build(ints(values@).take(n as int), x as int);
        }
        n = n + 1;
    }
    proof {
        assert(ints(values@).take(n as int) =~= ints(values@));
    }
    out
}

/// Whether each number is one more than the number before it.
fn ascends_by_one(values: &Vec<i32>) -> (yes: bool)
    ensures
        yes == (forall|k: int| 0 < k < values@.len() ==> #[trigger] values@[k] == values@[k - 1] + 1),
{
    let mut k: usize = 1;
    while k < values.len()
        invariant
            1 <= k,
            forall|j: int| 0 < j < k && j < values@.len() ==> #[trigger] values@[j] == values@[j - 1] + 1,
        decreases values@.len() - k,
    {
        if values[k] as i64 != values[k - 1] as i64 + 1 {
            return false;
        }
        k = k + 1;
    }
    true
}

proof fn lemma_same_when_sorted(a: Seq<int>, b: Seq<int>)
    requires
        forall|i: int, j: int| 0 <= i <= j < a.len() ==> a[i] <= a[j],
        forall|i: int, j: int| 0 <= i <= j < b.len() ==> b[i] <= b[j],
        a.to_multiset() == b.to_multiset(),
    ensures
        a == b,
{
    let leq = |x: int, y: int| x <= y;
    assert(total_ordering(leq));
    assert(sorted_by(a, leq));
    assert(sorted_by(b, leq));
    lemma_sorted_unique(a, b, leq);
}

proof fn lemma_ascending_is_run(s: Seq<int>, k: int)
    requires
        forall|j: int| 0 < j < s.len() ==> #[trigger] s[j] == s[j - 1] + 1,
        0 <= k < s.len(),
    ensures
        s[k] == s[0] + k,
    decreases k,
{
    if k > 0 {
        lemma_ascending_is_run(s, k - 1);
    }
}

/// For values in ascending order, each one more than the one before is the same as
/// being a run.
proof fn lemma_run_when_sorted(values: Seq<int>, s: Seq<int>)
    requires
        values.to_multiset() == s.to_multiset(),
        forall|i: int, j: int| 0 <= i <= j < s.len() ==> s[i] <= s[j],
    ensures
        s.len() == values.len(),
        forall|low: int| #[trigger] is_run_from(values, low) <==> s == run_from(low, s.len()),
        (exists|low: int| #[trigger] is_run_from(values, low)) <==> (forall|k: int|
            0 < k < s.len() ==> #[trigger] s[k] == s[k - 1] + 1),
        is_wheel(values) <==> s == seq![2int, 3, 4, 5, 14],
{
    values.to_multiset_ensures();
    s.to_multiset_ensures();
    assert forall|low: int| #[trigger] is_run_from(values, low) implies s == run_from(
        low,
        s.len(),
    ) by {
        lemma_same_when_sorted(s, run_from(low, s.len()));
    }
    if forall|k: int| 0 < k < s.len() ==> #[trigger] s[k] == s[k - 1] + 1 {
        let low = if s.len() > 0 {
            s[0]
        } else {
            0
        };
        assert forall|k: int| 0 <= k < s.len() implies #[trigger] s[k] == low + k by {
            lemma_ascending_is_run(s, k);
        }
        assert(s =~= run_from(low, s.len()));
        assert(is_run_from(values, low));
    }
    if exists|low: int| #[trigger] is_run_from(values, low) {
        let low = choose|low: int| #[trigger] is_run_from(values, low);
        assert(s == run_from(low, s.len()));
    }
    if is_wheel(values) {
        lemma_same_when_sorted(s, seq![2int, 3, 4, 5, 14]);
    }
}

proof fn lemma_ascends_as_ints(values: Seq<i32>)
    ensures
        (forall|k: int| 0 < k < values.len() ==> #[trigger] values[k] == values[k - 1] + 1) == (
        forall|k: int|
            0 < k < values.len() ==> #[trigger] ints(values)[k] == ints(values)[k - 1] + 1),
{
    let s = ints(values);
    if forall|k: int| 0 < k < values.len() ==> #[trigger] values[k] == values[k - 1] + 1 {
        assert forall|k: int| 0 < k < values.len() implies #[trigger] s[k] == s[k - 1] + 1 by {
            assert(values[k] == values[k - 1] + 1);
        }
    } else {
        let k = choose|k: int| 0 < k < values.len() && #[trigger] values[k] != values[k - 1] + 1;
        assert(s[k] != s[k - 1] + 1);
    }
}

/// How often a value occurs in a list.
fn count_of(values: &Vec<i32>, x: i32) -> (n: usize)
    ensures
        n == times(ints(values@), x as int),
        n <= values@.len(),
{
    let mut n: usize = 0;
    let mut i: usize = 0;
    proof {
        assert(ints(values@).take(0) =~= Seq::<int>::empty());
        Seq::<int>::empty().to_multiset_ensures();
        assert(!Seq::<int>::empty().contains(x as int));
    }
    while i < values.len()
        invariant
            i <= values@.len(),
            n <= i,
            n == times(ints(values@).take(i as int), x as int),
        decreases values@.len() - i,
    {
        proof {
            assert(ints(values@).take(i + 1) =~= ints(values@).take(i as int).push(
                values@[i as int] as int,
            ));
            vstd::seq_lib::to_multiset_build(ints(values@).take(i as int), values@[i as int] as int);
        }
        if values[i] == x {
            n = n + 1;
        }
        i = i + 1;
    }
    proof {
        assert(ints(values@).take(i as int) =~= ints(values@));
    }
    n
}

/// A value that occurs most often, among those that differ from `except`.
fn most_frequent(values: &Vec<i32>, except: Option<i32>) -> (value: Option<i32>)
    ensures
        match value {
            Some(v) => {
                &&& Some(v) != except
                &&& times(ints(values@), v as int) > 0
                &&& forall|z: int|
                    (except is Some ==> z != except->0) ==> #[trigger] times(ints(values@), z) <= times(
                        ints(values@),
                        v as int,
                    )
            },
            None => forall|z: int|
                (except is Some ==> z != except->0) ==> #[trigger] times(ints(values@), z) == 0,
        },
{
    let ghost all = ints(values@);
    let mut best: Option<i32> = None;
    let mut best_count: usize = 0;
    let mut i: usize = 0;
    while i < values.len()
        invariant
            i <= values@.len(),
            all == ints(values@),
            best is Some ==> best_count == times(all, best->0 as int) && best_count > 0 && best != except,
            best is None ==> best_count == 0,
            forall|k: int|
                0 <= k < i && (except is Some ==> values@[k] != except->0) ==> times(
                    all,
                    #[trigger] all[k],
                ) <= best_count,
        decreases values@.len() - i,
    {
        let x: i32 = values[i];
        let skip: bool = match except {
            Some(e) => e == x,
            None => false,
        };
        if !skip {
            let n: usize = count_of(values, x);
            proof {
                all.to_multiset_ensures();
                assert(all[i as int] == x);
                assert(all.contains(x as int));
            }
            if n > best_count {
                best = Some(x);
                best_count = n;
            }
        }
        i = i + 1;
    }
    proof {
        all.to_multiset_ensures();
        assert forall|z: int| (except is Some ==> z != except->0) implies #[trigger] times(all, z)
            <= best_count by {
            if times(all, z) > 0 {
                assert(all.contains(z));
                let k = choose|k: int| 0 <= k < all.len() && all[k] == z;
                assert(times(all, all[k]) <= best_count);
            }
        }
    }
    best
}

/// Whether all cards of a hand have one suit.
fn one_suit(hand: &Vec<Card>) -> (yes: bool)
    ensures
        yes == is_flush(cards(hand@)),
{
    let mut i: usize = 0;
    while i < hand.len()
        invariant
            i <= hand@.len(),
            forall|k: int| 0 <= k < i ==> #[trigger] hand@[k].suit@ == hand@[0].suit@,
        decreases hand@.len() - i,
    {
        if hand[i].suit != hand[0].suit {
            proof {
                assert(cards(hand@)[i as int].suit != cards(hand@)[0].suit);
            }
            return false;
        }
        i = i + 1;
    }
    true
}

/// Ranks a hand.
pub fn poker_rank(hand: &Vec<Card>) -> (rank: HandRank)
    requires
        is_rankable(cards(hand@)),
    ensures
        rank == rank_of(cards(hand@)),
{
    let unsorted = values_of(hand);
    let values = sorted(&unsorted);
    let flush: bool = one_suit(hand);
    let ghost all = poker_values(cards(hand@));
    let ghost s = ints(values@);
    proof {
        lemma_run_when_sorted(all, s);
        assert(all.len() == hand@.len());
    }
    let run: bool = ascends_by_one(&values);
    let wheel: bool = values.len() == 5 && values[0] == 2 && values[1] == 3 && values[2] == 4
        && values[3] == 5 && values[4] == 14;
    proof {
        lemma_ascends_as_ints(values@);
        assert(run == (exists|low: int| #[trigger] is_run_from(all, low)));
        assert(wheel == is_wheel(all)) by {
            if wheel {
                assert(s =~= seq![2int, 3, 4, 5, 14]);
            }
            if is_wheel(all) {
                let w = seq![2int, 3, 4, 5, 14];
                assert(s == w);
                assert(s[0] == w[0] && s[1] == w[1] && s[2] == w[2] && s[3] == w[3] && s[4] == w[4]);
            }
        }
    }
    let straight: bool = run || wheel;
    if flush && straight {
        proof {
            assert(is_run_from(all, 10) == (s[4] == 14 && s[0] == 10)) by {
                if s[4] == 14 && s[0] == 10 {
                    assert(!wheel);
                    let low = choose|low: int| #[trigger] is_run_from(all, low);
                    assert(s[0] == run_from(low, s.len())[0]);
                }
                if is_run_from(all, 10) {
                    assert(s[0] == run_from(10, s.len())[0]);
                    assert(s[4] == run_from(10, s.len())[4]);
                }
            }
        }
        if values[4] == 14 && values[0] == 10 {
            return HandRank::RoyalFlush;
        }
        return HandRank::StraightFlush;
    }
    proof {
        assert(!(flush && is_run_from(all, 10)));
    }
    let top_value: i32 = match most_frequent(&unsorted, None) {
        Some(v) => v,
        None => {
            proof {
                all.to_multiset_ensures();
                assert(all.contains(all[0]));
                assert(times(all, all[0]) > 0);
            }
            return HandRank::HighCard;
        },
    };
    let top: usize = count_of(&unsorted, top_value);
    let second: usize = match most_frequent(&unsorted, Some(top_value)) {
        Some(v) => {
            let n: usize = count_of(&unsorted, v);
            proof {
                assert(times(all, v as int) == n);
            }
            n
        },
        None => 0,
    };
    proof {
        assert(times(all, top_value as int) == top);
        assert(forall|z: int| #[trigger] times(all, z) <= top);
        assert(forall|z: int| z != top_value ==> #[trigger] times(all, z) <= second);
        assert(second > 0 ==> exists|y: int| y != top_value && #[trigger] times(all, y) == second);
    }
    if top == 4 {
        return HandRank::FourOfAKind;
    }
    if top == 3 && second == 2 {
        proof {
            let y = choose|y: int| y != top_value && #[trigger] times(all, y) == second;
            assert(is_full_house(all));
        }
        return HandRank::FullHouse;
    }
    if flush {
        return HandRank::Flush;
    }
    if straight {
        return HandRank::Straight;
    }
    if top == 3 {
        return HandRank::ThreeOfAKind;
    }
    if top == 2 && second == 2 {
        return HandRank::TwoPair;
    }
    if top == 2 {
        if top_value >= 11 {
            proof {
                assert(is_only_pair(all, top_value as int));
            }
            return HandRank::JacksOrBetter;
        }
    }
    HandRank::HighCard
}

/// How many times the bet a rank pays.
pub open spec fn pays(rank: HandRank) -> int {
    match rank {
        HandRank::RoyalFlush => 250,
        HandRank::StraightFlush => 50,
        HandRank::FourOfAKind => 25,
        HandRank::FullHouse => 9,
        HandRank::Flush => 6,
        HandRank::Straight => 4,
        HandRank::ThreeOfAKind => 3,
        HandRank::TwoPair => 2,
        HandRank::JacksOrBetter => 1,
        HandRank::HighCard => 0,
    }
}

/// The key of the message that names a rank.
pub open spec fn rank_key_of(rank: HandRank) -> Seq<char> {
    match rank {
        HandRank::RoyalFlush => "rank_royal_flush"@,
        HandRank::StraightFlush => "rank_straight_flush"@,
        HandRank::FourOfAKind => "rank_four_of_a_kind"@,
        HandRank::FullHouse => "rank_full_house"@,
        HandRank::Flush => "rank_flush"@,
        HandRank::Straight => "rank_straight"@,
        HandRank::ThreeOfAKind => "rank_three_of_a_kind"@,
        HandRank::TwoPair => "rank_two_pair"@,
        HandRank::JacksOrBetter => "rank_jacks_or_better"@,
        HandRank::HighCard => "rank_high_card"@,
    }
}

impl HandRank {
    /// How many times the bet the rank pays.
    pub fn multiplier(self) -> (times: i32)
        ensures
            times == pays(self),
    {
        match self {
            HandRank::RoyalFlush => 250,
            HandRank::StraightFlush => 50,
            HandRank::FourOfAKind => 25,
            HandRank::FullHouse => 9,
            HandRank::Flush => 6,
            HandRank::Straight => 4,
            HandRank::ThreeOfAKind => 3,
            HandRank::TwoPair => 2,
            HandRank::JacksOrBetter => 1,
            HandRank::HighCard => 0,
        }
    }

    /// The key of the message that names the rank.
    pub fn key(self) -> (key: &'static str)
        ensures
            key@ == rank_key_of(self),
    {
        match self {
            HandRank::RoyalFlush => "rank_royal_flush",
            HandRank::StraightFlush => "rank_straight_flush",
            HandRank::FourOfAKind => "rank_four_of_a_kind",
            HandRank::FullHouse => "rank_full_house",
            HandRank::Flush => "rank_flush",
            HandRank::Straight => "rank_straight",
            HandRank::ThreeOfAKind => "rank_three_of_a_kind",
            HandRank::TwoPair => "rank_two_pair",
            HandRank::JacksOrBetter => "rank_jacks_or_better",
            HandRank::HighCard => "rank_high_card",
        }
    }
}

/// The key of the message that names the rank of a hand.
pub fn poker_rank_key(hand: &Vec<Card>) -> (key: &'static str)
    requires
        is_rankable(cards(hand@)),
    ensures
        key@ == rank_key_of(rank_of(cards(hand@))),
{
    poker_rank(hand).key()
}

/// Whether a hand has a rank.
pub fn can_rank(hand: &Vec<Card>) -> (yes: bool)
    ensures
        yes == is_rankable(cards(hand@)),
{
    if hand.len() == 0 {
        return false;
    }
    if hand.len() >= 5 {
        return true;
    }
    let unsorted = values_of(hand);
    let values = sorted(&unsorted);
    let run: bool = ascends_by_one(&values);
    proof {
        let all = poker_values(cards(hand@));
        let s = ints(values@);
        lemma_run_when_sorted(all, s);
        lemma_ascends_as_ints(values@);
        assert(seq![2int, 3, 4, 5, 14].len() == 5);
    }
    !(one_suit(hand) && run)
}

/// The values of the cards follow the order of the labels: two for the first of the
/// thirteen, and one more for each that follows.
pub proof fn values_follow_the_labels(suit: int, rank: int)
    requires
        0 <= rank < 13,
    ensures
        poker_value(card_of(suit, rank)) == rank + 2,
{
    assert(label_of(9) == "J"@ && label_of(10) == "Q"@ && label_of(11) == "K"@ && label_of(12)
        == "A"@);
    let label = label_of(rank);
    if label == "J"@ {
        lemma_labels_differ(rank, 9);
    } else if label == "Q"@ {
        lemma_labels_differ(rank, 10);
    } else if label == "K"@ {
        lemma_labels_differ(rank, 11);
    } else if label == "A"@ {
        lemma_labels_differ(rank, 12);
    }
}

/// A card that is neither a court card nor an ace is worth its weight.
pub proof fn number_cards_are_worth_their_weight(card: CardView)
    requires
        card.label != "J"@,
        card.label != "Q"@,
        card.label != "K"@,
        card.label != "A"@,
    ensures
        poker_value(card) == card.weight,
{
}

/// How many of the ten pairs of cards have equal labels.
pub open spec fn equal_pairs(r: Seq<int>) -> int {
    let one = |i: int, j: int|
        if r[i] == r[j] {
            1int
        } else {
            0int
        };
    one(0, 1) + one(0, 2) + one(0, 3) + one(0, 4) + one(1, 2) + one(1, 3) + one(1, 4) + one(2, 3)
        + one(2, 4) + one(3, 4)
}

/// Five cards, given by the numbers of their suits and labels.
pub open spec fn five_cards(suits: Seq<int>, labels: Seq<int>) -> Seq<CardView> {
    Seq::new(5, |i: int| card_of(suits[i], labels[i]))
}

proof fn lemma_times_of_five(v: Seq<int>, x: int)
    requires
        v.len() == 5,
    ensures
        times(v, x) == (if v[0] == x {
            1int
        } else {
            0
        }) + (if v[1] == x {
            1int
        } else {
            0
        }) + (if v[2] == x {
            1int
        } else {
            0
        }) + (if v[3] == x {
            1int
        } else {
            0
        }) + (if v[4] == x {
            1int
        } else {
            0
        }),
{
    let e = Seq::<int>::empty();
    e.to_multiset_ensures();
    assert(!e.contains(x));
    assert(e.to_multiset().count(x) == 0);
    let s1 = e.push(v[0]);
    let s2 = s1.push(v[1]);
    let s3 = s2.push(v[2]);
    let s4 = s3.push(v[3]);
    let s5 = s4.push(v[4]);
    vstd::seq_lib::to_multiset_build(e, v[0]);
    vstd::seq_lib::to_multiset_build(s1, v[1]);
    vstd::seq_lib::to_multiset_build(s2, v[2]);
    vstd::seq_lib::to_multiset_build(s3, v[3]);
    vstd::seq_lib::to_multiset_build(s4, v[4]);
    assert(s5 =~= v);
}

/// All five values differ.
spec fn all_differ(v: Seq<int>) -> bool {
    &&& v[0] != v[1] && v[0] != v[2] && v[0] != v[3] && v[0] != v[4]
    &&& v[1] != v[2] && v[1] != v[3] && v[1] != v[4]
    &&& v[2] != v[3] && v[2] != v[4] && v[3] != v[4]
}

/// Five different values are those of another list of five different ones when each
/// of them is.
#[verifier::rlimit(40)]
proof fn lemma_same_five(v: Seq<int>, w: Seq<int>)
    requires
        v.len() == 5,
        w.len() == 5,
        all_differ(w),
    ensures
        v.to_multiset() == w.to_multiset() <==> all_differ(v) && (forall|i: int|
            0 <= i < 5 ==> #[trigger] v[i] == w[0] || v[i] == w[1] || v[i] == w[2] || v[i] == w[3]
                || v[i] == w[4]),
{
    if v.to_multiset() == w.to_multiset() {
        assert forall|i: int| 0 <= i < 5 implies #[trigger] v[i] == w[0] || v[i] == w[1] || v[i]
            == w[2] || v[i] == w[3] || v[i] == w[4] by {
            lemma_times_of_five(v, v[i]);
            lemma_times_of_five(w, v[i]);
            assert(times(v, v[i]) == times(w, v[i]));
        }
        lemma_times_of_five(v, v[0]);
        lemma_times_of_five(w, v[0]);
        lemma_times_of_five(v, v[1]);
        lemma_times_of_five(w, v[1]);
        lemma_times_of_five(v, v[2]);
        lemma_times_of_five(w, v[2]);
        lemma_times_of_five(v, v[3]);
        lemma_times_of_five(w, v[3]);
        assert(times(v, v[0]) == times(w, v[0]));
        assert(times(v, v[1]) == times(w, v[1]));
        assert(times(v, v[2]) == times(w, v[2]));
        assert(times(v, v[3]) == times(w, v[3]));
    }
    if all_differ(v) && (forall|i: int|
        0 <= i < 5 ==> #[trigger] v[i] == w[0] || v[i] == w[1] || v[i] == w[2] || v[i] == w[3]
            || v[i] == w[4]) {
        assert forall|x: int| v.to_multiset().count(x) == w.to_multiset().count(x) by {
            lemma_times_of_five(v, x);
            lemma_times_of_five(w, x);
            assert(v[0] == w[0] || v[0] == w[1] || v[0] == w[2] || v[0] == w[3] || v[0] == w[4]);
            assert(v[1] == w[0] || v[1] == w[1] || v[1] == w[2] || v[1] == w[3] || v[1] == w[4]);
            assert(v[2] == w[0] || v[2] == w[1] || v[2] == w[2] || v[2] == w[3] || v[2] == w[4]);
            assert(v[3] == w[0] || v[3] == w[1] || v[3] == w[2] || v[3] == w[3] || v[3] == w[4]);
            assert(v[4] == w[0] || v[4] == w[1] || v[4] == w[2] || v[4] == w[3] || v[4] == w[4]);
        }
        assert(v.to_multiset() =~= w.to_multiset());
    }
}

proof fn lemma_run_of_five(v: Seq<int>, low: int)
    requires
        v.len() == 5,
    ensures
        is_run_from(v, low) <==> all_differ(v) && (forall|i: int|
            0 <= i < 5 ==> low <= #[trigger] v[i] <= low + 4),
{
    let w = run_from(low, 5);
    assert(w[0] == low && w[1] == low + 1 && w[2] == low + 2 && w[3] == low + 3 && w[4] == low + 4);
    lemma_same_five(v, w);
}

#[verifier::rlimit(40)]
proof fn lemma_straight_of_five(v: Seq<int>)
    requires
        v.len() == 5,
    ensures
        is_straight(v) <==> all_differ(v) && {
            ||| forall|i: int, j: int|
                0 <= i < 5 && 0 <= j < 5 ==> #[trigger] v[i] - #[trigger] v[j] <= 4
            ||| forall|i: int| 0 <= i < 5 ==> #[trigger] v[i] == 14 || 2 <= v[i] <= 5
        },
{
    let wheel = seq![2int, 3, 4, 5, 14];
    lemma_same_five(v, wheel);
    let near = forall|i: int, j: int|
        0 <= i < 5 && 0 <= j < 5 ==> #[trigger] v[i] - #[trigger] v[j] <= 4;
    if exists|low: int| #[trigger] is_run_from(v, low) {
        let low = choose|low: int| #[trigger] is_run_from(v, low);
        lemma_run_of_five(v, low);
        assert(near);
    }
    if all_differ(v) && near {
        let a = if v[0] <= v[1] {
            v[0]
        } else {
            v[1]
        };
        let b = if v[2] <= v[3] {
            v[2]
        } else {
            v[3]
        };
        let c = if a <= b {
            a
        } else {
            b
        };
        let low = if c <= v[4] {
            c
        } else {
            v[4]
        };
        lemma_run_of_five(v, low);
        assert(is_run_from(v, low));
    }
}

#[verifier::rlimit(40)]
proof fn lemma_counts_of_five(v: Seq<int>)
    requires
        v.len() == 5,
    ensures
        top_count_is(v, 4) <==> equal_pairs(v) == 6,
        is_full_house(v) <==> equal_pairs(v) == 4,
        top_count_is(v, 3) <==> equal_pairs(v) == 3 || equal_pairs(v) == 4,
        is_two_pair(v) <==> equal_pairs(v) == 2,
        (exists|x: int| x >= 11 && #[trigger] is_only_pair(v, x)) <==> equal_pairs(v) == 1 && (
        exists|i: int, j: int|
            0 <= i < j < 5 && #[trigger] v[i] == #[trigger] v[j] && v[i] >= 11),
        all_differ(v) <==> equal_pairs(v) == 0,
{
    assert forall|x: int| #[trigger] times(v, x) == (if v[0] == x {
        1int
    } else {
        0
    }) + (if v[1] == x {
        1int
    } else {
        0
    }) + (if v[2] == x {
        1int
    } else {
        0
    }) + (if v[3] == x {
        1int
    } else {
        0
    }) + (if v[4] == x {
        1int
    } else {
        0
    }) by {
        lemma_times_of_five(v, x);
    }
    let t0 = times(v, v[0]);
    let t1 = times(v, v[1]);
    let t2 = times(v, v[2]);
    let t3 = times(v, v[3]);
    let t4 = times(v, v[4]);
    let p = equal_pairs(v);
    assert(t0 + t1 + t2 + t3 + t4 == 5 + 2 * p);
    if top_count_is(v, 4) {
        assert(p == 6);
    }
    if p == 6 {
        assert(t0 == 4 || t1 == 4);
        assert(top_count_is(v, 4));
    }
    if is_full_house(v) {
        assert(p == 4);
    }
    if p == 4 {
        assert(t0 == 3 || t1 == 3 || t2 == 3);
        assert(t0 == 2 || t1 == 2 || t2 == 2 || t3 == 2);
        assert(is_full_house(v));
    }
    if top_count_is(v, 3) {
        assert(p == 3 || p == 4);
    }
    if p == 3 || p == 4 {
        assert(t0 == 3 || t1 == 3 || t2 == 3);
        assert(top_count_is(v, 3));
    }
    if is_two_pair(v) {
        assert(p == 2);
    }
    if p == 2 {
        assert(is_two_pair(v));
    }
    if exists|x: int| x >= 11 && #[trigger] is_only_pair(v, x) {
        let x = choose|x: int| x >= 11 && #[trigger] is_only_pair(v, x);
        assert(p == 1);
        assert(exists|i: int, j: int|
            0 <= i < j < 5 && #[trigger] v[i] == #[trigger] v[j] && v[i] >= 11);
    }
    if p == 1 && (exists|i: int, j: int|
        0 <= i < j < 5 && #[trigger] v[i] == #[trigger] v[j] && v[i] >= 11) {
        let (i, j) = choose|i: int, j: int|
            0 <= i < j < 5 && #[trigger] v[i] == #[trigger] v[j] && v[i] >= 11;
        assert(is_only_pair(v, v[i]));
    }
}

/// The rank of five cards, told from their suits and labels alone. In one suit, five
/// neighbouring labels are a straight flush, or a royal flush with none below the
/// ten; the ace may also stand below the two. Otherwise the number of pairs of cards
/// with equal labels decides: six in four of a kind, four in a full house, three in
/// three of a kind, two in two pair, and one in a pair, which counts from the jacks
/// on; a flush or a straight stands above the last three.
#[verifier::rlimit(40)]
pub proof fn rank_of_five(suits: Seq<int>, labels: Seq<int>)
    requires
        suits.len() == 5,
        labels.len() == 5,
        forall|i: int| 0 <= i < 5 ==> 0 <= #[trigger] suits[i] < 4,
        forall|i: int| 0 <= i < 5 ==> 0 <= #[trigger] labels[i] < 13,
    ensures
        ({
            let pairs = equal_pairs(labels);
            let one_suit = forall|i: int| 0 <= i < 5 ==> #[trigger] suits[i] == suits[0];
            let neighbours = pairs == 0 && forall|i: int, j: int|
                0 <= i < 5 && 0 <= j < 5 ==> #[trigger] labels[i] - #[trigger] labels[j] <= 4;
            let low_ace = pairs == 0 && forall|i: int|
                0 <= i < 5 ==> #[trigger] labels[i] == 12 || labels[i] <= 3;
            let from_ten = forall|i: int| 0 <= i < 5 ==> #[trigger] labels[i] >= 8;
            let good_pair = exists|i: int, j: int|
                0 <= i < j < 5 && #[trigger] labels[i] == #[trigger] labels[j] && labels[i] >= 9;
            rank_of(five_cards(suits, labels)) == if one_suit && neighbours && from_ten {
                HandRank::RoyalFlush
            } else if one_suit && (neighbours || low_ace) {
                HandRank::StraightFlush
            } else if pairs == 6 {
                HandRank::FourOfAKind
            } else if pairs == 4 {
                HandRank::FullHouse
            } else if one_suit {
                HandRank::Flush
            } else if neighbours || low_ace {
                HandRank::Straight
            } else if pairs == 3 {
                HandRank::ThreeOfAKind
            } else if pairs == 2 {
                HandRank::TwoPair
            } else if pairs == 1 && good_pair {
                HandRank::JacksOrBetter
            } else {
                HandRank::HighCard
            }
        }),
{
    let hand = five_cards(suits, labels);
    let v = poker_values(hand);
    assert forall|i: int| 0 <= i < 5 implies #[trigger] v[i] == labels[i] + 2 by {
        values_follow_the_labels(suits[i], labels[i]);
        assert(hand[i] == card_of(suits[i], labels[i]));
    }
    assert(v[0] == labels[0] + 2 && v[1] == labels[1] + 2 && v[2] == labels[2] + 2 && v[3]
        == labels[3] + 2 && v[4] == labels[4] + 2);
    assert(equal_pairs(v) == equal_pairs(labels));
    lemma_counts_of_five(v);
    lemma_straight_of_five(v);
    lemma_run_of_five(v, 10);
    let one_suit = forall|i: int| 0 <= i < 5 ==> #[trigger] suits[i] == suits[0];
    assert(is_flush(hand) == one_suit) by {
        if is_flush(hand) {
            assert forall|i: int| 0 <= i < 5 implies #[trigger] suits[i] == suits[0] by {
                assert(hand[i].suit == hand[0].suit);
                lemma_suits_differ(suits[i], suits[0]);
            }
        }
        if one_suit {
            assert forall|i: int| 0 <= i < hand.len() implies #[trigger] hand[i].suit
                == hand[0].suit by {
                assert(suits[i] == suits[0]);
            }
        }
    }
    let near_v = forall|i: int, j: int|
        0 <= i < 5 && 0 <= j < 5 ==> #[trigger] v[i] - #[trigger] v[j] <= 4;
    let near = forall|i: int, j: int|
        0 <= i < 5 && 0 <= j < 5 ==> #[trigger] labels[i] - #[trigger] labels[j] <= 4;
    assert(near_v == near) by {
        if near {
            assert forall|i: int, j: int| 0 <= i < 5 && 0 <= j < 5 implies #[trigger] v[i]
                - #[trigger] v[j] <= 4 by {
                assert(labels[i] - labels[j] <= 4);
            }
        }
        if near_v {
            assert forall|i: int, j: int| 0 <= i < 5 && 0 <= j < 5 implies #[trigger] labels[i]
                - #[trigger] labels[j] <= 4 by {
                assert(v[i] - v[j] <= 4);
            }
        }
    }
    let low_v = forall|i: int| 0 <= i < 5 ==> #[trigger] v[i] == 14 || 2 <= v[i] <= 5;
    let low = forall|i: int| 0 <= i < 5 ==> #[trigger] labels[i] == 12 || labels[i] <= 3;
    assert(low_v == low) by {
        if low {
            assert forall|i: int| 0 <= i < 5 implies #[trigger] v[i] == 14 || 2 <= v[i] <= 5 by {
                assert(labels[i] == 12 || labels[i] <= 3);
            }
        }
        if low_v {
            assert forall|i: int| 0 <= i < 5 implies #[trigger] labels[i] == 12 || labels[i]
                <= 3 by {
                assert(v[i] == 14 || 2 <= v[i] <= 5);
            }
        }
    }
    let good_v = exists|i: int, j: int|
        0 <= i < j < 5 && #[trigger] v[i] == #[trigger] v[j] && v[i] >= 11;
    let good = exists|i: int, j: int|
        0 <= i < j < 5 && #[trigger] labels[i] == #[trigger] labels[j] && labels[i] >= 9;
    assert(good_v == good) by {
        if good {
            let (i, j) = choose|i: int, j: int|
                0 <= i < j < 5 && #[trigger] labels[i] == #[trigger] labels[j] && labels[i] >= 9;
            assert(v[i] == v[j] && v[i] >= 11);
        }
        if good_v {
            let (i, j) = choose|i: int, j: int|
                0 <= i < j < 5 && #[trigger] v[i] == #[trigger] v[j] && v[i] >= 11;
            assert(labels[i] == labels[j] && labels[i] >= 9);
        }
    }
    let royal_v = forall|i: int| 0 <= i < 5 ==> 10 <= #[trigger] v[i] <= 14;
    let royal = forall|i: int| 0 <= i < 5 ==> #[trigger] labels[i] >= 8;
    assert(royal_v == royal) by {
        if royal {
            assert forall|i: int| 0 <= i < 5 implies 10 <= #[trigger] v[i] <= 14 by {
                assert(labels[i] >= 8);
            }
        }
        if royal_v {
            assert forall|i: int| 0 <= i < 5 implies #[trigger] labels[i] >= 8 by {
                assert(10 <= v[i] <= 14);
            }
        }
    }
    if royal {
        assert(near) by {
            assert forall|i: int, j: int| 0 <= i < 5 && 0 <= j < 5 implies #[trigger] labels[i]
                - #[trigger] labels[j] <= 4 by {
                assert(labels[i] >= 8 && labels[j] >= 8);
            }
        }
    }
}

/// Each rank pays its own multiple of the bet.
pub proof fn pay_table(rank: HandRank)
    ensures
        rank is RoyalFlush <==> pays(rank) == 250,
        rank is StraightFlush <==> pays(rank) == 50,
        rank is FourOfAKind <==> pays(rank) == 25,
        rank is FullHouse <==> pays(rank) == 9,
        rank is Flush <==> pays(rank) == 6,
        rank is Straight <==> pays(rank) == 4,
        rank is ThreeOfAKind <==> pays(rank) == 3,
        rank is TwoPair <==> pays(rank) == 2,
        rank is JacksOrBetter <==> pays(rank) == 1,
        rank is HighCard <==> pays(rank) == 0,
{
}

/// Five cards or more always have a rank, and of the shorter hands all that are in two
/// suits.
pub proof fn most_hands_have_a_rank(hand: Seq<CardView>, i: int)
    requires
        hand.len() >= 5 || (0 <= i < hand.len() && hand[i].suit != hand[0].suit),
    ensures
        is_rankable(hand),
{
}

} // verus!
