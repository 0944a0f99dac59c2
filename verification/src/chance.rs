//! Chance: what the library draws from the thread's random number generator.

use rand::seq::{IndexedRandom, SliceRandom};
use rand::RngExt;
use vstd::prelude::*;

use crate::cards::{cards, Card};

verus! {

/// `SliceRandom::shuffle` of `rand`, on the thread's generator: rearranges the
/// cards. Whatever the arrangement, the same cards are there, each as often as
/// before. Which arrangement comes out is left to chance and not stated.
#[verifier::external_body]
pub(crate) fn shuffle_cards(deck: &mut Vec<Card>)
    ensures
        cards(final(deck)@).to_multiset() == cards(old(deck)@).to_multiset(),
{
    deck.shuffle(&mut rand::rng());
}

/// `IndexedRandom::choose` of `rand`, on the thread's generator: picks one of the
/// items, and `None` exactly when there are none. Which one is left to chance and
/// not stated.
#[verifier::external_body]
pub(crate) fn pick_one<T>(items: &Vec<T>) -> (item: Option<&T>)
    ensures
        item is None <==> items@.len() == 0,
        item is Some ==> items@.contains(*item->0),
{
    items.choose(&mut rand::rng())
}

/// `RngExt::random_ratio` of `rand`, on the thread's generator, with the odds of
/// one in two. Either answer can come out, so nothing is stated of it.
#[verifier::external_body]
pub(crate) fn coin_is_heads() -> bool {
    rand::rng().random_ratio(1, 2)
}

} // verus!
