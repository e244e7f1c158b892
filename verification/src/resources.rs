//! Shared game resources: a player's hand, the discard pile, and the
//! terminal-condition flag.

use vstd::prelude::*;

use crate::card::{CardType, GoodType};

verus! {

/// Maximum number of goods a hand may hold after any move completes.
pub const MAX_HAND_GOODS: usize = 7;

/// One player's hand: a list of goods (order only matters for
/// index-addressed bookkeeping) and a count of fungible camels.
#[derive(Clone, Debug)]
pub struct Hand {
    pub goods: Vec<GoodType>,
    pub camels: usize,
}

impl Hand {
    /// The goods count never exceeds the hand limit after a move completes.
    pub open spec fn wf(self) -> bool {
        self.goods@.len() <= MAX_HAND_GOODS
    }

    pub fn new(goods: Vec<GoodType>, camels: usize) -> (r: Hand)
        ensures
            r.goods == goods,
            r.camels == camels,
    {
        Hand { goods, camels }
    }

    /// How many goods of the given type the hand holds.
    pub fn count_good(&self, g: GoodType) -> (r: usize)
        ensures
            r == count_goods_of_type(self.goods@, g),
    {
        count_goods_in(&self.goods, g)
    }
}

/// Number of entries of `goods` from position `i` on that equal `g`.
pub open spec fn count_goods_of_type_from(goods: Seq<GoodType>, g: GoodType, i: int) -> int
    decreases goods.len() - i,
{
    if i < 0 || i >= goods.len() {
        0
    } else {
        (if goods[i] == g {
            1int
        } else {
            0int
        }) + count_goods_of_type_from(goods, g, i + 1)
    }
}

/// Number of entries of `goods` that equal `g`.
pub open spec fn count_goods_of_type(goods: Seq<GoodType>, g: GoodType) -> int {
    count_goods_of_type_from(goods, g, 0)
}

pub proof fn lemma_count_goods_of_type_bounds(goods: Seq<GoodType>, g: GoodType, i: int)
    ensures
        0 <= count_goods_of_type_from(goods, g, i),
        i <= goods.len() ==> count_goods_of_type_from(goods, g, i) <= goods.len() - i,
    decreases goods.len() - i,
{
    if i >= 0 && i < goods.len() {
        lemma_count_goods_of_type_bounds(goods, g, i + 1);
    }
}

/// Counts the occurrences of `g` in `goods`.
pub fn count_goods_in(goods: &Vec<GoodType>, g: GoodType) -> (r: usize)
    ensures
        r == count_goods_of_type(goods@, g),
{
    let mut count: usize = 0;
    let mut i: usize = 0;
    proof {
        lemma_count_goods_of_type_bounds(goods@, g, 0);
    }
    while i < goods.len()
        invariant
            i <= goods@.len(),
            count_goods_of_type(goods@, g) == count + count_goods_of_type_from(goods@, g, i as int),
            count <= i,
        decreases goods@.len() - i,
    {
        if goods[i] == g {
            count = count + 1;
        }
        i = i + 1;
    }
    count
}

/// The append-only pile of sold good cards; only the most recent entry is
/// ever inspected by the presentation layer.
#[derive(Clone, Debug)]
pub struct DiscardPile {
    pub cards: Vec<CardType>,
}

impl DiscardPile {
    pub fn new() -> (r: DiscardPile)
        ensures
            r.cards@ == Seq::<CardType>::empty(),
    {
        DiscardPile { cards: Vec::new() }
    }
}

/// Terminal-condition flag, derived from deck exhaustion during a refill or
/// from three good-type token stacks reaching empty after a sale.
#[derive(Clone, Copy, Debug, PartialEq, Eq, Structural)]
pub struct GameState {
    pub is_game_over: bool,
}

impl GameState {
    pub fn new() -> (r: GameState)
        ensures
            !r.is_game_over,
    {
        GameState { is_game_over: false }
    }
}

} // verus!
