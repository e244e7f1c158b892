//! Utility scorers: one per move type, each computing a desirability
//! score and caching the concrete selection it would act on.
//!
//! Scores are exact fixed-point values in `[0, SCORE_ONE]`, with
//! `SCORE_ONE` standing for a desirability of one. Scoring is pure: it
//! reads the game state and returns a value, and the cached selection is
//! always one the rule engine classifies as valid for the scored move.

use vstd::prelude::*;

use crate::card::{CardType, GoodType};
use crate::execution::MARKET_SIZE;
use crate::resources::{
    count_goods_in, count_goods_of_type, count_goods_of_type_from, lemma_count_goods_of_type_bounds,
    Hand, MAX_HAND_GOODS,
};
use crate::rules::{
    count_camels_in_market, lemma_all_goods_counts, sel_types_intersect, take_all_camels_ok,
    count_market_camels, count_market_camels_from, lemma_all_camels_counts, valid_move,
    lemma_take_single_good_always_valid, MoveType, MoveValidity, TurnState,
};
use crate::selection::SelectionSet;
use crate::tokens::{good_index, good_of_slot};

verus! {

/// The fixed-point value standing for a score of one.
pub const SCORE_ONE: u64 = 10000;

/// Clamps a value into the inclusive range `[lo, hi]`, upper bound first.
pub open spec fn spec_clamp(val: int, lo: int, hi: int) -> int {
    let v = if val > hi {
        hi
    } else {
        val
    };
    if v < lo {
        lo
    } else {
        v
    }
}

/// Clamps a value into the inclusive range `[lo, hi]`, upper bound first.
pub fn clamp(val: i64, lo: i64, hi: i64) -> (r: i64)
    ensures
        r == spec_clamp(val as int, lo as int, hi as int),
{
    let v = if val > hi {
        hi
    } else {
        val
    };
    if v < lo {
        lo
    } else {
        v
    }
}

/// Desirability of ending up with `count_in_hand + 1` goods of one type:
/// two tenths per card, half as much again for a high-value good, clamped
/// to one.
pub open spec fn spec_single_good_score(count_in_hand: int, high_value: bool) -> int {
    if high_value {
        spec_clamp((count_in_hand + 1) * 3000, 0, SCORE_ONE as int)
    } else {
        spec_clamp((count_in_hand + 1) * 2000, 0, SCORE_ONE as int)
    }
}

/// Score of taking the card in market slot `i`; slots holding camels (or
/// out of range) score below every good.
pub open spec fn spec_slot_score(market: Seq<CardType>, goods: Seq<GoodType>, i: int) -> int {
    if 0 <= i < market.len() && market[i].is_good() {
        spec_single_good_score(
            count_goods_of_type(goods, market[i].spec_into_good_type()),
            market[i].spec_into_good_type().spec_is_high_value(),
        )
    } else {
        -1
    }
}

/// Fixed-point score for taking a single good given how many of it the
/// hand already holds.
pub fn single_good_score(count_in_hand: usize, high_value: bool) -> (r: u64)
    requires
        count_in_hand <= MAX_HAND_GOODS,
    ensures
        r == spec_single_good_score(count_in_hand as int, high_value),
        0 < r <= SCORE_ONE,
{
    let base: u64 = if high_value {
        (count_in_hand as u64 + 1) * 3000
    } else {
        (count_in_hand as u64 + 1) * 2000
    };
    if base > SCORE_ONE {
        SCORE_ONE
    } else {
        base
    }
}

/// Scores taking a single good: picks the market good that would maximize
/// the per-slot score (the last such slot on ties), or nothing when the
/// hand is full or the market holds no goods.
pub fn take_single_good_scorer(market: &Vec<CardType>, hand: &Hand) -> (r: (
    u64,
    Option<SelectionSet>,
))
    requires
        hand.wf(),
    ensures
        r.0 <= SCORE_ONE,
        r.1 is None ==> r.0 == 0,
        (r.1 is None) <==> (hand.goods@.len() >= MAX_HAND_GOODS || (forall|i: int|
            0 <= i < market@.len() ==> !(#[trigger] market@[i]).is_good())),
        match r.1 {
            None => true,
            Some(s) => {
                &&& s.market@.len() == 1
                &&& s.hand_goods@.len() == 0
                &&& s.hand_camels == 0
                &&& (s.market@[0] as int) < market@.len()
                &&& market@[s.market@[0] as int].is_good()
                &&& r.0 == spec_slot_score(market@, hand.goods@, s.market@[0] as int)
                &&& r.0 > 0
                &&& (forall|j: int|
                    0 <= j < market@.len() ==> spec_slot_score(market@, hand.goods@, j) <= r.0)
                &&& (forall|j: int|
                    s.market@[0] < j < market@.len() ==> spec_slot_score(market@, hand.goods@, j)
                        < r.0)
                &&& s.wf(market@, *hand)
                &&& valid_move(TurnState::Take, s, market@, *hand) == MoveValidity::Valid(
                    MoveType::TakeSingleGood,
                )
            },
        },
{
    if hand.goods.len() >= MAX_HAND_GOODS {
        return (0, None);
    }
    let mut best_slot: Option<usize> = None;
    let mut best_score: u64 = 0;
    let mut i: usize = 0;
    while i < market.len()
        invariant
            i <= market@.len(),
            hand.wf(),
            match best_slot {
                None => best_score == 0 && (forall|j: int|
                    0 <= j < i ==> !(#[trigger] market@[j]).is_good()),
                Some(b) => {
                    &&& b < i
                    &&& market@[b as int].is_good()
                    &&& best_score == spec_slot_score(market@, hand.goods@, b as int)
                    &&& 0 < best_score <= SCORE_ONE
                    &&& (forall|j: int|
                        0 <= j < i ==> spec_slot_score(market@, hand.goods@, j) <= best_score)
                    &&& (forall|j: int|
                        b < j < i ==> spec_slot_score(market@, hand.goods@, j) < best_score)
                },
            },
        decreases market@.len() - i,
    {
        match market[i] {
            CardType::Good(g) => {
                proof {
                    lemma_count_goods_of_type_bounds(hand.goods@, g, 0);
                }
                let count = count_goods_in(&hand.goods, g);
                let score = single_good_score(count, g.is_high_value());
                if best_slot.is_none() || score >= best_score {
                    best_slot = Some(i);
                    best_score = score;
                }
            },
            CardType::Camel => {},
        }
        i = i + 1;
    }
    match best_slot {
        Some(b) => {
            let cached = SelectionSet { market: vec![b], hand_goods: Vec::new(), hand_camels: 0 };
            proof {
                lemma_take_single_good_always_valid(cached, market@, *hand);
            }
            (best_score, Some(cached))
        },
        None => (0, None),
    }
}

/// Desirability of selling `f` cards of one type: two tenths per card,
/// half as much again for a high-value type, clamped to one.
pub open spec fn spec_sell_score(f: int, high_value: bool) -> int {
    if high_value {
        spec_clamp(f * 3000, 0, SCORE_ONE as int)
    } else {
        spec_clamp(f * 2000, 0, SCORE_ONE as int)
    }
}

/// A good type the hand could legally sell: it is held at all, and a
/// high-value type is held at least twice.
pub open spec fn spec_sellable(goods: Seq<GoodType>, g: GoodType) -> bool {
    count_goods_of_type(goods, g) > 0 && !(g.spec_is_high_value() && count_goods_of_type(goods, g)
        < 2)
}

/// Fixed-point score for selling `freq` cards of one type.
pub fn sell_score(freq: usize, high_value: bool) -> (r: u64)
    requires
        freq <= MAX_HAND_GOODS,
    ensures
        r == spec_sell_score(freq as int, high_value),
        r <= SCORE_ONE,
{
    let base: u64 = if high_value {
        (freq as u64) * 3000
    } else {
        (freq as u64) * 2000
    };
    if base > SCORE_ONE {
        SCORE_ONE
    } else {
        base
    }
}

/// Scores selling goods: groups the hand by type, drops high-value types
/// held only once, and keeps the most frequent remaining type (the first
/// in the fixed good-type order on ties); caches the selection of every
/// card of that type.
pub fn sell_goods_scorer(hand: &Hand) -> (r: (u64, Option<SelectionSet>))
    requires
        hand.wf(),
    ensures
        r.0 <= SCORE_ONE,
        r.1 is None ==> r.0 == 0,
        (r.1 is None) <==> (forall|g: GoodType| !spec_sellable(hand.goods@, g)),
        match r.1 {
            None => true,
            Some(s) => {
                &&& s.market@.len() == 0
                &&& s.hand_camels == 0
                &&& s.hand_goods@.len() > 0
                &&& (s.hand_goods@[0] as int) < hand.goods@.len()
                &&& s.hand_goods@.len() == count_goods_of_type(
                    hand.goods@,
                    hand.goods@[s.hand_goods@[0] as int],
                )
                &&& (forall|a: int|
                    0 <= a < s.hand_goods@.len() ==> (#[trigger] s.hand_goods@[a])
                        < hand.goods@.len() && hand.goods@[s.hand_goods@[a] as int]
                        == hand.goods@[s.hand_goods@[0] as int])
                &&& (forall|k: int|
                    #![trigger s.hand_goods@.contains(k as usize)]
                    0 <= k < hand.goods@.len() ==> (hand.goods@[k] == hand.goods@[s.hand_goods@[0] as int]
                        <==> s.hand_goods@.contains(k as usize)))
                &&& spec_sellable(hand.goods@, hand.goods@[s.hand_goods@[0] as int])
                &&& r.0 == spec_sell_score(
                    count_goods_of_type(hand.goods@, hand.goods@[s.hand_goods@[0] as int]),
                    hand.goods@[s.hand_goods@[0] as int].spec_is_high_value(),
                )
                &&& r.0 > 0
                &&& (forall|h: GoodType|
                    spec_sellable(hand.goods@, h) ==> count_goods_of_type(hand.goods@, h)
                        <= count_goods_of_type(hand.goods@, hand.goods@[s.hand_goods@[0] as int]))
                &&& (forall|h: GoodType|
                    spec_sellable(hand.goods@, h) && count_goods_of_type(hand.goods@, h)
                        == count_goods_of_type(
                        hand.goods@,
                        hand.goods@[s.hand_goods@[0] as int],
                    ) ==> good_index(hand.goods@[s.hand_goods@[0] as int]) <= good_index(h))
                &&& (forall|m: Seq<CardType>|
                    s.wf(m, *hand) && valid_move(TurnState::Sell, s, m, *hand)
                        == MoveValidity::Valid(MoveType::SellGoods))
            },
        },
{
    let mut best: Option<GoodType> = None;
    let mut best_count: usize = 0;
    let mut gi: usize = 0;
    while gi < 6
        invariant
            gi <= 6,
            hand.wf(),
            match best {
                None => best_count == 0 && (forall|h: GoodType|
                    good_index(h) < gi ==> !spec_sellable(hand.goods@, h)),
                Some(bg) => {
                    &&& good_index(bg) < gi
                    &&& spec_sellable(hand.goods@, bg)
                    &&& best_count == count_goods_of_type(hand.goods@, bg)
                    &&& best_count > 0
                    &&& (forall|h: GoodType|
                        good_index(h) < gi && spec_sellable(hand.goods@, h)
                            ==> count_goods_of_type(hand.goods@, h) <= best_count)
                    &&& (forall|h: GoodType|
                        good_index(h) < gi && spec_sellable(hand.goods@, h)
                            && count_goods_of_type(hand.goods@, h) == best_count ==> good_index(bg)
                            <= good_index(h))
                },
            },
        decreases 6 - gi,
    {
        let g = good_of_slot(gi);
        proof {
            lemma_count_goods_of_type_bounds(hand.goods@, g, 0);
        }
        let c = count_goods_in(&hand.goods, g);
        let eligible = c > 0 && !(g.is_high_value() && c < 2);
        if eligible && (best.is_none() || c > best_count) {
            best = Some(g);
            best_count = c;
        }
        gi = gi + 1;
    }
    match best {
        None => {
            proof {
                assert forall|g: GoodType| !spec_sellable(hand.goods@, g) by {
                    assert(good_index(g) < 6);
                }
            }
            (0, None)
        },
        Some(g) => {
            let mut idxs: Vec<usize> = Vec::new();
            let mut k: usize = 0;
            while k < hand.goods.len()
                invariant
                    k <= hand.goods@.len(),
                    idxs@.len() <= k,
                    count_goods_of_type(hand.goods@, g) == idxs@.len() + count_goods_of_type_from(
                        hand.goods@,
                        g,
                        k as int,
                    ),
                    forall|a: int|
                        0 <= a < idxs@.len() ==> (#[trigger] idxs@[a]) < k && hand.goods@[idxs@[a] as int]
                            == g,
                    forall|a: int, b: int| 0 <= a < b < idxs@.len() ==> idxs@[a] < idxs@[b],
                    forall|j: int|
                        0 <= j < k ==> (hand.goods@[j] == g <==> idxs@.contains(j as usize)),
                decreases hand.goods@.len() - k,
            {
                if hand.goods[k] == g {
                    let ghost before = idxs@;
                    idxs.push(k);
                    proof {
                        assert forall|j: int|
                            0 <= j < k + 1 implies (hand.goods@[j] == g <==> idxs@.contains(
                            j as usize,
                        )) by {
                            if j == k {
                                assert(idxs@[idxs@.len() - 1] == k);
                            } else {
                                if before.contains(j as usize) {
                                    let w = choose|w: int|
                                        0 <= w < before.len() && before[w] == j as usize;
                                    assert(idxs@[w] == j as usize);
                                } else {
                                    if idxs@.contains(j as usize) {
                                        let w = choose|w: int|
                                            0 <= w < idxs@.len() && idxs@[w] == j as usize;
                                        assert(w < before.len());
                                        assert(before[w] == j as usize);
                                    }
                                }
                            }
                        }
                    }
                } else {
                    proof {
                        assert forall|j: int|
                            0 <= j < k + 1 implies (hand.goods@[j] == g <==> idxs@.contains(
                            j as usize,
                        )) by {
                            if j == k && idxs@.contains(j as usize) {
                                let w = choose|w: int|
                                    0 <= w < idxs@.len() && idxs@[w] == j as usize;
                                assert(idxs@[w] < k);
                            }
                        }
                    }
                }
                k = k + 1;
            }
            let score = sell_score(best_count, g.is_high_value());
            let cached = SelectionSet { market: Vec::new(), hand_goods: idxs, hand_camels: 0 };
            proof {
                assert forall|a: int, b: int|
                    0 <= a < cached.hand_goods@.len() && 0 <= b < cached.hand_goods@.len() && a != b implies cached.hand_goods@[a]
                    != cached.hand_goods@[b] by {
                    if a < b {
                        assert(cached.hand_goods@[a] < cached.hand_goods@[b]);
                    } else {
                        assert(cached.hand_goods@[b] < cached.hand_goods@[a]);
                    }
                }
                assert(cached.hand_goods@.len() > 0);
                assert(hand.goods@[cached.hand_goods@[0] as int] == g);
            }
            (score, Some(cached))
        },
    }
}

/// Desirability of taking `c` market camels with `g` goods in the acting
/// hand and `o` goods in the opposing hand: the camel count dominates
/// quadratically, hand fullness is penalized quadratically, and the
/// opponent's hand size is a linear tempo bonus.
pub open spec fn spec_camels_score(c: int, g: int, o: int) -> int {
    spec_clamp((2 * (c * c) - g * g + 2 * o) * 125, 0, SCORE_ONE as int)
}

/// Scores taking all camels: applicable only when the market holds at
/// least one camel; caches the selection of every market camel slot.
pub fn take_all_camels_scorer(market: &Vec<CardType>, hand: &Hand, opponent: &Hand) -> (r: (
    u64,
    Option<SelectionSet>,
))
    requires
        hand.wf(),
        opponent.wf(),
        market@.len() <= MARKET_SIZE,
    ensures
        r.0 <= SCORE_ONE,
        r.1 is None ==> r.0 == 0,
        (r.1 is None) <==> count_market_camels(market@) == 0,
        match r.1 {
            None => true,
            Some(s) => {
                &&& r.0 == spec_camels_score(
                    count_market_camels(market@),
                    hand.goods@.len() as int,
                    opponent.goods@.len() as int,
                )
                &&& s.market@.len() == count_market_camels(market@)
                &&& s.hand_goods@.len() == 0
                &&& s.hand_camels == 0
                &&& (forall|a: int|
                    0 <= a < s.market@.len() ==> market@[(#[trigger] s.market@[a]) as int].is_camel())
                &&& (forall|i: int|
                    0 <= i < market@.len() && market@[i].is_camel() ==> s.market@.contains(
                        i as usize,
                    ))
                &&& s.wf(market@, *hand)
                &&& valid_move(TurnState::Take, s, market@, *hand) == MoveValidity::Valid(
                    MoveType::TakeAllCamels,
                )
            },
        },
{
    let mut camel_slots: Vec<usize> = Vec::new();
    let mut i: usize = 0;
    while i < market.len()
        invariant
            i <= market@.len(),
            camel_slots@.len() <= i,
            count_market_camels(market@) == camel_slots@.len() + count_market_camels_from(
                market@,
                i as int,
            ),
            forall|a: int|
                0 <= a < camel_slots@.len() ==> (#[trigger] camel_slots@[a]) < i,
            forall|a: int|
                0 <= a < camel_slots@.len() ==> market@[(#[trigger] camel_slots@[a]) as int].is_camel(),
            forall|a: int, b: int|
                0 <= a < b < camel_slots@.len() ==> camel_slots@[a] < camel_slots@[b],
            forall|j: int|
                0 <= j < i && market@[j].is_camel() ==> camel_slots@.contains(j as usize),
        decreases market@.len() - i,
    {
        if matches!(market[i], CardType::Camel) {
            let ghost before = camel_slots@;
            camel_slots.push(i);
            proof {
                assert forall|j: int|
                    0 <= j < i + 1 && market@[j].is_camel() implies camel_slots@.contains(
                    j as usize,
                ) by {
                    if j == i {
                        assert(camel_slots@[camel_slots@.len() - 1] == i);
                    } else {
                        let w = choose|w: int| 0 <= w < before.len() && before[w] == j as usize;
                        assert(camel_slots@[w] == j as usize);
                    }
                }
            }
        }
        i = i + 1;
    }
    if camel_slots.len() == 0 {
        return (0, None);
    }
    let c = camel_slots.len() as i64;
    let g = hand.goods.len() as i64;
    let o = opponent.goods.len() as i64;
    proof {
        assert(0 <= c * c && c * c <= 25) by (nonlinear_arith)
            requires
                0 <= c <= 5,
        ;
        assert(0 <= g * g && g * g <= 49) by (nonlinear_arith)
            requires
                0 <= g <= 7,
        ;
    }
    let clamped = clamp((2 * (c * c) - g * g + 2 * o) * 125, 0, SCORE_ONE as i64);
    proof {
        assert(0 <= clamped <= SCORE_ONE);
    }
    let score = clamped as u64;
    let cached = SelectionSet { market: camel_slots, hand_goods: Vec::new(), hand_camels: 0 };
    proof {
        assert forall|a: int, b: int|
            0 <= a < cached.market@.len() && 0 <= b < cached.market@.len() && a != b implies cached.market@[a]
            != cached.market@[b] by {
            if a < b {
                assert(cached.market@[a] < cached.market@[b]);
            } else {
                assert(cached.market@[b] < cached.market@[a]);
            }
        }
        lemma_all_camels_counts(market@, cached.market@, 0);
    }
    (score, Some(cached))
}

/// Number of market slots from `i` on that hold a good of type `t`.
pub open spec fn count_market_goods_of_type_from(market: Seq<CardType>, t: GoodType, i: int) -> int
    decreases market.len() - i,
{
    if i < 0 || i >= market.len() {
        0
    } else {
        (if market[i] == CardType::Good(t) {
            1int
        } else {
            0int
        }) + count_market_goods_of_type_from(market, t, i + 1)
    }
}

/// Number of market slots that hold a good of type `t`.
pub open spec fn count_market_goods_of_type(market: Seq<CardType>, t: GoodType) -> int {
    count_market_goods_of_type_from(market, t, 0)
}

proof fn lemma_market_type_count_bounds(market: Seq<CardType>, t: GoodType, i: int)
    ensures
        0 <= count_market_goods_of_type_from(market, t, i),
        i <= market.len() ==> count_market_goods_of_type_from(market, t, i) <= market.len() - i,
    decreases market.len() - i,
{
    if 0 <= i && i < market.len() {
        lemma_market_type_count_bounds(market, t, i + 1);
    }
}

proof fn lemma_market_type_count_positive(market: Seq<CardType>, t: GoodType, i: int, j: int)
    requires
        0 <= i <= j < market.len(),
        market[j] == CardType::Good(t),
    ensures
        count_market_goods_of_type_from(market, t, i) >= 1,
    decreases j - i,
{
    lemma_market_type_count_bounds(market, t, i + 1);
    if i < j {
        lemma_market_type_count_positive(market, t, i + 1, j);
    }
}

proof fn lemma_market_camels_bounds(market: Seq<CardType>, i: int)
    ensures
        0 <= count_market_camels_from(market, i),
        i <= market.len() ==> count_market_camels_from(market, i) <= market.len() - i,
    decreases market.len() - i,
{
    if 0 <= i && i < market.len() {
        lemma_market_camels_bounds(market, i + 1);
    }
}

/// Counts the market slots that hold a good of type `t`.
fn count_goods_of_type_in_market(market: &Vec<CardType>, t: GoodType) -> (r: usize)
    ensures
        r == count_market_goods_of_type(market@, t),
{
    let mut count: usize = 0;
    let mut i: usize = 0;
    while i < market.len()
        invariant
            i <= market@.len(),
            count <= i,
            count_market_goods_of_type(market@, t) == count + count_market_goods_of_type_from(
                market@,
                t,
                i as int,
            ),
        decreases market@.len() - i,
    {
        if market[i] == CardType::Good(t) {
            count = count + 1;
        }
        i = i + 1;
    }
    count
}

/// The hand count a slot's good type would reach if every unit of it were
/// taken from the market.
pub open spec fn spec_proj(market: Seq<CardType>, goods: Seq<GoodType>, i: int) -> int {
    count_market_goods_of_type(market, market[i].spec_into_good_type()) + count_goods_of_type(
        goods,
        market[i].spec_into_good_type(),
    )
}

/// Whether market slot `a` is preferred over slot `b` as exchange
/// material: strictly higher projected count, or the higher slot index on
/// equal projections.
pub open spec fn spec_slot_pref(market: Seq<CardType>, goods: Seq<GoodType>, a: int, b: int) -> bool {
    spec_proj(market, goods, a) > spec_proj(market, goods, b) || (spec_proj(market, goods, a)
        == spec_proj(market, goods, b) && a > b)
}

/// Computes a slot's projected count.
fn slot_proj(market: &Vec<CardType>, hand: &Hand, i: usize) -> (r: usize)
    requires
        i < market@.len(),
        market@[i as int].is_good(),
        hand.wf(),
        market@.len() <= MARKET_SIZE,
    ensures
        r == spec_proj(market@, hand.goods@, i as int),
        r <= 12,
{
    let g = market[i].into_good_type();
    proof {
        lemma_market_type_count_bounds(market@, g, 0);
        lemma_count_goods_of_type_bounds(hand.goods@, g, 0);
    }
    count_goods_of_type_in_market(market, g) + count_goods_in(&hand.goods, g)
}

/// Compares two good slots as exchange material.
fn slot_preferred(market: &Vec<CardType>, hand: &Hand, a: usize, b: usize) -> (r: bool)
    requires
        a < market@.len(),
        b < market@.len(),
        market@[a as int].is_good(),
        market@[b as int].is_good(),
        hand.wf(),
        market@.len() <= MARKET_SIZE,
    ensures
        r == spec_slot_pref(market@, hand.goods@, a as int, b as int),
{
    let pa = slot_proj(market, hand, a);
    let pb = slot_proj(market, hand, b);
    pa > pb || (pa == pb && a > b)
}

/// Number of market slots from `i` on that hold a good and are not yet
/// marked as used.
pub open spec fn count_unused_goods_from(market: Seq<CardType>, used: Seq<bool>, i: int) -> int
    decreases market.len() - i,
{
    if i < 0 || i >= market.len() {
        0
    } else {
        (if market[i].is_good() && !used[i] {
            1int
        } else {
            0int
        }) + count_unused_goods_from(market, used, i + 1)
    }
}

proof fn lemma_count_unused_init(market: Seq<CardType>, used: Seq<bool>, i: int)
    requires
        used.len() == market.len(),
        forall|j: int| 0 <= j < used.len() ==> !(#[trigger] used[j]),
        0 <= i <= market.len(),
    ensures
        count_unused_goods_from(market, used, i) == (market.len() - i) - count_market_camels_from(
            market,
            i,
        ),
    decreases market.len() - i,
{
    if i < market.len() {
        lemma_count_unused_init(market, used, i + 1);
    }
}

proof fn lemma_count_unused_update(market: Seq<CardType>, used: Seq<bool>, f: int, i: int)
    requires
        used.len() == market.len(),
        0 <= f < market.len(),
        market[f].is_good(),
        !used[f],
        0 <= i <= market.len(),
    ensures
        i <= f ==> count_unused_goods_from(market, used.update(f, true), i)
            == count_unused_goods_from(market, used, i) - 1,
        i > f ==> count_unused_goods_from(market, used.update(f, true), i)
            == count_unused_goods_from(market, used, i),
    decreases market.len() - i,
{
    if i < market.len() {
        lemma_count_unused_update(market, used, f, i + 1);
    }
}

proof fn lemma_count_unused_none(market: Seq<CardType>, used: Seq<bool>, i: int)
    requires
        forall|j: int| 0 <= j < market.len() ==> !(market[j].is_good() && !(#[trigger] used[j])),
        0 <= i,
    ensures
        count_unused_goods_from(market, used, i) == 0,
    decreases market.len() - i,
{
    if i < market.len() {
        lemma_count_unused_none(market, used, i + 1);
    }
}

/// How many camels the hand could spend as exchange material without the
/// resulting hand exceeding its limit.
pub open spec fn spec_exchange_cap(hand: Hand) -> int {
    if hand.goods@.len() >= MAX_HAND_GOODS {
        0
    } else if MAX_HAND_GOODS - hand.goods@.len() < hand.camels {
        MAX_HAND_GOODS - hand.goods@.len()
    } else {
        hand.camels as int
    }
}

/// A hand good usable as exchange material: its type is held only once
/// and does not occur in the market (so the exchange does not destroy a
/// type the hand is building, nor swap a type for itself).
pub open spec fn spec_eligible_single(market: Seq<CardType>, goods: Seq<GoodType>, k: int) -> bool {
    count_goods_of_type(goods, goods[k]) == 1 && count_market_goods_of_type(market, goods[k]) == 0
}

/// Number of eligible singleton hand goods from position `k` on.
pub open spec fn count_eligible_singles_from(market: Seq<CardType>, goods: Seq<GoodType>, k: int) -> int
    decreases goods.len() - k,
{
    if k < 0 || k >= goods.len() {
        0
    } else {
        (if spec_eligible_single(market, goods, k) {
            1int
        } else {
            0int
        }) + count_eligible_singles_from(market, goods, k + 1)
    }
}

/// Number of market slots that hold a good.
pub open spec fn spec_market_good_count(market: Seq<CardType>) -> int {
    market.len() - count_market_camels(market)
}

/// Number of exchange pairs that can be formed: trade material (capped
/// camels plus eligible singles) against the market's goods.
pub open spec fn spec_exchange_pairs(market: Seq<CardType>, hand: Hand) -> int {
    let material = spec_exchange_cap(hand) + count_eligible_singles_from(market, hand.goods@, 0);
    if material < spec_market_good_count(market) {
        material
    } else {
        spec_market_good_count(market)
    }
}

/// Scores an exchange: pairs capped camels and eligible singleton hand
/// goods against market goods in descending order of projected count, and
/// scores by the best projection among the pairs; fewer than two possible
/// pairs scores nothing.
pub fn exchange_goods_scorer(market: &Vec<CardType>, hand: &Hand) -> (r: (
    u64,
    Option<SelectionSet>,
))
    requires
        hand.wf(),
        market@.len() <= MARKET_SIZE,
    ensures
        r.0 <= SCORE_ONE,
        r.1 is None ==> r.0 == 0,
        (r.1 is None) <==> spec_exchange_pairs(market@, *hand) < 2,
        match r.1 {
            None => true,
            Some(s) => {
                &&& s.market@.len() == spec_exchange_pairs(market@, *hand)
                &&& s.hand_camels + s.hand_goods@.len() == s.market@.len()
                &&& s.hand_camels == (if spec_exchange_cap(*hand) < s.market@.len() {
                    spec_exchange_cap(*hand)
                } else {
                    s.market@.len() as int
                })
                &&& (forall|a: int|
                    0 <= a < s.market@.len() ==> (#[trigger] s.market@[a]) < market@.len()
                        && market@[s.market@[a] as int].is_good())
                &&& (forall|a: int, b: int|
                    0 <= a < b < s.market@.len() ==> spec_slot_pref(
                        market@,
                        hand.goods@,
                        s.market@[a] as int,
                        s.market@[b] as int,
                    ))
                &&& (forall|a: int, j: int|
                    #![trigger s.market@[a], market@[j]]
                    0 <= a < s.market@.len() && 0 <= j < market@.len() && market@[j].is_good()
                        && !s.market@.contains(j as usize) ==> spec_slot_pref(
                        market@,
                        hand.goods@,
                        s.market@[a] as int,
                        j,
                    ))
                &&& (forall|a: int|
                    0 <= a < s.hand_goods@.len() ==> (#[trigger] s.hand_goods@[a])
                        < hand.goods@.len() && spec_eligible_single(
                        market@,
                        hand.goods@,
                        s.hand_goods@[a] as int,
                    ))
                &&& (forall|a: int, b: int|
                    0 <= a < b < s.hand_goods@.len() ==> s.hand_goods@[a] < s.hand_goods@[b])
                &&& (forall|a: int, k: int|
                    #![trigger s.hand_goods@[a], s.hand_goods@.contains(k as usize)]
                    0 <= a < s.hand_goods@.len() && 0 <= k < hand.goods@.len()
                        && spec_eligible_single(market@, hand.goods@, k) && k < s.hand_goods@[a]
                        ==> s.hand_goods@.contains(k as usize))
                &&& r.0 == spec_clamp(
                    (spec_proj(market@, hand.goods@, s.market@[0] as int) + 1) * 2000,
                    0,
                    SCORE_ONE as int,
                )
                &&& r.0 > 0
                &&& s.wf(market@, *hand)
                &&& valid_move(TurnState::Take, s, market@, *hand) == MoveValidity::Valid(
                    MoveType::ExchangeForGoodsFromMarket,
                )
            },
        },
{
    let goods_len = hand.goods.len();
    let cap: usize = if goods_len >= MAX_HAND_GOODS {
        0
    } else {
        let room = MAX_HAND_GOODS - goods_len;
        if room < hand.camels {
            room
        } else {
            hand.camels
        }
    };

    // Eligible singleton hand goods, in hand order.
    let mut singles: Vec<usize> = Vec::new();
    let mut k: usize = 0;
    while k < hand.goods.len()
        invariant
            k <= hand.goods@.len(),
            singles@.len() <= k,
            hand.wf(),
            count_eligible_singles_from(market@, hand.goods@, 0) == singles@.len()
                + count_eligible_singles_from(market@, hand.goods@, k as int),
            forall|a: int|
                0 <= a < singles@.len() ==> (#[trigger] singles@[a]) < k && spec_eligible_single(
                    market@,
                    hand.goods@,
                    singles@[a] as int,
                ),
            forall|a: int, b: int| 0 <= a < b < singles@.len() ==> singles@[a] < singles@[b],
            forall|j: int|
                0 <= j < k ==> (spec_eligible_single(market@, hand.goods@, j)
                    <==> singles@.contains(j as usize)),
        decreases hand.goods@.len() - k,
    {
        let g = hand.goods[k];
        proof {
            lemma_count_goods_of_type_bounds(hand.goods@, g, 0);
        }
        let held = count_goods_in(&hand.goods, g);
        let in_market = count_goods_of_type_in_market(market, g);
        let ghost before = singles@;
        if held == 1 && in_market == 0 {
            singles.push(k);
            proof {
                assert forall|j: int|
                    0 <= j < k + 1 implies (spec_eligible_single(market@, hand.goods@, j)
                    <==> singles@.contains(j as usize)) by {
                    if j == k {
                        assert(singles@[singles@.len() - 1] == k);
                    } else {
                        if before.contains(j as usize) {
                            let w = choose|w: int| 0 <= w < before.len() && before[w] == j as usize;
                            assert(singles@[w] == j as usize);
                        } else {
                            if singles@.contains(j as usize) {
                                let w = choose|w: int|
                                    0 <= w < singles@.len() && singles@[w] == j as usize;
                                assert(w < before.len());
                                assert(before[w] == j as usize);
                            }
                        }
                    }
                }
            }
        } else {
            proof {
                assert forall|j: int|
                    0 <= j < k + 1 implies (spec_eligible_single(market@, hand.goods@, j)
                    <==> singles@.contains(j as usize)) by {
                    if j == k && singles@.contains(j as usize) {
                        let w = choose|w: int| 0 <= w < singles@.len() && singles@[w] == j as usize;
                        assert(singles@[w] < k);
                    }
                }
            }
        }
        k = k + 1;
    }

    // The number of pairs that can be formed.
    let n_market_camels = count_camels_in_market(market);
    proof {
        lemma_market_camels_bounds(market@, 0);
    }
    let good_count = market.len() - n_market_camels;
    let material = cap + singles.len();
    let pairs = if material < good_count {
        material
    } else {
        good_count
    };
    if pairs < 2 {
        return (0, None);
    }

    // Pick the `pairs` most preferred good slots, in descending order.
    let mut used: Vec<bool> = vec![false; market.len()];
    let mut chosen: Vec<usize> = Vec::new();
    proof {
        lemma_count_unused_init(market@, used@, 0);
    }
    let mut n: usize = 0;
    while n < pairs
        invariant
            n <= pairs,
            pairs >= 2,
            pairs <= spec_market_good_count(market@),
            hand.wf(),
            market@.len() <= MARKET_SIZE,
            chosen@.len() == n,
            used@.len() == market@.len(),
            count_unused_goods_from(market@, used@, 0) == spec_market_good_count(market@) - n,
            forall|j: int|
                0 <= j < market@.len() ==> ((#[trigger] used@[j]) <==> chosen@.contains(j as usize)),
            forall|a: int|
                0 <= a < chosen@.len() ==> (#[trigger] chosen@[a]) < market@.len()
                    && market@[chosen@[a] as int].is_good(),
            forall|a: int, b: int|
                0 <= a < b < chosen@.len() ==> spec_slot_pref(
                    market@,
                    hand.goods@,
                    chosen@[a] as int,
                    chosen@[b] as int,
                ),
            forall|a: int, j: int|
                #![trigger chosen@[a], used@[j]]
                0 <= a < chosen@.len() && 0 <= j < market@.len() && market@[j].is_good()
                    && !used@[j] ==> spec_slot_pref(market@, hand.goods@, chosen@[a] as int, j),
        decreases pairs - n,
    {
        let mut found: Option<usize> = None;
        let mut i: usize = 0;
        while i < market.len()
            invariant
                i <= market@.len(),
                hand.wf(),
                market@.len() <= MARKET_SIZE,
                used@.len() == market@.len(),
                match found {
                    None => forall|j: int|
                        0 <= j < i ==> !((#[trigger] market@[j]).is_good() && !used@[j]),
                    Some(f) => {
                        &&& f < i
                        &&& market@[f as int].is_good()
                        &&& !used@[f as int]
                        &&& (forall|j: int|
                            0 <= j < i && (#[trigger] market@[j]).is_good() && !used@[j] && j
                                != f ==> spec_slot_pref(market@, hand.goods@, f as int, j))
                    },
                },
            decreases market@.len() - i,
        {
            if matches!(market[i], CardType::Good(_)) && !used[i] {
                match found {
                    None => {
                        found = Some(i);
                    },
                    Some(f) => {
                        if slot_preferred(market, hand, i, f) {
                            found = Some(i);
                        }
                    },
                }
            }
            i = i + 1;
        }
        let f = match found {
            Some(f) => f,
            None => {
                proof {
                    lemma_count_unused_none(market@, used@, 0);
                }
                unreached()
            },
        };
        let ghost used_before = used@;
        let ghost chosen_before = chosen@;
        used[f] = true;
        chosen.push(f);
        proof {
            lemma_count_unused_update(market@, used_before, f as int, 0);
            assert forall|j: int|
                0 <= j < market@.len() implies ((#[trigger] used@[j]) <==> chosen@.contains(
                j as usize,
            )) by {
                if j == f {
                    assert(chosen@[chosen@.len() - 1] == f);
                } else {
                    if chosen_before.contains(j as usize) {
                        let w = choose|w: int|
                            0 <= w < chosen_before.len() && chosen_before[w] == j as usize;
                        assert(chosen@[w] == j as usize);
                    } else {
                        if chosen@.contains(j as usize) {
                            let w = choose|w: int|
                                0 <= w < chosen@.len() && chosen@[w] == j as usize;
                            assert(w < chosen_before.len());
                            assert(chosen_before[w] == j as usize);
                        }
                    }
                }
            }
        }
        n = n + 1;
    }

    // Trade material: camels first, the first eligible singles after.
    let camels_used = if cap < pairs {
        cap
    } else {
        pairs
    };
    let singles_needed = pairs - camels_used;
    let mut hand_sel: Vec<usize> = Vec::new();
    let mut a: usize = 0;
    while a < singles_needed
        invariant
            a <= singles_needed,
            singles_needed <= singles@.len(),
            hand_sel@ == singles@.subrange(0, a as int),
        decreases singles_needed - a,
    {
        let ghost before = hand_sel@;
        hand_sel.push(singles[a]);
        proof {
            assert(hand_sel@ =~= singles@.subrange(0, a + 1));
        }
        a = a + 1;
    }

    // Score: the best projection among the chosen slots is the first.
    let m = slot_proj(market, hand, chosen[0]);
    let base = (m as u64 + 1) * 2000;
    let score = if base > SCORE_ONE {
        SCORE_ONE
    } else {
        base
    };
    let cached = SelectionSet { market: chosen, hand_goods: hand_sel, hand_camels: camels_used };
    proof {
        // distinctness of the chosen slots and the selected singles
        assert forall|x: int, y: int|
            0 <= x < cached.market@.len() && 0 <= y < cached.market@.len() && x != y implies cached.market@[x]
            != cached.market@[y] by {
            if x < y {
                assert(spec_slot_pref(
                    market@,
                    hand.goods@,
                    cached.market@[x] as int,
                    cached.market@[y] as int,
                ));
            } else {
                assert(spec_slot_pref(
                    market@,
                    hand.goods@,
                    cached.market@[y] as int,
                    cached.market@[x] as int,
                ));
            }
        }
        assert forall|x: int, y: int|
            0 <= x < cached.hand_goods@.len() && 0 <= y < cached.hand_goods@.len() && x != y implies cached.hand_goods@[x]
            != cached.hand_goods@[y] by {
            if x < y {
                assert(cached.hand_goods@[x] < cached.hand_goods@[y]);
            } else {
                assert(cached.hand_goods@[y] < cached.hand_goods@[x]);
            }
        }
        // an unselected good slot is never preferred over a selected one
        assert forall|x: int, j: int|
            #![trigger cached.market@[x], market@[j]]
            0 <= x < cached.market@.len() && 0 <= j < market@.len() && market@[j].is_good()
                && !cached.market@.contains(j as usize) implies spec_slot_pref(
            market@,
            hand.goods@,
            cached.market@[x] as int,
            j,
        ) by {
            assert(!used@[j]);
        }
        // the selected singles are the first eligible ones in hand order
        assert forall|x: int, w: int|
            #![trigger cached.hand_goods@[x], cached.hand_goods@.contains(w as usize)]
            0 <= x < cached.hand_goods@.len() && 0 <= w < hand.goods@.len()
                && spec_eligible_single(market@, hand.goods@, w) && w
                < cached.hand_goods@[x] implies cached.hand_goods@.contains(w as usize) by {
            assert(singles@.contains(w as usize));
            let p = choose|p: int| 0 <= p < singles@.len() && singles@[p] == w as usize;
            assert(cached.hand_goods@[x] == singles@[x as int]);
            if p >= x {
                assert(singles@[x as int] <= singles@[p]);
            }
            assert(p < x);
            assert(cached.hand_goods@[p] == w as usize);
        }
        // the selection satisfies the exchange rule and no earlier rule
        lemma_all_goods_counts(market@, cached.market@, 0);
        assert(!sel_types_intersect(cached, market@, *hand)) by {
            if sel_types_intersect(cached, market@, *hand) {
                let (i, j) = choose|i: int, j: int|
                    #![trigger cached.market@[i], cached.hand_goods@[j]]
                    0 <= i < cached.market@.len() && 0 <= j < cached.hand_goods@.len()
                        && market@[cached.market@[i] as int].is_good()
                        && market@[cached.market@[i] as int].spec_into_good_type()
                        == hand.goods@[cached.hand_goods@[j] as int];
                let t = hand.goods@[cached.hand_goods@[j] as int];
                assert(spec_eligible_single(market@, hand.goods@, cached.hand_goods@[j] as int));
                lemma_market_type_count_positive(market@, t, 0, cached.market@[i] as int);
            }
        }
        assert(!take_all_camels_ok(cached, market@)) by {
            if take_all_camels_ok(cached, market@) {
                assert(market@[cached.market@[0] as int].is_camel());
            }
        }
    }
    (score, Some(cached))
}

} // verus!
