//! Move rule engine: classifies a selection of cards into a legal move or
//! rejects it.
//!
//! Classification is a pure function of the selection, the active turn
//! phase, the market composition and the hand composition; it mutates
//! nothing and is recomputed whenever any of those change.

use vstd::prelude::*;

use crate::card::{CardType, GoodType};
use crate::resources::{Hand, MAX_HAND_GOODS};
use crate::selection::SelectionSet;

verus! {

/// The active decision phase of a turn.
#[derive(Clone, Copy, Debug, PartialEq, Eq, Hash, Structural)]
pub enum TurnState {
    /// No phase selected; every selection is invalid.
    Idle,
    Take,
    Sell,
}

/// The four legal move shapes.
#[derive(Clone, Copy, Debug, PartialEq, Eq, Structural)]
pub enum MoveType {
    TakeSingleGood,
    TakeAllCamels,
    ExchangeForGoodsFromMarket,
    SellGoods,
}

/// Result of classifying a selection.
#[derive(Clone, Copy, Debug, PartialEq, Eq, Structural)]
pub enum MoveValidity {
    Invalid,
    Valid(MoveType),
}

/// Number of selected market slots from position `i` of the selection on
/// that hold a good.
pub open spec fn count_sel_goods_from(market: Seq<CardType>, msel: Seq<usize>, i: int) -> int
    decreases msel.len() - i,
{
    if i < 0 || i >= msel.len() {
        0
    } else {
        (if market[msel[i] as int].is_good() {
            1int
        } else {
            0int
        }) + count_sel_goods_from(market, msel, i + 1)
    }
}

/// Number of selected market slots that hold a good.
pub open spec fn count_sel_goods(market: Seq<CardType>, msel: Seq<usize>) -> int {
    count_sel_goods_from(market, msel, 0)
}

/// Number of selected market slots from position `i` of the selection on
/// that hold a camel.
pub open spec fn count_sel_camels_from(market: Seq<CardType>, msel: Seq<usize>, i: int) -> int
    decreases msel.len() - i,
{
    if i < 0 || i >= msel.len() {
        0
    } else {
        (if market[msel[i] as int].is_camel() {
            1int
        } else {
            0int
        }) + count_sel_camels_from(market, msel, i + 1)
    }
}

/// Number of selected market slots that hold a camel.
pub open spec fn count_sel_camels(market: Seq<CardType>, msel: Seq<usize>) -> int {
    count_sel_camels_from(market, msel, 0)
}

/// Number of camels among all market slots from slot `i` on.
pub open spec fn count_market_camels_from(market: Seq<CardType>, i: int) -> int
    decreases market.len() - i,
{
    if i < 0 || i >= market.len() {
        0
    } else {
        (if market[i].is_camel() {
            1int
        } else {
            0int
        }) + count_market_camels_from(market, i + 1)
    }
}

/// Total number of camels currently in the market.
pub open spec fn count_market_camels(market: Seq<CardType>) -> int {
    count_market_camels_from(market, 0)
}

/// Whether some selected market good has the same type as some selected
/// hand good (such a selection would be a trivial self-swap).
pub open spec fn sel_types_intersect(sel: SelectionSet, market: Seq<CardType>, hand: Hand) -> bool {
    exists|i: int, j: int|
        #![trigger sel.market@[i], sel.hand_goods@[j]]
        0 <= i < sel.market@.len() && 0 <= j < sel.hand_goods@.len()
            && market[sel.market@[i] as int].is_good()
            && market[sel.market@[i] as int].spec_into_good_type() == hand.goods@[sel.hand_goods@[j] as int]
}

/// Take-phase rule 1: exactly one card is selected overall, it is a market
/// good, no hand cards are selected, and the hand has room for a good.
pub open spec fn take_single_good_ok(sel: SelectionSet, market: Seq<CardType>, hand: Hand) -> bool {
    &&& count_sel_goods(market, sel.market@) == 1
    &&& sel.market@.len() == 1
    &&& sel.hand_camels == 0
    &&& sel.hand_goods@.len() == 0
    &&& hand.goods@.len() < MAX_HAND_GOODS
}

/// Take-phase rule 2: at least one market card is selected, every selected
/// market card is a camel, the selection covers the whole market camel
/// count, and no hand goods are selected.
pub open spec fn take_all_camels_ok(sel: SelectionSet, market: Seq<CardType>) -> bool {
    &&& sel.market@.len() > 0
    &&& forall|i: int|
        0 <= i < sel.market@.len() ==> market[(#[trigger] sel.market@[i]) as int].is_camel()
    &&& sel.market@.len() == count_market_camels(market)
    &&& sel.hand_goods@.len() == 0
}

/// Take-phase rule 3: no market camels selected, at least two market goods
/// selected, selected market good types do not intersect selected hand good
/// types, market goods pair one-to-one with selected hand camels plus
/// selected hand goods, and the resulting hand stays within the limit.
pub open spec fn exchange_ok(sel: SelectionSet, market: Seq<CardType>, hand: Hand) -> bool {
    &&& !sel_types_intersect(sel, market, hand)
    &&& count_sel_camels(market, sel.market@) == 0
    &&& count_sel_goods(market, sel.market@) > 1
    &&& count_sel_goods(market, sel.market@) == sel.hand_camels + sel.hand_goods@.len()
    &&& count_sel_goods(market, sel.market@) + hand.goods@.len() - sel.hand_goods@.len()
        <= MAX_HAND_GOODS
}

/// Sell-phase rule: only hand goods are selected, at least one, all of one
/// type, and a lone high-value good cannot be sold alone.
pub open spec fn sell_goods_ok(sel: SelectionSet, hand: Hand) -> bool {
    &&& sel.hand_goods@.len() > 0
    &&& sel.hand_camels == 0
    &&& sel.market@.len() == 0
    &&& forall|i: int|
        0 <= i < sel.hand_goods@.len() ==> hand.goods@[(#[trigger] sel.hand_goods@[i]) as int]
            == hand.goods@[sel.hand_goods@[0] as int]
    &&& (hand.goods@[sel.hand_goods@[0] as int].spec_is_high_value() ==> sel.hand_goods@.len()
        >= 2)
}

/// The full classification, with take-phase rules evaluated in priority
/// order (first match wins).
pub open spec fn valid_move(
    phase: TurnState,
    sel: SelectionSet,
    market: Seq<CardType>,
    hand: Hand,
) -> MoveValidity {
    match phase {
        TurnState::Idle => MoveValidity::Invalid,
        TurnState::Take => if take_single_good_ok(sel, market, hand) {
            MoveValidity::Valid(MoveType::TakeSingleGood)
        } else if take_all_camels_ok(sel, market) {
            MoveValidity::Valid(MoveType::TakeAllCamels)
        } else if exchange_ok(sel, market, hand) {
            MoveValidity::Valid(MoveType::ExchangeForGoodsFromMarket)
        } else {
            MoveValidity::Invalid
        },
        TurnState::Sell => if sell_goods_ok(sel, hand) {
            MoveValidity::Valid(MoveType::SellGoods)
        } else {
            MoveValidity::Invalid
        },
    }
}

/// Counts the selected market slots that hold a good.
pub fn count_selected_market_goods(market: &Vec<CardType>, msel: &Vec<usize>) -> (r: usize)
    requires
        forall|i: int| 0 <= i < msel@.len() ==> (#[trigger] msel@[i]) < market@.len(),
    ensures
        r == count_sel_goods(market@, msel@),
{
    let mut count: usize = 0;
    let mut i: usize = 0;
    while i < msel.len()
        invariant
            i <= msel@.len(),
            count <= i,
            forall|k: int| 0 <= k < msel@.len() ==> (#[trigger] msel@[k]) < market@.len(),
            count_sel_goods(market@, msel@) == count + count_sel_goods_from(
                market@,
                msel@,
                i as int,
            ),
        decreases msel@.len() - i,
    {
        if matches!(market[msel[i]], CardType::Good(_)) {
            count = count + 1;
        }
        i = i + 1;
    }
    count
}

/// Counts the selected market slots that hold a camel.
pub fn count_selected_market_camels(market: &Vec<CardType>, msel: &Vec<usize>) -> (r: usize)
    requires
        forall|i: int| 0 <= i < msel@.len() ==> (#[trigger] msel@[i]) < market@.len(),
    ensures
        r == count_sel_camels(market@, msel@),
{
    let mut count: usize = 0;
    let mut i: usize = 0;
    while i < msel.len()
        invariant
            i <= msel@.len(),
            count <= i,
            forall|k: int| 0 <= k < msel@.len() ==> (#[trigger] msel@[k]) < market@.len(),
            count_sel_camels(market@, msel@) == count + count_sel_camels_from(
                market@,
                msel@,
                i as int,
            ),
        decreases msel@.len() - i,
    {
        if matches!(market[msel[i]], CardType::Camel) {
            count = count + 1;
        }
        i = i + 1;
    }
    count
}

/// Counts the camels over the whole market.
pub fn count_camels_in_market(market: &Vec<CardType>) -> (r: usize)
    ensures
        r == count_market_camels(market@),
{
    let mut count: usize = 0;
    let mut i: usize = 0;
    while i < market.len()
        invariant
            i <= market@.len(),
            count <= i,
            count_market_camels(market@) == count + count_market_camels_from(market@, i as int),
        decreases market@.len() - i,
    {
        if matches!(market[i], CardType::Camel) {
            count = count + 1;
        }
        i = i + 1;
    }
    count
}

/// Whether every selected market slot holds a camel.
fn all_selected_are_camels(market: &Vec<CardType>, msel: &Vec<usize>) -> (r: bool)
    requires
        forall|i: int| 0 <= i < msel@.len() ==> (#[trigger] msel@[i]) < market@.len(),
    ensures
        r == forall|i: int|
            0 <= i < msel@.len() ==> market@[(#[trigger] msel@[i]) as int].is_camel(),
{
    let mut i: usize = 0;
    while i < msel.len()
        invariant
            i <= msel@.len(),
            forall|k: int| 0 <= k < msel@.len() ==> (#[trigger] msel@[k]) < market@.len(),
            forall|k: int| 0 <= k < i ==> market@[(#[trigger] msel@[k]) as int].is_camel(),
        decreases msel@.len() - i,
    {
        if matches!(market[msel[i]], CardType::Good(_)) {
            return false;
        }
        i = i + 1;
    }
    true
}

/// Whether some selected hand good has the given type.
fn selected_hand_contains_type(hand_goods: &Vec<GoodType>, hsel: &Vec<usize>, g: GoodType) -> (r:
    bool)
    requires
        forall|j: int| 0 <= j < hsel@.len() ==> (#[trigger] hsel@[j]) < hand_goods@.len(),
    ensures
        r == exists|j: int|
            0 <= j < hsel@.len() && hand_goods@[(#[trigger] hsel@[j]) as int] == g,
{
    let mut j: usize = 0;
    while j < hsel.len()
        invariant
            j <= hsel@.len(),
            forall|k: int| 0 <= k < hsel@.len() ==> (#[trigger] hsel@[k]) < hand_goods@.len(),
            forall|k: int| 0 <= k < j ==> hand_goods@[(#[trigger] hsel@[k]) as int] != g,
        decreases hsel@.len() - j,
    {
        if hand_goods[hsel[j]] == g {
            return true;
        }
        j = j + 1;
    }
    false
}

/// Whether the selected market good types intersect the selected hand good
/// types.
fn selections_share_a_type(sel: &SelectionSet, market: &Vec<CardType>, hand: &Hand) -> (r: bool)
    requires
        sel.wf(market@, *hand),
    ensures
        r == sel_types_intersect(*sel, market@, *hand),
{
    let mut i: usize = 0;
    while i < sel.market.len()
        invariant
            i <= sel.market@.len(),
            sel.wf(market@, *hand),
            forall|k: int, j: int|
                #![trigger sel.market@[k], sel.hand_goods@[j]]
                0 <= k < i && 0 <= j < sel.hand_goods@.len() ==> !(market@[sel.market@[k] as int].is_good()
                    && market@[sel.market@[k] as int].spec_into_good_type()
                    == hand.goods@[sel.hand_goods@[j] as int]),
        decreases sel.market@.len() - i,
    {
        match market[sel.market[i]] {
            CardType::Good(g) => {
                if selected_hand_contains_type(&hand.goods, &sel.hand_goods, g) {
                    return true;
                }
            },
            CardType::Camel => {},
        }
        i = i + 1;
    }
    false
}

/// Whether all selected hand goods share one type (vacuously false checks
/// are avoided by the caller requiring a non-empty selection).
fn all_selected_same_type(hand_goods: &Vec<GoodType>, hsel: &Vec<usize>) -> (r: bool)
    requires
        hsel@.len() > 0,
        forall|j: int| 0 <= j < hsel@.len() ==> (#[trigger] hsel@[j]) < hand_goods@.len(),
    ensures
        r == forall|i: int|
            0 <= i < hsel@.len() ==> hand_goods@[(#[trigger] hsel@[i]) as int]
                == hand_goods@[hsel@[0] as int],
{
    let first = hand_goods[hsel[0]];
    let mut i: usize = 0;
    while i < hsel.len()
        invariant
            i <= hsel@.len(),
            hsel@.len() > 0,
            forall|k: int| 0 <= k < hsel@.len() ==> (#[trigger] hsel@[k]) < hand_goods@.len(),
            first == hand_goods@[hsel@[0] as int],
            forall|k: int|
                0 <= k < i ==> hand_goods@[(#[trigger] hsel@[k]) as int] == hand_goods@[hsel@[0] as int],
        decreases hsel@.len() - i,
    {
        if hand_goods[hsel[i]] != first {
            return false;
        }
        i = i + 1;
    }
    true
}

/// Classifies the current selection for the given phase against the market
/// and the acting hand.
///
/// Pure: reads its inputs and returns a value; the executor trusts exactly
/// this classification.
pub fn validate(phase: TurnState, sel: &SelectionSet, market: &Vec<CardType>, hand: &Hand) -> (r:
    MoveValidity)
    requires
        sel.wf(market@, *hand),
    ensures
        r == valid_move(phase, *sel, market@, *hand),
{
    match phase {
        TurnState::Idle => MoveValidity::Invalid,
        TurnState::Take => {
            let n_sel_market_goods = count_selected_market_goods(market, &sel.market);
            let n_sel_market_total = sel.market.len();
            let n_sel_hand_goods = sel.hand_goods.len();
            let n_hand_goods = hand.goods.len();

            // Rule 1: take a single good from the market.
            if n_sel_market_goods == 1 && n_sel_market_total == 1 && sel.hand_camels == 0
                && n_sel_hand_goods == 0 && n_hand_goods < MAX_HAND_GOODS {
                return MoveValidity::Valid(MoveType::TakeSingleGood);
            }
            // Rule 2: take all camels from the market.
            let n_market_camels = count_camels_in_market(market);
            if n_sel_market_total > 0 && all_selected_are_camels(market, &sel.market)
                && n_sel_market_total == n_market_camels && n_sel_hand_goods == 0 {
                return MoveValidity::Valid(MoveType::TakeAllCamels);
            }
            // Rule 3: exchange at least two market goods against hand
            // camels and hand goods.
            let n_sel_market_camels = count_selected_market_camels(market, &sel.market);
            let intersects = selections_share_a_type(sel, market, hand);
            if !intersects && n_sel_market_camels == 0 && n_sel_market_goods > 1
                && (n_sel_market_goods as u128) == (sel.hand_camels as u128)
                + (n_sel_hand_goods as u128) && (n_sel_market_goods as u128)
                + (n_hand_goods as u128) <= (MAX_HAND_GOODS as u128) + (n_sel_hand_goods as u128) {
                return MoveValidity::Valid(MoveType::ExchangeForGoodsFromMarket);
            }
            MoveValidity::Invalid
        },
        TurnState::Sell => {
            let n_sel_hand_goods = sel.hand_goods.len();
            if n_sel_hand_goods > 0 && sel.hand_camels == 0 && sel.market.len() == 0 {
                if all_selected_same_type(&hand.goods, &sel.hand_goods) {
                    let first = hand.goods[sel.hand_goods[0]];
                    if !first.is_high_value() || n_sel_hand_goods > 1 {
                        return MoveValidity::Valid(MoveType::SellGoods);
                    }
                }
            }
            MoveValidity::Invalid
        },
    }
}

pub proof fn lemma_all_camels_counts(market: Seq<CardType>, msel: Seq<usize>, i: int)
    requires
        forall|k: int| 0 <= k < msel.len() ==> market[(#[trigger] msel[k]) as int].is_camel(),
        0 <= i <= msel.len(),
    ensures
        count_sel_goods_from(market, msel, i) == 0,
        count_sel_camels_from(market, msel, i) == msel.len() - i,
    decreases msel.len() - i,
{
    if i < msel.len() {
        assert(market[msel[i] as int].is_camel());
        lemma_all_camels_counts(market, msel, i + 1);
    }
}

proof fn lemma_sel_goods_positive_exists(market: Seq<CardType>, msel: Seq<usize>, i: int)
    requires
        0 <= i,
        count_sel_goods_from(market, msel, i) > 0,
    ensures
        exists|k: int| i <= k < msel.len() && market[(#[trigger] msel[k]) as int].is_good(),
    decreases msel.len() - i,
{
    if i < msel.len() {
        if market[msel[i] as int].is_good() {
            assert(i <= i < msel.len() && market[msel[i] as int].is_good());
        } else {
            lemma_sel_goods_positive_exists(market, msel, i + 1);
        }
    }
}

/// Every selected market slot holds either a good or a camel, so the two
/// counts split the selection.
pub proof fn lemma_sel_counts_split(market: Seq<CardType>, msel: Seq<usize>, i: int)
    requires
        0 <= i <= msel.len(),
    ensures
        count_sel_goods_from(market, msel, i) + count_sel_camels_from(market, msel, i)
            == msel.len() - i,
        count_sel_goods_from(market, msel, i) >= 0,
        count_sel_camels_from(market, msel, i) >= 0,
    decreases msel.len() - i,
{
    if i < msel.len() {
        lemma_sel_counts_split(market, msel, i + 1);
    }
}

/// With every selected market slot holding a good, the good count covers
/// the selection and no camels are counted.
pub proof fn lemma_all_goods_counts(market: Seq<CardType>, msel: Seq<usize>, i: int)
    requires
        forall|k: int| 0 <= k < msel.len() ==> market[(#[trigger] msel[k]) as int].is_good(),
        0 <= i <= msel.len(),
    ensures
        count_sel_goods_from(market, msel, i) == msel.len() - i,
        count_sel_camels_from(market, msel, i) == 0,
    decreases msel.len() - i,
{
    if i < msel.len() {
        assert(market[msel[i] as int].is_good());
        lemma_all_goods_counts(market, msel, i + 1);
    }
}

/// With no camels among the selected market slots, every selected slot
/// holds a good.
pub proof fn lemma_no_sel_camels_all_goods(market: Seq<CardType>, msel: Seq<usize>, i: int)
    requires
        0 <= i,
        count_sel_camels_from(market, msel, i) == 0,
    ensures
        forall|k: int|
            i <= k < msel.len() ==> market[(#[trigger] msel[k]) as int].is_good(),
    decreases msel.len() - i,
{
    if i < msel.len() {
        lemma_sel_counts_split(market, msel, i + 1);
        lemma_no_sel_camels_all_goods(market, msel, i + 1);
    }
}

/// Law: a selection of exactly one market good, with no hand cards
/// selected and a hand that still has room, is always classified as a
/// single-good take.
pub proof fn lemma_take_single_good_always_valid(
    sel: SelectionSet,
    market: Seq<CardType>,
    hand: Hand,
)
    requires
        sel.wf(market, hand),
        sel.market@.len() == 1,
        market[sel.market@[0] as int].is_good(),
        sel.hand_goods@.len() == 0,
        sel.hand_camels == 0,
        hand.goods@.len() < MAX_HAND_GOODS,
    ensures
        valid_move(TurnState::Take, sel, market, hand) == MoveValidity::Valid(
            MoveType::TakeSingleGood,
        ),
{
    assert(count_sel_goods_from(market, sel.market@, 1) == 0);
    assert(count_sel_goods(market, sel.market@) == 1);
}

/// Law: a lone high-value good selected from hand during the sell phase is
/// always rejected.
pub proof fn lemma_single_high_value_sale_invalid(
    sel: SelectionSet,
    market: Seq<CardType>,
    hand: Hand,
)
    requires
        sel.wf(market, hand),
        sel.hand_goods@.len() == 1,
        hand.goods@[sel.hand_goods@[0] as int].spec_is_high_value(),
        sel.hand_camels == 0,
        sel.market@.len() == 0,
    ensures
        valid_move(TurnState::Sell, sel, market, hand) == MoveValidity::Invalid,
{
}

/// Law: two selected hand goods of one high-value type are always a legal
/// sale.
pub proof fn lemma_pair_high_value_sale_valid(sel: SelectionSet, market: Seq<CardType>, hand: Hand)
    requires
        sel.wf(market, hand),
        sel.hand_goods@.len() == 2,
        hand.goods@[sel.hand_goods@[0] as int] == hand.goods@[sel.hand_goods@[1] as int],
        hand.goods@[sel.hand_goods@[0] as int].spec_is_high_value(),
        sel.hand_camels == 0,
        sel.market@.len() == 0,
    ensures
        valid_move(TurnState::Sell, sel, market, hand) == MoveValidity::Valid(MoveType::SellGoods),
{
    assert forall|i: int| 0 <= i < sel.hand_goods@.len() implies hand.goods@[(#[trigger] sel.hand_goods@[i]) as int]
        == hand.goods@[sel.hand_goods@[0] as int] by {
        if i == 1 {
            assert(hand.goods@[sel.hand_goods@[1] as int] == hand.goods@[sel.hand_goods@[0] as int]);
        }
    }
}

/// Law: selecting a strict subset of the market's camels (every selected
/// market card a camel, but fewer than the market holds) is always
/// rejected in the take phase.
pub proof fn lemma_partial_camel_take_invalid(sel: SelectionSet, market: Seq<CardType>, hand: Hand)
    requires
        sel.wf(market, hand),
        sel.market@.len() > 0,
        forall|i: int|
            0 <= i < sel.market@.len() ==> market[(#[trigger] sel.market@[i]) as int].is_camel(),
        sel.market@.len() < count_market_camels(market),
    ensures
        valid_move(TurnState::Take, sel, market, hand) == MoveValidity::Invalid,
{
    lemma_all_camels_counts(market, sel.market@, 0);
}

/// Law: an exchange-shaped selection (at least two market goods, no market
/// camels) whose market-good count differs from the selected hand camels
/// plus hand goods is always rejected in the take phase.
pub proof fn lemma_exchange_count_mismatch_invalid(
    sel: SelectionSet,
    market: Seq<CardType>,
    hand: Hand,
)
    requires
        sel.wf(market, hand),
        count_sel_goods(market, sel.market@) > 1,
        count_sel_camels(market, sel.market@) == 0,
        count_sel_goods(market, sel.market@) != sel.hand_camels + sel.hand_goods@.len(),
    ensures
        valid_move(TurnState::Take, sel, market, hand) == MoveValidity::Invalid,
{
    lemma_sel_goods_positive_exists(market, sel.market@, 0);
    assert(!take_all_camels_ok(sel, market)) by {
        if take_all_camels_ok(sel, market) {
            let k = choose|k: int|
                0 <= k < sel.market@.len() && market[(#[trigger] sel.market@[k]) as int].is_good();
            assert(market[sel.market@[k] as int].is_camel());
        }
    }
}

/// Law: the empty selection is rejected in every phase, so re-running the
/// rule engine after a move has cleared the selection always yields an
/// invalid classification.
pub proof fn lemma_empty_selection_invalid(
    phase: TurnState,
    sel: SelectionSet,
    market: Seq<CardType>,
    hand: Hand,
)
    requires
        sel.spec_is_empty(),
    ensures
        valid_move(phase, sel, market, hand) == MoveValidity::Invalid,
{
    assert(count_sel_goods(market, sel.market@) == 0);
}

} // verus!
