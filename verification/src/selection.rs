//! The set of cards currently marked as the candidate move's operands,
//! partitioned by origin (market vs. hand) and kind (good vs. camel).

use vstd::prelude::*;

use crate::card::{ActivePlayerCamelCard, ActivePlayerGoodsCard, CardType, MarketCard};
use crate::resources::Hand;

verus! {

/// Cards selected by the active decision-maker, before confirmation.
///
/// Market cards and hand goods are identified by their slot or hand index;
/// camels are fungible, so only their selected count matters.
#[derive(Clone, Debug)]
pub struct SelectionSet {
    /// Indices of selected market slots.
    pub market: Vec<usize>,
    /// Indices of selected cards in the active player's goods hand.
    pub hand_goods: Vec<usize>,
    /// Number of selected camels from the active player's hand.
    pub hand_camels: usize,
}

impl SelectionSet {
    /// A selection is well formed with respect to the table it refers to:
    /// indices are in bounds and distinct, and no more camels are selected
    /// than the hand holds.
    pub open spec fn wf(self, market: Seq<CardType>, hand: Hand) -> bool {
        &&& forall|i: int| 0 <= i < self.market@.len() ==> (#[trigger] self.market@[i]) < market.len()
        &&& self.market@.no_duplicates()
        &&& forall|i: int|
            0 <= i < self.hand_goods@.len() ==> (#[trigger] self.hand_goods@[i])
                < hand.goods@.len()
        &&& self.hand_goods@.no_duplicates()
        &&& self.hand_camels <= hand.camels
    }

    pub open spec fn spec_is_empty(self) -> bool {
        self.market@.len() == 0 && self.hand_goods@.len() == 0 && self.hand_camels == 0
    }

    /// The empty selection: nothing is marked.
    pub fn new() -> (r: SelectionSet)
        ensures
            r.market@ == Seq::<usize>::empty(),
            r.hand_goods@ == Seq::<usize>::empty(),
            r.hand_camels == 0,
            r.spec_is_empty(),
    {
        SelectionSet { market: Vec::new(), hand_goods: Vec::new(), hand_camels: 0 }
    }

    pub fn is_empty(&self) -> (r: bool)
        ensures
            r == self.spec_is_empty(),
    {
        self.market.len() == 0 && self.hand_goods.len() == 0 && self.hand_camels == 0
    }

    /// Marks the market card in the given slot as selected.
    pub fn select_market_card(&mut self, c: MarketCard)
        ensures
            final(self).market@ == old(self).market@.push(c.0),
            final(self).hand_goods == old(self).hand_goods,
            final(self).hand_camels == old(self).hand_camels,
    {
        self.market.push(c.0);
    }

    /// Marks the hand goods card at the given index as selected.
    pub fn select_hand_good(&mut self, c: ActivePlayerGoodsCard)
        ensures
            final(self).hand_goods@ == old(self).hand_goods@.push(c.0),
            final(self).market == old(self).market,
            final(self).hand_camels == old(self).hand_camels,
    {
        self.hand_goods.push(c.0);
    }

    /// Marks one more camel from the hand as selected.
    pub fn select_hand_camel(&mut self, _c: ActivePlayerCamelCard)
        requires
            old(self).hand_camels < usize::MAX,
        ensures
            final(self).hand_camels == old(self).hand_camels + 1,
            final(self).market == old(self).market,
            final(self).hand_goods == old(self).hand_goods,
    {
        self.hand_camels = self.hand_camels + 1;
    }

    /// Clears the selection; changing or clearing a selection before
    /// confirmation has no effect on any shared state.
    pub fn clear(&mut self)
        ensures
            final(self).spec_is_empty(),
    {
        self.market.clear();
        self.hand_goods.clear();
        self.hand_camels = 0;
    }
}

} // verus!
