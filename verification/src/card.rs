//! Card identity: the six good types, the camel/good distinction, and the
//! lightweight index types that name a card by its position on the table.

use vstd::prelude::*;

verus! {

/// One of the six tradeable commodity categories.
#[derive(Clone, Copy, Debug, PartialEq, Eq, Structural)]
pub enum GoodType {
    Diamond,
    Gold,
    Silver,
    Cloth,
    Spice,
    Leather,
}

impl GoodType {
    /// Three of the six good types are high-value and carry a
    /// no-solo-sell restriction.
    pub open spec fn spec_is_high_value(&self) -> bool {
        match self {
            GoodType::Diamond | GoodType::Gold | GoodType::Silver => true,
            _ => false,
        }
    }

    #[verifier::when_used_as_spec(spec_is_high_value)]
    pub fn is_high_value(&self) -> (r: bool)
        ensures
            r == self.spec_is_high_value(),
    {
        matches!(self, GoodType::Diamond | GoodType::Gold | GoodType::Silver)
    }

    pub open spec fn spec_texture(self) -> Seq<char> {
        match self {
            GoodType::Diamond => "textures/card/diamond.png"@,
            GoodType::Gold => "textures/card/gold.png"@,
            GoodType::Silver => "textures/card/silver.png"@,
            GoodType::Cloth => "textures/card/cloth.png"@,
            GoodType::Spice => "textures/card/spice.png"@,
            GoodType::Leather => "textures/card/leather.png"@,
        }
    }

    /// Path of the sprite that shows this good's card face.
    pub fn get_card_texture(&self) -> (r: String)
        ensures
            r@ == self.spec_texture(),
    {
        match self {
            GoodType::Diamond => "textures/card/diamond.png".to_owned(),
            GoodType::Gold => "textures/card/gold.png".to_owned(),
            GoodType::Silver => "textures/card/silver.png".to_owned(),
            GoodType::Cloth => "textures/card/cloth.png".to_owned(),
            GoodType::Spice => "textures/card/spice.png".to_owned(),
            GoodType::Leather => "textures/card/leather.png".to_owned(),
        }
    }
}

/// A card is either a camel or a good of some type.
#[derive(Clone, Copy, Debug, PartialEq, Eq, Structural)]
pub enum CardType {
    Camel,
    Good(GoodType),
}

impl CardType {
    pub open spec fn is_camel(self) -> bool {
        match self {
            CardType::Camel => true,
            _ => false,
        }
    }

    pub open spec fn is_good(self) -> bool {
        match self {
            CardType::Good(_) => true,
            _ => false,
        }
    }

    /// The good type carried by a good card; meaningless for a camel.
    pub open spec fn spec_into_good_type(&self) -> GoodType {
        match self {
            CardType::Good(g) => *g,
            CardType::Camel => arbitrary(),
        }
    }

    #[verifier::when_used_as_spec(spec_into_good_type)]
    pub fn into_good_type(&self) -> (r: GoodType)
        requires
            self.is_good(),
        ensures
            r == self.spec_into_good_type(),
    {
        match self {
            CardType::Good(g) => *g,
            CardType::Camel => unreached(),
        }
    }

    pub open spec fn spec_texture(self) -> Seq<char> {
        match self {
            CardType::Camel => "textures/card/camel.png"@,
            CardType::Good(g) => g.spec_texture(),
        }
    }

    /// Path of the sprite that shows this card's face.
    pub fn get_card_texture(&self) -> (r: String)
        ensures
            r@ == self.spec_texture(),
    {
        match self {
            CardType::Camel => "textures/card/camel.png".to_owned(),
            CardType::Good(g) => g.get_card_texture(),
        }
    }
}

/// A card as it lies somewhere on the table.
#[derive(Clone, Copy, Debug)]
pub struct Card(pub CardType);

/// Identity of a card by its market slot index.
#[derive(Clone, Copy, Debug, PartialEq, Eq, Structural)]
pub struct MarketCard(pub usize);

/// Identity of a card by its index in the active player's goods hand.
#[derive(Clone, Copy, Debug, PartialEq, Eq, Structural)]
pub struct ActivePlayerGoodsCard(pub usize);

/// Identity of a camel card by its index in the active player's camel hand.
#[derive(Clone, Copy, Debug, PartialEq, Eq, Structural)]
pub struct ActivePlayerCamelCard(pub usize);

} // verus!
