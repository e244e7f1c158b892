use jaipur_core::card::{CardType, GoodType};
use jaipur_core::resources::Hand;
use jaipur_core::rules::{validate, MoveType, MoveValidity, TurnState};
use jaipur_core::card::{ActivePlayerCamelCard, ActivePlayerGoodsCard, MarketCard};
use jaipur_core::selection::SelectionSet;

fn empty_selection() -> SelectionSet {
    SelectionSet::new()
}

fn market_goods_and_camels() -> Vec<CardType> {
    vec![
        CardType::Good(GoodType::Diamond),
        CardType::Camel,
        CardType::Good(GoodType::Leather),
        CardType::Camel,
        CardType::Good(GoodType::Spice),
    ]
}

#[test]
fn take_single_good_is_valid_with_room_in_hand() {
    let market = market_goods_and_camels();
    let hand = Hand::new(vec![GoodType::Cloth], 2);
    let sel = SelectionSet { market: vec![0], hand_goods: vec![], hand_camels: 0 };
    assert_eq!(
        validate(TurnState::Take, &sel, &market, &hand),
        MoveValidity::Valid(MoveType::TakeSingleGood)
    );
}

#[test]
fn take_single_good_is_invalid_with_full_hand() {
    let market = market_goods_and_camels();
    let hand = Hand::new(vec![GoodType::Cloth; 7], 0);
    let sel = SelectionSet { market: vec![0], hand_goods: vec![], hand_camels: 0 };
    assert_eq!(validate(TurnState::Take, &sel, &market, &hand), MoveValidity::Invalid);
}

#[test]
fn selecting_a_market_camel_alone_is_invalid() {
    let market = market_goods_and_camels();
    let hand = Hand::new(vec![], 0);
    // one camel selected, but the market holds two camels
    let sel = SelectionSet { market: vec![1], hand_goods: vec![], hand_camels: 0 };
    assert_eq!(validate(TurnState::Take, &sel, &market, &hand), MoveValidity::Invalid);
}

#[test]
fn taking_every_market_camel_is_valid() {
    let market = market_goods_and_camels();
    let hand = Hand::new(vec![], 0);
    let sel = SelectionSet { market: vec![1, 3], hand_goods: vec![], hand_camels: 0 };
    assert_eq!(
        validate(TurnState::Take, &sel, &market, &hand),
        MoveValidity::Valid(MoveType::TakeAllCamels)
    );
}

#[test]
fn taking_a_strict_subset_of_camels_is_invalid() {
    let market = vec![
        CardType::Camel,
        CardType::Camel,
        CardType::Camel,
        CardType::Good(GoodType::Gold),
        CardType::Good(GoodType::Spice),
    ];
    let hand = Hand::new(vec![], 0);
    let sel = SelectionSet { market: vec![0, 2], hand_goods: vec![], hand_camels: 0 };
    assert_eq!(validate(TurnState::Take, &sel, &market, &hand), MoveValidity::Invalid);
}

#[test]
fn exchange_with_matching_counts_is_valid() {
    let market = market_goods_and_camels();
    // two market goods against one hand good and one hand camel
    let hand = Hand::new(vec![GoodType::Gold], 1);
    let sel = SelectionSet { market: vec![0, 2], hand_goods: vec![0], hand_camels: 1 };
    assert_eq!(
        validate(TurnState::Take, &sel, &market, &hand),
        MoveValidity::Valid(MoveType::ExchangeForGoodsFromMarket)
    );
}

#[test]
fn exchange_with_count_off_by_one_is_invalid() {
    let market = market_goods_and_camels();
    let hand = Hand::new(vec![GoodType::Gold], 1);
    // two market goods against only one hand card
    let sel = SelectionSet { market: vec![0, 2], hand_goods: vec![0], hand_camels: 0 };
    assert_eq!(validate(TurnState::Take, &sel, &market, &hand), MoveValidity::Invalid);
}

#[test]
fn exchange_sharing_a_good_type_is_invalid() {
    let market = market_goods_and_camels();
    // hand offers a diamond while taking the market's diamond
    let hand = Hand::new(vec![GoodType::Diamond], 1);
    let sel = SelectionSet { market: vec![0, 2], hand_goods: vec![0], hand_camels: 1 };
    assert_eq!(validate(TurnState::Take, &sel, &market, &hand), MoveValidity::Invalid);
}

#[test]
fn exchange_overflowing_the_hand_is_invalid() {
    let market = vec![
        CardType::Good(GoodType::Diamond),
        CardType::Good(GoodType::Gold),
        CardType::Good(GoodType::Leather),
        CardType::Camel,
        CardType::Camel,
    ];
    // six goods in hand plus two camels taken in would make eight
    let hand = Hand::new(vec![GoodType::Spice; 6], 2);
    let sel = SelectionSet { market: vec![0, 1], hand_goods: vec![], hand_camels: 2 };
    assert_eq!(validate(TurnState::Take, &sel, &market, &hand), MoveValidity::Invalid);
}

#[test]
fn selling_one_high_value_good_is_invalid() {
    let market = market_goods_and_camels();
    let hand = Hand::new(vec![GoodType::Diamond, GoodType::Leather], 0);
    let sel = SelectionSet { market: vec![], hand_goods: vec![0], hand_camels: 0 };
    assert_eq!(validate(TurnState::Sell, &sel, &market, &hand), MoveValidity::Invalid);
}

#[test]
fn selling_two_of_one_high_value_good_is_valid() {
    let market = market_goods_and_camels();
    let hand = Hand::new(vec![GoodType::Diamond, GoodType::Diamond], 0);
    let sel = SelectionSet { market: vec![], hand_goods: vec![0, 1], hand_camels: 0 };
    assert_eq!(
        validate(TurnState::Sell, &sel, &market, &hand),
        MoveValidity::Valid(MoveType::SellGoods)
    );
}

#[test]
fn selling_one_ordinary_good_is_valid() {
    let market = market_goods_and_camels();
    let hand = Hand::new(vec![GoodType::Leather], 3);
    let sel = SelectionSet { market: vec![], hand_goods: vec![0], hand_camels: 0 };
    assert_eq!(
        validate(TurnState::Sell, &sel, &market, &hand),
        MoveValidity::Valid(MoveType::SellGoods)
    );
}

#[test]
fn selling_mixed_types_is_invalid() {
    let market = market_goods_and_camels();
    let hand = Hand::new(vec![GoodType::Leather, GoodType::Spice], 0);
    let sel = SelectionSet { market: vec![], hand_goods: vec![0, 1], hand_camels: 0 };
    assert_eq!(validate(TurnState::Sell, &sel, &market, &hand), MoveValidity::Invalid);
}

#[test]
fn selling_with_camels_selected_is_invalid() {
    let market = market_goods_and_camels();
    let hand = Hand::new(vec![GoodType::Leather, GoodType::Leather], 2);
    let sel = SelectionSet { market: vec![], hand_goods: vec![0, 1], hand_camels: 1 };
    assert_eq!(validate(TurnState::Sell, &sel, &market, &hand), MoveValidity::Invalid);
}

#[test]
fn empty_selection_is_invalid_in_every_phase() {
    let market = market_goods_and_camels();
    let hand = Hand::new(vec![GoodType::Leather], 1);
    for phase in [TurnState::Idle, TurnState::Take, TurnState::Sell] {
        assert_eq!(
            validate(phase, &empty_selection(), &market, &hand),
            MoveValidity::Invalid
        );
    }
}

#[test]
fn idle_phase_rejects_any_selection() {
    let market = market_goods_and_camels();
    let hand = Hand::new(vec![GoodType::Leather], 0);
    let sel = SelectionSet { market: vec![0], hand_goods: vec![], hand_camels: 0 };
    assert_eq!(validate(TurnState::Idle, &sel, &market, &hand), MoveValidity::Invalid);
}

#[test]
fn selection_set_select_and_clear() {
    let mut sel = SelectionSet::new();
    assert!(sel.is_empty());
    sel.select_market_card(MarketCard(3));
    sel.select_hand_good(ActivePlayerGoodsCard(1));
    sel.select_hand_camel(ActivePlayerCamelCard(0));
    assert_eq!(sel.market, vec![3]);
    assert_eq!(sel.hand_goods, vec![1]);
    assert_eq!(sel.hand_camels, 1);
    assert!(!sel.is_empty());
    sel.clear();
    assert!(sel.is_empty());
}
