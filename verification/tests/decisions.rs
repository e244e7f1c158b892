use jaipur_core::picker::{candidates_in_order, HighestScorePicker, WeightedPicker};
use jaipur_core::rules::MoveType;

#[test]
fn candidate_order_is_fixed() {
    let c = candidates_in_order(1, 2, 3, 4);
    assert_eq!(
        c,
        vec![
            (MoveType::TakeSingleGood, 1),
            (MoveType::SellGoods, 2),
            (MoveType::TakeAllCamels, 3),
            (MoveType::ExchangeForGoodsFromMarket, 4),
        ]
    );
}

#[test]
fn highest_score_picker_takes_the_maximum() {
    let picker = HighestScorePicker::new(1000);
    let c = candidates_in_order(4000, 6000, 2000, 5000);
    assert_eq!(picker.pick(&c), Some(MoveType::SellGoods));
}

#[test]
fn highest_score_picker_ties_go_to_the_first_candidate() {
    let picker = HighestScorePicker::new(1000);
    let c = candidates_in_order(6000, 2000, 6000, 3000);
    assert_eq!(picker.pick(&c), Some(MoveType::TakeSingleGood));
}

#[test]
fn highest_score_picker_requires_strictly_above_threshold() {
    let picker = HighestScorePicker::new(6000);
    let c = candidates_in_order(6000, 2000, 6000, 3000);
    assert_eq!(picker.pick(&c), None);
    let lower = HighestScorePicker::new(5999);
    assert_eq!(lower.pick(&c), Some(MoveType::TakeSingleGood));
}

#[test]
fn highest_score_picker_with_no_candidates_picks_nothing() {
    let picker = HighestScorePicker::new(0);
    assert_eq!(picker.pick(&Vec::new()), None);
}

#[test]
fn weighted_picker_follows_the_only_nonzero_weight() {
    let picker = WeightedPicker;
    let c = candidates_in_order(0, 5000, 0, 0);
    for _ in 0..50 {
        assert_eq!(picker.pick(&c), Some(MoveType::SellGoods));
    }
}

#[test]
fn weighted_picker_only_picks_nonzero_candidates() {
    let picker = WeightedPicker;
    let c = candidates_in_order(3000, 0, 7000, 0);
    for _ in 0..50 {
        let chosen = picker.pick(&c).expect("some candidate has weight");
        assert!(chosen == MoveType::TakeSingleGood || chosen == MoveType::TakeAllCamels);
    }
}

#[test]
fn weighted_picker_with_all_zero_scores_picks_nothing() {
    let picker = WeightedPicker;
    let c = candidates_in_order(0, 0, 0, 0);
    assert_eq!(picker.pick(&c), None);
}

#[test]
fn weighted_picker_with_no_candidates_picks_nothing() {
    let picker = WeightedPicker;
    assert_eq!(picker.pick(&Vec::new()), None);
}
