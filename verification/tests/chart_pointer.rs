use pie_chart::color::Color;
use pie_chart::layout::FULL_TURN;
use pie_chart::pie_chart::{PieChart, PieChartItem};

fn three_to_one() -> PieChart {
    let mut chart = PieChart::new();
    assert_eq!(chart.add_item(&PieChartItem::new("A", 3)), Ok(()));
    assert_eq!(chart.add_item(&PieChartItem::new("B", 1)), Ok(()));
    // centre (100, 50), outer radius 50, inner radius 30
    chart.draw_chart(200, 100);
    chart
}

#[test]
fn point_on_first_slice_hits_it() {
    let chart = three_to_one();
    // 40 from the centre, a tenth of a radian round
    assert_eq!(chart.hit_test(140, 54, 100_000_000), Some(0));
}

#[test]
fn point_on_second_slice_hits_it() {
    let chart = three_to_one();
    // straight up on the screen: three quarters of a turn and a bit
    assert_eq!(chart.hit_test(101, 10, 4_737_383_000), Some(1));
}

#[test]
fn negative_angle_is_turned_round() {
    let chart = three_to_one();
    assert_eq!(chart.hit_test(140, 46, -100_000_000), Some(1));
    assert_eq!(chart.hit_test(60, 49, -3_100_000_000), Some(0));
}

#[test]
fn slice_ends_are_hit() {
    let chart = three_to_one();
    assert_eq!(chart.hit_test(140, 50, 15_915_494), Some(0));
    assert_eq!(chart.hit_test(100, 10, 4_712_388_980), Some(0));
    assert_eq!(chart.hit_test(140, 50, FULL_TURN as i64), Some(1));
}

#[test]
fn gap_between_slices_misses() {
    let chart = three_to_one();
    assert_eq!(chart.hit_test(140, 50, 0), None);
    assert_eq!(chart.hit_test(140, 50, 15_915_493), None);
    assert_eq!(chart.hit_test(100, 10, 4_712_388_981), None);
    assert_eq!(chart.hit_test(100, 10, 4_728_304_473), None);
    assert_eq!(chart.hit_test(100, 10, 4_728_304_474), Some(1));
}

#[test]
fn angle_beyond_the_turn_misses() {
    let chart = three_to_one();
    assert_eq!(chart.hit_test(140, 50, FULL_TURN as i64 + 1), None);
    assert_eq!(chart.hit_test(140, 50, -(FULL_TURN as i64) - 1), None);
    assert_eq!(chart.hit_test(140, 50, i64::MAX), None);
    assert_eq!(chart.hit_test(140, 50, i64::MIN), None);
}

#[test]
fn hole_and_outside_miss() {
    let chart = three_to_one();
    // in the hole
    assert_eq!(chart.hit_test(100, 50, 100_000_000), None);
    assert_eq!(chart.hit_test(129, 50, 100_000_000), None);
    // on the inner and the outer edge
    assert_eq!(chart.hit_test(130, 50, 100_000_000), Some(0));
    assert_eq!(chart.hit_test(150, 50, 100_000_000), Some(0));
    // outside
    assert_eq!(chart.hit_test(151, 50, 100_000_000), None);
    assert_eq!(chart.hit_test(0, 0, 100_000_000), None);
    assert_eq!(chart.hit_test(i32::MAX, i32::MIN, 100_000_000), None);
}

#[test]
fn half_units_of_the_centre_count() {
    let mut chart = PieChart::new();
    assert_eq!(chart.add_item(&PieChartItem::new("only", 1)), Ok(()));
    // centre (2.5, 2.5), outer radius 2.5, inner radius 1.5
    chart.draw_chart(5, 5);
    assert_eq!(chart.hit_test(4, 2, 1_000_000_000), Some(0));
    assert_eq!(chart.hit_test(5, 2, 1_000_000_000), None);
    assert_eq!(chart.hit_test(3, 2, 1_000_000_000), None);
    assert_eq!(chart.hit_test(1, 2, 1_000_000_000), Some(0));
}

#[test]
fn item_at_point_tests_ring_and_angle() {
    let chart = three_to_one();
    let a = &chart.items()[0];
    let b = &chart.items()[1];
    assert!(chart.item_at_point(a, 140, 54, 100_000_000));
    assert!(!chart.item_at_point(b, 140, 54, 100_000_000));
    assert!(!chart.item_at_point(a, 110, 50, 100_000_000));
    assert!(chart.item_at_point(b, 140, 46, -100_000_000));
    let loose = PieChartItem::new("loose", 9);
    assert!(!chart.item_at_point(&loose, 140, 54, 100_000_000));
    assert!(chart.item_at_point(&loose, 140, 50, 0));
}

#[test]
fn hit_test_before_any_layout_misses() {
    let mut chart = PieChart::new();
    assert_eq!(chart.add_item(&PieChartItem::new("A", 3)), Ok(()));
    assert_eq!(chart.hit_test(0, 0, 0), None);
    let hover = chart.highlight_item_at_point(0, 0, 100_000_000);
    assert!(hover.item.is_none());
    assert!(!hover.redraw);
}

#[test]
fn widget_without_size_misses() {
    let mut chart = PieChart::new();
    assert_eq!(chart.add_item(&PieChartItem::new("A", 3)), Ok(()));
    chart.draw_chart(0, 100);
    assert_eq!(chart.hit_test(0, 50, 100_000_000), None);
    chart.draw_chart(0, 0);
    assert_eq!(chart.hit_test(0, 0, 100_000_000), None);
    chart.draw_chart(-4, 7);
    assert_eq!(chart.hit_test(-2, 3, 100_000_000), None);
}

#[test]
fn moving_onto_a_slice_highlights_it() {
    let mut chart = three_to_one();
    let hover = chart.highlight_item_at_point(140, 54, 100_000_000);
    assert!(hover.redraw);
    let item = hover.item.expect("on a slice");
    assert_eq!(item.title(), "A");
    assert_eq!(item.weight(), 3);
    assert_eq!(item.end_angle(), 4_712_388_980);
    assert_eq!(chart.highlighted_item_index(), Some(0));
}

#[test]
fn moving_twice_to_one_point_redraws_once() {
    let mut chart = three_to_one();
    let first = chart.highlight_item_at_point(140, 54, 100_000_000);
    let second = chart.highlight_item_at_point(140, 54, 100_000_000);
    assert!(first.redraw);
    assert!(!second.redraw);
    assert_eq!(second.item.expect("on a slice").title(), "A");
    assert_eq!(chart.highlighted_item_index(), Some(0));

    let first = chart.highlight_item_at_point(100, 50, 0);
    let second = chart.highlight_item_at_point(100, 50, 0);
    assert!(first.redraw);
    assert!(!second.redraw);
    assert!(first.item.is_none());
    assert_eq!(chart.highlighted_item_index(), None);
}

#[test]
fn moving_within_a_slice_does_not_redraw() {
    let mut chart = three_to_one();
    assert!(chart.highlight_item_at_point(140, 54, 100_000_000).redraw);
    assert!(!chart.highlight_item_at_point(139, 60, 250_000_000).redraw);
    let hover = chart.highlight_item_at_point(140, 46, -100_000_000);
    assert!(hover.redraw);
    assert_eq!(hover.item.expect("on a slice").title(), "B");
    assert_eq!(chart.highlighted_item_index(), Some(1));
}

#[test]
fn highlight_counts_drawn_slices_only() {
    let mut chart = PieChart::new();
    assert_eq!(chart.add_item(&PieChartItem::new("tiny", 1)), Ok(()));
    assert_eq!(chart.add_item(&PieChartItem::new("big", 1000)), Ok(()));
    chart.draw_chart(200, 100);
    assert_eq!(chart.slices(), &vec![1usize]);
    let hover = chart.highlight_item_at_point(140, 54, 100_000_000);
    assert_eq!(hover.item.expect("on a slice").title(), "big");
    assert_eq!(chart.highlighted_item_index(), Some(0));
}

#[test]
fn highlighted_slice_is_drawn_darker() {
    let mut chart = three_to_one();
    chart.highlight_item_at_point(140, 46, -100_000_000);
    let segments = chart.draw_chart(200, 100);
    assert_eq!(chart.highlighted_item_index(), Some(1));
    assert_eq!(segments[0].color, Color { red: 0xe0 * 11, green: 0x1b * 11, blue: 0x24 * 11 });
    assert_eq!(segments[1].color, Color { red: 0xff * 10, green: 0x78 * 10, blue: 0 });
}

#[test]
fn highlight_is_dropped_when_the_slices_change_in_number() {
    let mut chart = three_to_one();
    chart.highlight_item_at_point(140, 54, 100_000_000);
    assert_eq!(chart.add_item(&PieChartItem::new("C", 4)), Ok(()));
    assert_eq!(chart.highlighted_item_index(), Some(0));
    let segments = chart.draw_chart(200, 100);
    assert_eq!(segments.len(), 3);
    assert_eq!(chart.highlighted_item_index(), None);
    assert_eq!(segments[0].color, Color { red: 0xe0 * 11, green: 0x1b * 11, blue: 0x24 * 11 });
}

#[test]
fn clear_drops_the_highlight() {
    let mut chart = three_to_one();
    chart.highlight_item_at_point(140, 54, 100_000_000);
    chart.clear();
    assert_eq!(chart.highlighted_item_index(), None);
    assert_eq!(chart.hit_test(140, 54, 100_000_000), None);
}

#[test]
fn set_highlight_reports_a_change() {
    let mut chart = three_to_one();
    assert!(!chart.set_highlighted_item_index(None));
    assert!(chart.set_highlighted_item_index(Some(1)));
    assert!(!chart.set_highlighted_item_index(Some(1)));
    assert!(chart.set_highlighted_item_index(Some(0)));
    assert!(chart.set_highlighted_item_index(None));
    assert_eq!(chart.highlighted_item_index(), None);
}
