use pie_chart::pie_chart::{ChartError, PieChart, PieChartItem};
use pie_chart::window::{
    handle_message, round_to_seconds, total_nanos, total_title, AppUsage, Message,
};

const MILLI: u64 = 1_000_000;

fn usage(app: &str, nanos: u64) -> AppUsage {
    AppUsage { app: String::from(app), nanos }
}

#[test]
fn report_fills_chart_and_rows() {
    let mut chart = PieChart::new();
    assert_eq!(chart.add_item(&PieChartItem::new("old", 1)), Ok(()));
    chart.draw_chart(100, 100);
    chart.highlight_item_at_point(90, 60, 1_000_000_000);
    let msg = Message::AppsUsage(vec![
        usage("firefox", 9_420_000 * MILLI),
        usage("kitty", 61_999 * MILLI),
        usage("idle", 0),
    ]);
    let rows = handle_message(&mut chart, &msg).expect("the report fits");
    assert_eq!(rows.len(), 3);
    assert_eq!(rows[0].app, "firefox");
    assert_eq!(rows[0].duration, "2h 37m");
    assert_eq!(rows[1].app, "kitty");
    assert_eq!(rows[1].duration, "1m 1s");
    assert_eq!(rows[2].app, "idle");
    assert_eq!(rows[2].duration, "0s");
    assert_eq!(chart.items().len(), 3);
    assert_eq!(chart.items()[0].title(), "firefox");
    assert_eq!(chart.items()[0].weight(), 9_420_000_000_000);
    assert_eq!(chart.items()[1].title(), "kitty");
    assert_eq!(chart.items()[1].weight(), 61_999_000_000);
    assert_eq!(chart.items()[2].weight(), 0);
    assert_eq!(chart.items()[0].start_angle(), 0);
    assert_eq!(chart.items()[0].end_angle(), 0);
    assert!(chart.slices().is_empty());
    assert_eq!(chart.highlighted_item_index(), None);
    // 9481.999 s round to 9482 s
    assert_eq!(chart.title(), &Some(String::from("2h 38m 2s")));
}

#[test]
fn empty_report_empties_the_chart() {
    let mut chart = PieChart::new();
    assert_eq!(chart.add_item(&PieChartItem::new("old", 1)), Ok(()));
    let rows = handle_message(&mut chart, &Message::AppsUsage(Vec::new())).expect("fits");
    assert!(rows.is_empty());
    assert!(chart.items().is_empty());
    assert_eq!(chart.title(), &Some(String::from("0s")));
}

#[test]
fn report_too_large_changes_nothing() {
    let mut chart = PieChart::new();
    assert_eq!(chart.add_item(&PieChartItem::new("old", 1)), Ok(()));
    chart.set_title(Some(String::from("before")));
    let msg = Message::AppsUsage(vec![usage("a", 5), usage("b", i64::MAX as u64 + 1)]);
    assert_eq!(handle_message(&mut chart, &msg).err(), Some(ChartError::WeightOverflow));
    assert_eq!(chart.items().len(), 1);
    assert_eq!(chart.items()[0].title(), "old");
    assert_eq!(chart.title(), &Some(String::from("before")));

    let big = i64::MAX as u64;
    let msg = Message::AppsUsage(vec![usage("a", big), usage("b", big), usage("c", 2)]);
    assert_eq!(handle_message(&mut chart, &msg).err(), Some(ChartError::WeightOverflow));
    assert_eq!(chart.items().len(), 1);

    let msg = Message::AppsUsage(vec![usage("a", big), usage("b", big), usage("c", 1)]);
    assert!(handle_message(&mut chart, &msg).is_ok());
    assert_eq!(chart.items().len(), 3);
}

#[test]
fn total_is_the_sum() {
    assert_eq!(total_nanos(&Vec::new()), Some(0));
    assert_eq!(total_nanos(&vec![usage("a", 1), usage("b", 2), usage("c", 3)]), Some(6));
    assert_eq!(total_nanos(&vec![usage("a", u64::MAX), usage("b", 0)]), Some(u64::MAX));
    assert_eq!(total_nanos(&vec![usage("a", u64::MAX), usage("b", 1)]), None);
}

#[test]
fn half_a_second_rounds_up() {
    assert_eq!(round_to_seconds(0), 0);
    assert_eq!(round_to_seconds(499_999_999), 0);
    assert_eq!(round_to_seconds(500_000_000), 1);
    assert_eq!(round_to_seconds(1_000_000_000), 1);
    assert_eq!(round_to_seconds(1_499_999_999), 1);
    assert_eq!(round_to_seconds(1_500_000_000), 2);
    assert_eq!(round_to_seconds(u64::MAX), 18_446_744_074);
}

#[test]
fn title_rounds_to_the_second() {
    assert_eq!(total_title(0), "0s");
    assert_eq!(total_title(499_999_999), "0s");
    assert_eq!(total_title(500_000_000), "1s");
    assert_eq!(total_title(1_499 * MILLI), "1s");
    assert_eq!(total_title(1_500 * MILLI), "2s");
    assert_eq!(total_title(9_420_000 * MILLI), "2h 37m");
    assert_eq!(total_title((3 * 3_600_000 + 12 * 60_000) * MILLI), "3h 12m");
    assert_eq!(total_title(86_400_000 * MILLI), "1day");
    assert_eq!(total_title(u64::MAX), "584years 6months 15days 8h 12m 58s");
}

#[test]
fn rows_drop_the_part_of_a_second() {
    let mut chart = PieChart::new();
    let msg = Message::AppsUsage(vec![usage("a", 1_999_999_999), usage("b", 999_999_999)]);
    let rows = handle_message(&mut chart, &msg).expect("the report fits");
    assert_eq!(rows[0].duration, "1s");
    assert_eq!(rows[1].duration, "0s");
    assert_eq!(chart.title(), &Some(String::from("3s")));
}

#[test]
fn report_then_layout() {
    let mut chart = PieChart::new();
    let msg = Message::AppsUsage(vec![usage("A", 3_000 * MILLI), usage("B", 1_000 * MILLI)]);
    assert!(handle_message(&mut chart, &msg).is_ok());
    let segments = chart.draw_chart(200, 100);
    assert_eq!(segments.len(), 2);
    assert_eq!(segments[0].to_angle, 4_712_388_980);
    assert_eq!(chart.title(), &Some(String::from("4s")));
}
