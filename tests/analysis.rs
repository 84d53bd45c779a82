use entsoe::{
    find_cheapest_consecutive_hours, find_expensivest_consecutive_hours, render_cheapest,
    render_expensivest, Period, WindowSummary,
};

fn periods(prices: &[i64]) -> Vec<Period> {
    prices.iter().enumerate().map(|(i, &price)| Period { start: 900 * i as i64, price }).collect()
}

#[test]
fn windows_of_two_pick_cheapest_and_priciest() {
    let p = periods(&[5, 1, 2, 8, 3]);
    assert_eq!(find_cheapest_consecutive_hours(&p, 2), Some((1, 3)));
    assert_eq!(find_expensivest_consecutive_hours(&p, 2), Some((3, 11)));
}

#[test]
fn window_longer_than_series_gives_nothing() {
    let p = periods(&[5, 1, 2, 8, 3]);
    assert_eq!(find_cheapest_consecutive_hours(&p, 6), None);
    assert_eq!(find_expensivest_consecutive_hours(&p, 6), None);
    assert_eq!(find_cheapest_consecutive_hours(&p, 5), Some((0, 19)));
}

#[test]
fn empty_series_or_zero_window_gives_nothing() {
    assert_eq!(find_cheapest_consecutive_hours(&[], 1), None);
    assert_eq!(find_expensivest_consecutive_hours(&[], 1), None);
    let p = periods(&[1, 2]);
    assert_eq!(find_cheapest_consecutive_hours(&p, 0), None);
    assert_eq!(find_expensivest_consecutive_hours(&p, 0), None);
}

#[test]
fn ties_go_to_the_earliest_window() {
    let p = periods(&[2, 1, 1, 2, 2, 1, 1]);
    assert_eq!(find_cheapest_consecutive_hours(&p, 2), Some((1, 2)));
    assert_eq!(find_expensivest_consecutive_hours(&p, 2), Some((3, 4)));
}

#[test]
fn extreme_prices_do_not_overflow() {
    let p = periods(&[i64::MAX, i64::MAX, i64::MIN, i64::MIN]);
    assert_eq!(find_expensivest_consecutive_hours(&p, 2), Some((0, 2 * i64::MAX as i128)));
    assert_eq!(find_cheapest_consecutive_hours(&p, 2), Some((2, 2 * i64::MIN as i128)));
}

#[test]
fn summaries_give_hours_and_end() {
    let p = periods(&[5, 4, 3, 2, 9, 9, 9, 9, 1, 1, 1, 1]);
    assert_eq!(
        render_cheapest(&p, 4),
        Some(WindowSummary { hours: 1, start: 8 * 900, end: 8 * 900 + 3600, total: 4, count: 4 })
    );
    assert_eq!(
        render_expensivest(&p, 4),
        Some(WindowSummary { hours: 1, start: 4 * 900, end: 4 * 900 + 3600, total: 36, count: 4 })
    );
    assert_eq!(render_cheapest(&p, 13), None);
}
