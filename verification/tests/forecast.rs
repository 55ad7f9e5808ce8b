use weather_service::forecast::{average, Forecast, FORECAST_DAYS};

#[test]
fn average_of_two() {
    let a = Forecast { temps: [2, 3, 4, 5, 6] };
    let b = Forecast { temps: [4, 5, 6, 7, 8] };
    let avg = average(&vec![a, b]);
    assert_eq!(avg.temps, [3, 4, 5, 6, 7]);
}

#[test]
fn average_rounds_toward_zero() {
    let a = Forecast { temps: [1, -1, 7, -7, 0] };
    let b = Forecast { temps: [2, -2, 0, 0, 1] };
    let avg = average(&vec![a, b]);
    assert_eq!(avg.temps, [1, -1, 3, -3, 0]);
}

#[test]
fn average_of_one_is_identity() {
    let a = Forecast { temps: [-8, -7, -6, -5, -4] };
    let avg = average(&vec![a]);
    assert_eq!(avg.temps, a.temps);
}

#[test]
fn average_handles_extreme_temperatures() {
    let a = Forecast { temps: [i64::MAX, i64::MIN, i64::MAX, i64::MIN, 0] };
    let b = Forecast { temps: [i64::MAX, i64::MIN, i64::MIN, i64::MAX, 0] };
    let avg = average(&vec![a, b]);
    assert_eq!(avg.temps[0], i64::MAX);
    assert_eq!(avg.temps[1], i64::MIN);
    assert_eq!(avg.temps[2], 0);
    assert_eq!(avg.temps[3], 0);
    assert_eq!(avg.temps[4], 0);
}

#[test]
fn forecast_days_and_accessors() {
    assert_eq!(FORECAST_DAYS, 5);
    let f = Forecast::uniform(3);
    assert_eq!(f.temps, [3, 3, 3, 3, 3]);
    assert_eq!(f.day(0), 3);
    assert_eq!(f.day(4), 3);
}
