use weather_service::cache::Cache;
use weather_service::forecast::Forecast;
use weather_service::position::Pos;

fn pos(lat: f32, lon: f32) -> Pos {
    Pos::new(lat.to_bits(), lon.to_bits())
}

fn forecast(n: i64) -> Forecast {
    Forecast { temps: [n, n, n, n, n] }
}

const TODAY: i64 = 19_000;

#[test]
fn store_then_lookup_same_day() {
    let mut cache = Cache::new();
    let p = pos(41.85003, -87.65005);
    assert_eq!(cache.lookup(&p, TODAY), None);
    cache.store(&p, TODAY, forecast(7));
    assert_eq!(cache.lookup(&p, TODAY), Some(forecast(7)));
}

#[test]
fn entry_for_another_day_is_a_miss() {
    let mut cache = Cache::new();
    let p = pos(41.85003, -87.65005);
    cache.store(&p, TODAY, forecast(7));
    // Both an earlier and a later day invalidate the entry.
    assert_eq!(cache.lookup(&p, TODAY - 1), None);
    assert_eq!(cache.lookup(&p, TODAY + 3), None);
    // The stale read deleted nothing: the entry still answers its own day.
    assert_eq!(cache.lookup(&p, TODAY), Some(forecast(7)));
}

#[test]
fn store_overwrites() {
    let mut cache = Cache::new();
    let p = pos(41.85003, -87.65005);
    cache.store(&p, TODAY - 2, forecast(1));
    cache.store(&p, TODAY, forecast(2));
    assert_eq!(cache.lookup(&p, TODAY), Some(forecast(2)));
    assert_eq!(cache.lookup(&p, TODAY - 2), None);
}

#[test]
fn epsilon_close_positions_share_a_key() {
    let mut cache = Cache::new();
    let p = pos(1.0, 1.0);
    let q = pos(1.0 + f32::EPSILON, 1.0 - f32::EPSILON);
    cache.store(&p, TODAY, forecast(4));
    assert_eq!(cache.lookup(&q, TODAY), Some(forecast(4)));
    cache.store(&q, TODAY, forecast(9));
    assert_eq!(cache.lookup(&p, TODAY), Some(forecast(9)));
}

#[test]
fn positions_beyond_epsilon_are_distinct_keys() {
    let mut cache = Cache::new();
    let p = pos(1.0, 1.0);
    let q = pos(1.0 + 3.0 * f32::EPSILON, 1.0);
    cache.store(&p, TODAY, forecast(4));
    assert_eq!(cache.lookup(&q, TODAY), None);
    cache.store(&q, TODAY, forecast(9));
    assert_eq!(cache.lookup(&p, TODAY), Some(forecast(4)));
    assert_eq!(cache.lookup(&q, TODAY), Some(forecast(9)));
}
