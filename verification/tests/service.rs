use weather_service::error::ProviderError;
use weather_service::forecast::Forecast;
use weather_service::position::Pos;
use weather_service::service::Service;

fn pos(lat: f32, lon: f32) -> Pos {
    Pos::new(lat.to_bits(), lon.to_bits())
}

/// A forecast as the stubbed providers produce it: `n`, then `n + 1`, up to
/// `n + 4`.
fn stub(n: i64) -> Result<Forecast, ProviderError> {
    Ok(Forecast {
        temps: [n, n + 1, n + 2, n + 3, n + 4],
    })
}

fn erroneous(message: &str) -> Result<Forecast, ProviderError> {
    Err(ProviderError::new(message.to_string()))
}

const TODAY: i64 = 19_000;

#[test]
fn service() {
    let mut service = Service::new(2).unwrap();
    let chicago = pos(41.85003, -87.65005);

    // Seed an entry computed two days ago: it must be invalidated.
    let old_day = TODAY - 2;
    service
        .forecast_fetched(&chicago, old_day, &vec![stub(0), stub(0)])
        .unwrap();

    // On the new day the entry is stale, so the full fan-out runs.
    assert_eq!(service.forecast_cached(&chicago, TODAY), None);
    let avg = service
        .forecast_fetched(&chicago, TODAY, &vec![stub(-8), stub(6)])
        .unwrap();

    let total: i64 = avg.temps.iter().sum();
    assert_eq!(total, 5, "average temperature did not equal expected");
}

#[test]
fn service_caching() {
    let mut service = Service::new(1).unwrap();
    let chicago = pos(41.85003, -87.65005);

    // A fresh entry for today.
    let seeded = Forecast { temps: [5, 5, 5, 5, 5] };
    service
        .forecast_fetched(&chicago, TODAY, &vec![Ok(seeded)])
        .unwrap();

    // The hit answers by itself: no fan-out takes place, so a provider that
    // would fail is never consulted.
    let cached = service
        .forecast_cached(&chicago, TODAY)
        .expect("did not use cache");
    let total: i64 = cached.temps.iter().sum();
    assert_eq!(total, 25, "did not use cache");
}

#[test]
fn averaging_example() {
    let mut service = Service::new(2).unwrap();
    let somewhere = pos(55.75222, 37.61556);

    let a = Forecast { temps: [2, 3, 4, 5, 6] };
    let b = Forecast { temps: [4, 5, 6, 7, 8] };
    let avg = service
        .forecast_fetched(&somewhere, TODAY, &vec![Ok(a), Ok(b)])
        .unwrap();
    assert_eq!(avg.temps, [3, 4, 5, 6, 7]);
}

#[test]
fn all_or_nothing_failure() {
    let mut service = Service::new(3).unwrap();
    let berlin = pos(52.52437, 13.41053);

    let results = vec![
        stub(1),
        erroneous("something bad happened"),
        erroneous("a later failure"),
    ];
    let err = service
        .forecast_fetched(&berlin, TODAY, &results)
        .unwrap_err();
    assert_eq!(
        err.message(),
        "error while fetching forecast: something bad happened"
    );

    // The cache was not written: the next read is still a miss.
    assert_eq!(service.forecast_cached(&berlin, TODAY), None);
}

#[test]
fn zero_providers_rejected() {
    let err = Service::new(0).unwrap_err();
    assert_eq!(
        err.message(),
        "tried to initialize weather service with zero providers"
    );
    assert_eq!(Service::new(1).unwrap().provider_count(), 1);
}

#[test]
fn single_provider_average_is_identity() {
    let mut service = Service::new(1).unwrap();
    let somewhere = pos(-33.0, 18.0);

    let only = Forecast { temps: [-3, 0, 7, 21, -14] };
    let avg = service
        .forecast_fetched(&somewhere, TODAY, &vec![Ok(only)])
        .unwrap();
    assert_eq!(avg.temps, [-3, 0, 7, 21, -14]);
}

#[test]
fn distinct_positions_have_distinct_entries() {
    let mut service = Service::new(1).unwrap();
    let chicago = pos(41.85003, -87.65005);
    let moscow = pos(55.75222, 37.61556);

    let a = Forecast { temps: [1, 1, 1, 1, 1] };
    let b = Forecast { temps: [9, 9, 9, 9, 9] };
    service.forecast_fetched(&chicago, TODAY, &vec![Ok(a)]).unwrap();
    service.forecast_fetched(&moscow, TODAY, &vec![Ok(b)]).unwrap();

    assert_eq!(service.forecast_cached(&chicago, TODAY).unwrap().temps, a.temps);
    assert_eq!(service.forecast_cached(&moscow, TODAY).unwrap().temps, b.temps);
}
