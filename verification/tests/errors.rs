use weather_service::error::{AggregationError, ProviderError};
use weather_service::providers::{AccuWeather, SearchResponse, OWM};

#[test]
fn provider_error_keeps_its_description() {
    let e = ProviderError::new("error requesting provider".to_string());
    assert_eq!(e.message(), "error requesting provider");
}

#[test]
fn aggregation_error_wraps_with_prefix() {
    let cause = ProviderError::new("external provider error: bad key".to_string());
    let wrapped = AggregationError::wrap(&cause);
    assert_eq!(
        wrapped.message(),
        "error while fetching forecast: external provider error: bad key"
    );
}

#[test]
fn provider_configurations_keep_their_tokens() {
    let owm = OWM::new("owm-demo-token".to_string());
    assert_eq!(owm.token(), "owm-demo-token");
    let accu = AccuWeather::new("accu-demo-token".to_string());
    assert_eq!(accu.token(), "accu-demo-token");
    let search = SearchResponse { key: "328169".to_string() };
    assert_eq!(search.key, "328169");
}
