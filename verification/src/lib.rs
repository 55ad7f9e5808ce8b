//! A location-keyed weather forecast aggregator.
//!
//! The library combines per-day temperature forecasts from several
//! independently failing providers into one averaged forecast, and keeps a
//! position-keyed cache of results that is invalidated by calendar day.

pub mod cache;
pub mod error;
pub mod forecast;
pub mod position;
pub mod providers;
pub mod service;

pub use cache::Cache;
pub use cache::CacheEntry;
pub use error::AggregationError;
pub use error::ProviderError;
pub use forecast::Forecast;
pub use position::Pos;
pub use providers::AccuWeather;
pub use providers::OWM;
pub use providers::SearchResponse;
pub use service::Service;
pub use service::ZeroProvidersError;
