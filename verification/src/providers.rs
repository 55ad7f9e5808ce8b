//! Configuration for the upstream weather providers.
//!
//! Each provider is a stateless capability beyond its credential: one fetch
//! is one chain of network round trips, performed by the caller that drives
//! the service. The types here carry what the library knows of a provider —
//! its access token — while the wire protocols stay with the caller.

use vstd::prelude::*;

verus! {

/// An OpenWeatherMap-style provider: a single forecast request per fetch,
/// authenticated by an API token.
#[derive(Debug)]
pub struct OWM {
    token: String,
}

impl OWM {
    /// The configured API token.
    pub closed spec fn spec_token(&self) -> Seq<char> {
        self.token@
    }

    /// A provider configuration from its API token.
    pub fn new(token: String) -> (r: OWM)
        ensures
            r.spec_token() == token@,
    {
        OWM { token }
    }

    /// The API token each request carries.
    pub fn token(&self) -> (r: &String)
        ensures
            r@ == self.spec_token(),
    {
        &self.token
    }
}

/// An AccuWeather-style provider: a location-search round trip first, then
/// the forecast request, both authenticated by an API token.
#[derive(Debug)]
pub struct AccuWeather {
    token: String,
}

impl AccuWeather {
    /// The configured API token.
    pub closed spec fn spec_token(&self) -> Seq<char> {
        self.token@
    }

    /// A provider configuration from its API token.
    pub fn new(token: String) -> (r: AccuWeather)
        ensures
            r.spec_token() == token@,
    {
        AccuWeather { token }
    }

    /// The API token each request carries.
    pub fn token(&self) -> (r: &String)
        ensures
            r@ == self.spec_token(),
    {
        &self.token
    }
}

/// The answer of the AccuWeather-style location search: the key under which
/// the forecast of a position is requested.
#[derive(Debug)]
pub struct SearchResponse {
    /// The location key the provider assigned to the searched position.
    pub key: String,
}

} // verus!
