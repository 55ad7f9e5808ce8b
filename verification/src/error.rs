//! The two error kinds of the service.
//!
//! A provider failure carries a human-readable description of its cause
//! chain; an aggregation failure is exactly one provider failure wrapped
//! with a fixed contextual prefix. The cache raises no errors.

use vstd::prelude::*;
use vstd::string::StringExecFns;

verus! {

/// The fixed prefix an aggregation failure puts before the provider's own
/// description.
pub open spec fn aggregation_prefix() -> Seq<char> {
    "error while fetching forecast: "@
}

/// A failure reported by one provider: transport trouble, a non-success
/// upstream status, or a response of the wrong shape. The view is the full
/// description of the cause chain.
#[derive(Debug)]
pub struct ProviderError {
    message: String,
}

impl View for ProviderError {
    type V = Seq<char>;

    closed spec fn view(&self) -> Seq<char> {
        self.message@
    }
}

impl ProviderError {
    /// A provider failure described by `message`.
    pub fn new(message: String) -> (r: ProviderError)
        ensures
            r@ == message@,
    {
        ProviderError { message }
    }

    /// The full description of the failure's cause chain.
    pub fn message(&self) -> (r: &String)
        ensures
            r@ == self@,
    {
        &self.message
    }
}

/// The one failure kind the aggregator surfaces: the first provider failure
/// observed during a fan-out, wrapped with the fixed prefix. The view is
/// the full description.
#[derive(Debug)]
pub struct AggregationError {
    message: String,
}

impl View for AggregationError {
    type V = Seq<char>;

    closed spec fn view(&self) -> Seq<char> {
        self.message@
    }
}

impl AggregationError {
    /// Wrap a provider failure, keeping its description inspectable after
    /// the fixed prefix.
    pub fn wrap(cause: &ProviderError) -> (r: AggregationError)
        ensures
            r@ == aggregation_prefix() + cause@,
    {
        let mut message = String::from_str("error while fetching forecast: ");
        message.append(cause.message.as_str());
        AggregationError { message }
    }

    /// The full description: the fixed prefix, then the provider failure's
    /// description.
    pub fn message(&self) -> (r: &String)
        ensures
            r@ == self@,
    {
        &self.message
    }
}

} // verus!
