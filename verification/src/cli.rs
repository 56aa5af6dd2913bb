//! The orchestration layer's decisions: the top-level error wrapper and the
//! deterministic part of candidate disambiguation. The surrounding flow
//! (reading input, printing, the network calls) stays with the caller.

use crate::geocoder::GeocoderError;
use crate::geocoder::GeocoderToponym;
use crate::provider_builder::ProviderBuilderError;
use crate::providers::error::ProviderError;
use vstd::prelude::*;
use vstd::string::StringExecFns;

verus! {

/// The population at or above which a candidate is picked without asking.
pub const POPULATION_THRESHOLD: u32 = 100_000;

/// A top-level failure: one of the component errors, wrapped.
#[derive(Debug)]
pub enum WeatherCliError {
    Geocoder(GeocoderError),
    ProviderBuilder(ProviderBuilderError),
    ProviderError(ProviderError),
}

impl WeatherCliError {
    pub open spec fn spec_message(self) -> Seq<char> {
        match self {
            WeatherCliError::Geocoder(e) => "Geocoder failed with an error: "@ + e.spec_message(),
            WeatherCliError::ProviderBuilder(e) => "Provider builder failed with an error: "@
                + e.spec_message(),
            WeatherCliError::ProviderError(e) => "Provider failed with an error: "@
                + e.spec_message(),
        }
    }

    /// The user-facing message.
    pub fn message(&self) -> (r: String)
        ensures
            r@ == self.spec_message(),
    {
        match self {
            WeatherCliError::Geocoder(e) => {
                let mut m = String::from_str("Geocoder failed with an error: ");
                let inner = e.message();
                m.append(inner.as_str());
                m
            },
            WeatherCliError::ProviderBuilder(e) => {
                let mut m = String::from_str("Provider builder failed with an error: ");
                let inner = e.message();
                m.append(inner.as_str());
                m
            },
            WeatherCliError::ProviderError(e) => {
                let mut m = String::from_str("Provider failed with an error: ");
                let inner = e.message();
                m.append(inner.as_str());
                m
            },
        }
    }
}

/// The population credited to a candidate: its reported figure, or zero when
/// none was reported.
pub open spec fn spec_population(t: GeocoderToponym) -> int {
    match t.population {
        Some(p) => p as int,
        None => 0,
    }
}

/// The deterministic part of disambiguation: a single candidate is used
/// directly; otherwise the first whose population meets the threshold wins.
/// `None` means nothing decides and the caller must ask for a 1-based index
/// into the displayed list.
pub fn choose_candidate(results: &Vec<GeocoderToponym>) -> (r: Option<usize>)
    ensures
        results@.len() == 1 ==> r == Some(0usize),
        results@.len() != 1 ==> match r {
            Some(i) => i < results@.len() && spec_population(results@[i as int])
                >= POPULATION_THRESHOLD && (forall|k: int|
                0 <= k < i ==> spec_population(#[trigger] results@[k]) < POPULATION_THRESHOLD),
            None => forall|k: int|
                0 <= k < results@.len() ==> spec_population(#[trigger] results@[k])
                    < POPULATION_THRESHOLD,
        },
{
    if results.len() == 1 {
        return Some(0);
    }
    let n = results.len();
    let mut i: usize = 0;
    while i < n
        invariant
            n == results@.len(),
            i <= n,
            forall|k: int|
                0 <= k < i ==> spec_population(#[trigger] results@[k]) < POPULATION_THRESHOLD,
        decreases n - i,
    {
        let pop: u32 = match &results[i].population {
            Some(p) => *p,
            None => 0,
        };
        if pop >= POPULATION_THRESHOLD {
            return Some(i);
        }
        i = i + 1;
    }
    None
}

} // verus!
