//! The one place that maps a configured provider identity to a concrete
//! provider: pure selection over the persisted configuration, with each
//! failure classified.

use crate::configs::Config;
use crate::configs::ProviderConfig;
use crate::configs::spec_lookup;
use crate::providers::open_weather::OpenWeather;
use crate::providers::weather_api::WeatherApi;
use vstd::prelude::*;
use vstd::string::StringExecFns;

verus! {

/// Why no provider could be built.
#[derive(Debug, Clone, Copy, PartialEq, Eq, Structural)]
pub enum ProviderBuilderError {
    /// No default provider is selected.
    NoDefaultProvider,
    /// The selected provider has no stored configuration.
    ProvidersIsNotConfigured,
}

impl ProviderBuilderError {
    pub open spec fn spec_message(self) -> Seq<char> {
        match self {
            ProviderBuilderError::NoDefaultProvider => "no provider selected. read --help"@,
            ProviderBuilderError::ProvidersIsNotConfigured => "no config for provider. read --help"@,
        }
    }

    /// The user-facing message.
    pub fn message(&self) -> (r: String)
        ensures
            r@ == self.spec_message(),
    {
        match self {
            ProviderBuilderError::NoDefaultProvider => String::from_str(
                "no provider selected. read --help",
            ),
            ProviderBuilderError::ProvidersIsNotConfigured => String::from_str(
                "no config for provider. read --help",
            ),
        }
    }
}

pub struct ProviderBuilder;

/// The concrete provider the builder constructed. Callers needing only the
/// common `get_weather` capability can hold this behind their own trait
/// object.
pub enum BuiltProvider {
    OpenWeather(OpenWeather),
    WeatherApi(WeatherApi),
}

impl ProviderBuilder {
    /// Reads the configured default identity, looks its credential up, and
    /// constructs the provider that credential belongs to, injecting the
    /// key. No default selected and no credential stored are the two
    /// failures; nothing else can fail.
    pub fn build_provider(config: Config) -> (r: Result<BuiltProvider, ProviderBuilderError>)
        ensures
            match config.default_provider {
                None => r matches Err(e) && e == ProviderBuilderError::NoDefaultProvider,
                Some(p) => match spec_lookup(config.providers@, p) {
                    None => r matches Err(e) && e
                        == ProviderBuilderError::ProvidersIsNotConfigured,
                    Some(c) => match c {
                        ProviderConfig::OpenWeather { api_key } => r matches Ok(b)
                            && b matches BuiltProvider::OpenWeather(w) && w.spec_api_key()
                            == api_key@,
                        ProviderConfig::WeatherApi { api_key } => r matches Ok(b)
                            && b matches BuiltProvider::WeatherApi(w) && w.spec_api_key()
                            == api_key@,
                    },
                },
            },
    {
        let provider = match &config.default_provider {
            None => {
                return Err(ProviderBuilderError::NoDefaultProvider);
            },
            Some(p) => *p,
        };
        match config.get_provider(&provider) {
            None => Err(ProviderBuilderError::ProvidersIsNotConfigured),
            Some(cfg) => match cfg {
                ProviderConfig::OpenWeather { api_key } => Ok(
                    BuiltProvider::OpenWeather(OpenWeather::new(api_key.clone())),
                ),
                ProviderConfig::WeatherApi { api_key } => Ok(
                    BuiltProvider::WeatherApi(WeatherApi::new(api_key.clone())),
                ),
            },
        }
    }
}

} // verus!
