//! The persisted configuration: which provider is the default and which
//! credential each provider was given. The map is kept as an association
//! list in first-configured order, each provider present at most once.
//!
//! Reading and writing the configuration file is the caller's business; the
//! text it stores is produced and read back by `config_text`.

use crate::argparser::ProviderName;
use vstd::prelude::*;

verus! {

/// A provider-specific credential, tagged by the provider it belongs to.
#[derive(Debug, Clone)]
pub enum ProviderConfig {
    WeatherApi { api_key: String },
    OpenWeather { api_key: String },
}

impl ProviderConfig {
    pub open spec fn spec_api_key(self) -> Seq<char> {
        match self {
            ProviderConfig::WeatherApi { api_key } => api_key@,
            ProviderConfig::OpenWeather { api_key } => api_key@,
        }
    }

    pub fn api_key_text(&self) -> (r: &String)
        ensures
            r@ == self.spec_api_key(),
    {
        match self {
            ProviderConfig::WeatherApi { api_key } => api_key,
            ProviderConfig::OpenWeather { api_key } => api_key,
        }
    }
}

/// True when the credential's tag is the given provider's.
pub open spec fn spec_match_variant(name: ProviderName, cfg: ProviderConfig) -> bool {
    match (name, cfg) {
        (ProviderName::OpenWeather, ProviderConfig::OpenWeather { .. }) => true,
        (ProviderName::WeatherApi, ProviderConfig::WeatherApi { .. }) => true,
        _ => false,
    }
}

/// The credential of the given provider's own variant holding `api_key`.
pub open spec fn spec_config_of(name: ProviderName, api_key: String) -> ProviderConfig {
    match name {
        ProviderName::OpenWeather => ProviderConfig::OpenWeather { api_key },
        ProviderName::WeatherApi => ProviderConfig::WeatherApi { api_key },
    }
}

/// The ghost image of a credential: its tag and the credential text.
pub enum ProviderConfigV {
    WeatherApi { api_key: Seq<char> },
    OpenWeather { api_key: Seq<char> },
}

impl View for ProviderConfig {
    type V = ProviderConfigV;

    open spec fn view(&self) -> ProviderConfigV {
        match self {
            ProviderConfig::WeatherApi { api_key } => ProviderConfigV::WeatherApi {
                api_key: api_key@,
            },
            ProviderConfig::OpenWeather { api_key } => ProviderConfigV::OpenWeather {
                api_key: api_key@,
            },
        }
    }
}

/// The ghost image of a provider map.
pub open spec fn spec_entries_view(es: Seq<(ProviderName, ProviderConfig)>) -> Seq<
    (ProviderName, ProviderConfigV),
> {
    Seq::new(es.len(), |i: int| (es[i].0, es[i].1@))
}

/// The ghost image of the whole configuration.
pub struct ConfigV {
    pub default_provider: Option<ProviderName>,
    pub providers: Seq<(ProviderName, ProviderConfigV)>,
}

/// Each provider appears at most once.
pub open spec fn unique_names(entries: Seq<(ProviderName, ProviderConfigV)>) -> bool {
    forall|i: int, j: int|
        0 <= i < j < entries.len() ==> (#[trigger] entries[i]).0 != (#[trigger] entries[j]).0
}

/// The first credential stored under `name`, if any.
pub open spec fn spec_lookup(
    entries: Seq<(ProviderName, ProviderConfig)>,
    name: ProviderName,
) -> Option<ProviderConfig>
    decreases entries.len(),
{
    if entries.len() == 0 {
        None
    } else if entries[0].0 == name {
        Some(entries[0].1)
    } else {
        spec_lookup(entries.skip(1), name)
    }
}

/// The persisted configuration.
#[derive(Debug, Clone)]
pub struct Config {
    pub default_provider: Option<ProviderName>,
    pub providers: Vec<(ProviderName, ProviderConfig)>,
}

impl View for Config {
    type V = ConfigV;

    open spec fn view(&self) -> ConfigV {
        ConfigV {
            default_provider: self.default_provider,
            providers: spec_entries_view(self.providers@),
        }
    }
}

impl Config {
    /// Each provider is configured at most once.
    pub open spec fn wf(self) -> bool {
        forall|i: int, j: int|
            0 <= i < j < self.providers@.len() ==> (#[trigger] self.providers@[i]).0 != (
            #[trigger] self.providers@[j]).0
    }

    /// The credential stored for `name`, if any.
    pub fn get_provider(&self, name: &ProviderName) -> (r: Option<&ProviderConfig>)
        ensures
            match r {
                Some(c) => spec_lookup(self.providers@, *name) == Some(*c),
                None => spec_lookup(self.providers@, *name) is None,
            },
    {
        let n = self.providers.len();
        let mut i: usize = 0;
        proof {
            assert(self.providers@.skip(0) =~= self.providers@);
        }
        while i < n
            invariant
                n == self.providers@.len(),
                i <= n,
                spec_lookup(self.providers@.skip(i as int), *name) == spec_lookup(
                    self.providers@,
                    *name,
                ),
            decreases n - i,
        {
            proof {
                assert(self.providers@.skip(i as int)[0] == self.providers@[i as int]);
            }
            if self.providers[i].0 == *name {
                return Some(&self.providers[i].1);
            }
            proof {
                assert(self.providers@.skip(i as int).skip(1) =~= self.providers@.skip(
                    i as int + 1,
                ));
            }
            i = i + 1;
        }
        None
    }

    /// Stores `api_key` for `name`, as the configuration-update flow does: an
    /// absent provider is appended with its own variant; a present entry is
    /// overwritten only when its variant is the provider's own, and is left
    /// alone otherwise. The first configured provider becomes the default.
    pub fn set_provider_key(&mut self, name: &ProviderName, api_key: String)
        requires
            old(self).wf(),
            old(self).providers@.len() < usize::MAX,
        ensures
            final(self).wf(),
            final(self).default_provider == (if old(self).default_provider is None {
                Some(*name)
            } else {
                old(self).default_provider
            }),
            final(self).providers@.len() == (if spec_lookup(old(self).providers@, *name) is None {
                old(self).providers@.len() + 1
            } else {
                old(self).providers@.len()
            }),
            forall|i: int|
                0 <= i < old(self).providers@.len() ==> final(self).providers@[i] == (if (
                #[trigger] old(self).providers@[i]).0 == *name && spec_match_variant(
                    *name,
                    old(self).providers@[i].1,
                ) {
                    (*name, spec_config_of(*name, api_key))
                } else {
                    old(self).providers@[i]
                }),
            spec_lookup(old(self).providers@, *name) is None ==> final(self).providers@ == old(
                self,
            ).providers@.push((*name, spec_config_of(*name, api_key))),
    {
        let n = self.providers.len();
        let mut i: usize = 0;
        proof {
            assert(self.providers@.skip(0) =~= self.providers@);
        }
        while i < n
            invariant
                n == self.providers@.len(),
                i <= n,
                old(self).wf(),
                old(self).providers@.len() < usize::MAX,
                self.default_provider == old(self).default_provider,
                self.providers@ == old(self).providers@,
                spec_lookup(self.providers@.skip(i as int), *name) == spec_lookup(
                    self.providers@,
                    *name,
                ),
                forall|k: int| 0 <= k < i ==> (#[trigger] self.providers@[k]).0 != *name,
            decreases n - i,
        {
            proof {
                assert(self.providers@.skip(i as int)[0] == self.providers@[i as int]);
            }
            if self.providers[i].0 == *name {
                let overwrite = match (&name, &self.providers[i].1) {
                    (ProviderName::OpenWeather, ProviderConfig::OpenWeather { .. }) => true,
                    (ProviderName::WeatherApi, ProviderConfig::WeatherApi { .. }) => true,
                    _ => false,
                };
                if overwrite {
                    let entry = match name {
                        ProviderName::OpenWeather => ProviderConfig::OpenWeather { api_key },
                        ProviderName::WeatherApi => ProviderConfig::WeatherApi { api_key },
                    };
                    self.providers[i] = (*name, entry);
                }
                if self.default_provider.is_none() {
                    self.default_provider = Some(*name);
                }
                return ;
            }
            proof {
                assert(self.providers@.skip(i as int).skip(1) =~= self.providers@.skip(
                    i as int + 1,
                ));
            }
            i = i + 1;
        }
        let entry = match name {
            ProviderName::OpenWeather => ProviderConfig::OpenWeather { api_key },
            ProviderName::WeatherApi => ProviderConfig::WeatherApi { api_key },
        };
        self.providers.push((*name, entry));
        if self.default_provider.is_none() {
            self.default_provider = Some(*name);
        }
    }
}

impl Default for Config {
    /// The configuration before anything was stored: no default provider and
    /// no credentials.
    fn default() -> (r: Config)
        ensures
            r.default_provider is None,
            r.providers@.len() == 0,
            r.wf(),
    {
        Config { default_provider: None, providers: Vec::new() }
    }
}

/// Makes `provider_name` the configured default, leaving the stored
/// credentials as they were.
pub fn select_default_provider(config: &mut Config, provider_name: &ProviderName)
    ensures
        final(config).default_provider == Some(*provider_name),
        final(config).providers == old(config).providers,
{
    config.default_provider = Some(*provider_name);
}

} // verus!
