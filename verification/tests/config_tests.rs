use weather::argparser::ProviderName;
use weather::config_text::config_from_text;
use weather::config_text::parse_config_text;
use weather::configs::select_default_provider;
use weather::configs::Config;
use weather::configs::ProviderConfig;

fn key_of(cfg: &ProviderConfig) -> &str {
    match cfg {
        ProviderConfig::WeatherApi { api_key } => api_key,
        ProviderConfig::OpenWeather { api_key } => api_key,
    }
}

#[test]
fn test_config_initial_load() {
    let config = config_from_text("");
    assert!(config.default_provider.is_none());
    assert!(config.providers.is_empty());
}

#[test]
fn test_config_garbage_text_loads_default() {
    let config = config_from_text("not a config at all\n[[");
    assert!(config.default_provider.is_none());
    assert!(config.providers.is_empty());
}

#[test]
fn test_select_default_provider() {
    let mut config = Config::default();
    select_default_provider(&mut config, &ProviderName::WeatherApi);
    assert_eq!(config.default_provider, Some(ProviderName::WeatherApi));
    select_default_provider(&mut config, &ProviderName::OpenWeather);
    assert_eq!(config.default_provider, Some(ProviderName::OpenWeather));
    assert!(config.providers.is_empty());
}

#[test]
fn test_config_text_roundtrip_preserves_everything() {
    let config = Config {
        default_provider: Some(ProviderName::WeatherApi),
        providers: vec![
            (ProviderName::WeatherApi, ProviderConfig::WeatherApi {
                api_key: "plain_key".to_string(),
            }),
            (ProviderName::OpenWeather, ProviderConfig::OpenWeather {
                api_key: "we\"ird\\key\nwith lines".to_string(),
            }),
        ],
    };
    let text = config.to_config_text();
    let back = parse_config_text(&text).expect("the writer's output must read back");
    assert_eq!(back.default_provider, Some(ProviderName::WeatherApi));
    assert_eq!(back.providers.len(), 2);
    assert_eq!(back.providers[0].0, ProviderName::WeatherApi);
    assert_eq!(key_of(&back.providers[0].1), "plain_key");
    assert!(matches!(back.providers[0].1, ProviderConfig::WeatherApi { .. }));
    assert_eq!(back.providers[1].0, ProviderName::OpenWeather);
    assert_eq!(key_of(&back.providers[1].1), "we\"ird\\key\nwith lines");
    assert!(matches!(back.providers[1].1, ProviderConfig::OpenWeather { .. }));
}

#[test]
fn test_config_text_shape() {
    let config = Config {
        default_provider: Some(ProviderName::OpenWeather),
        providers: vec![(ProviderName::OpenWeather, ProviderConfig::OpenWeather {
            api_key: "abc".to_string(),
        })],
    };
    let text = config.to_config_text();
    assert_eq!(
        text,
        "default_provider = \"OpenWeather\"\n[providers.OpenWeather]\ntype = \"openweather\"\napi_key = \"abc\"\n"
    );
}

#[test]
fn test_config_text_duplicate_provider_is_refused() {
    let text = "[providers.OpenWeather]\ntype = \"openweather\"\napi_key = \"a\"\n\
                [providers.OpenWeather]\ntype = \"openweather\"\napi_key = \"b\"\n";
    assert!(parse_config_text(text).is_none());
}

#[test]
fn test_set_provider_key_appends_and_sets_default() {
    let mut config = Config::default();
    config.set_provider_key(&ProviderName::WeatherApi, "k1".to_string());
    assert_eq!(config.default_provider, Some(ProviderName::WeatherApi));
    assert_eq!(config.providers.len(), 1);
    assert_eq!(key_of(&config.providers[0].1), "k1");

    // A second provider does not steal the default.
    config.set_provider_key(&ProviderName::OpenWeather, "k2".to_string());
    assert_eq!(config.default_provider, Some(ProviderName::WeatherApi));
    assert_eq!(config.providers.len(), 2);

    // Overwriting an existing entry of the matching variant replaces the key.
    config.set_provider_key(&ProviderName::WeatherApi, "k3".to_string());
    assert_eq!(config.providers.len(), 2);
    assert_eq!(key_of(&config.providers[0].1), "k3");
}

#[test]
fn test_set_provider_key_leaves_mismatched_variant_alone() {
    // An entry stored under one provider's name with the other's variant is
    // not overwritten, as the update flow only touches its own variant.
    let mut config = Config {
        default_provider: Some(ProviderName::OpenWeather),
        providers: vec![(ProviderName::OpenWeather, ProviderConfig::WeatherApi {
            api_key: "old".to_string(),
        })],
    };
    config.set_provider_key(&ProviderName::OpenWeather, "new".to_string());
    assert_eq!(config.providers.len(), 1);
    assert_eq!(key_of(&config.providers[0].1), "old");
    assert!(matches!(config.providers[0].1, ProviderConfig::WeatherApi { .. }));
}

#[test]
fn test_get_provider_finds_first_match() {
    let config = Config {
        default_provider: None,
        providers: vec![(ProviderName::WeatherApi, ProviderConfig::WeatherApi {
            api_key: "k".to_string(),
        })],
    };
    assert!(config.get_provider(&ProviderName::WeatherApi).is_some());
    assert!(config.get_provider(&ProviderName::OpenWeather).is_none());
}
