use weather::argparser::ProviderName;
use weather::configs::Config;
use weather::configs::ProviderConfig;
use weather::dates::Date;
use weather::provider_builder::BuiltProvider;
use weather::provider_builder::ProviderBuilder;
use weather::provider_builder::ProviderBuilderError;
use weather::providers::error::ProviderError;
use weather::providers::models::OpeWeatherTemperature;
use weather::providers::models::OpenWeatherDaily;
use weather::providers::models::OpenWeatherReport;
use weather::providers::models::WeatherApiCondition;
use weather::providers::models::WeatherApiDay;
use weather::providers::models::WeatherApiForecast;
use weather::providers::models::WeatherApiForecastDay;
use weather::providers::models::WeatherApiForecastError;
use weather::providers::models::WeatherApiReport;
use weather::providers::open_weather::OpenWeather;
use weather::providers::weather_api::WeatherApi;
use weather::providers::ProvidersReport;

fn make_test_config(
    default_provider: Option<ProviderName>,
    configured_provider: Option<(ProviderName, ProviderConfig)>,
) -> Config {
    let mut providers = Vec::new();
    if let Some((name, config)) = configured_provider {
        providers.push((name, config));
    }
    Config { default_provider, providers }
}

#[test]
fn test_provider_name_display() {
    assert_eq!(ProviderName::WeatherApi.display_name(), "WeatherApi");
    assert_eq!(ProviderName::OpenWeather.display_name(), "OpenWeather");
}

#[test]
fn test_build_provider_open_weather_success() {
    let config = make_test_config(
        Some(ProviderName::OpenWeather),
        Some((ProviderName::OpenWeather, ProviderConfig::OpenWeather {
            api_key: "ow_key".to_string(),
        })),
    );
    let result = ProviderBuilder::build_provider(config);
    assert!(result.is_ok());
    assert!(matches!(result, Ok(BuiltProvider::OpenWeather(_))));
}

#[test]
fn test_build_provider_weather_api_success() {
    let config = make_test_config(
        Some(ProviderName::WeatherApi),
        Some((ProviderName::WeatherApi, ProviderConfig::WeatherApi {
            api_key: "wa_key".to_string(),
        })),
    );
    let result = ProviderBuilder::build_provider(config);
    assert!(result.is_ok());
    assert!(matches!(result, Ok(BuiltProvider::WeatherApi(_))));
}

#[test]
fn test_build_provider_no_default_provider() {
    let config = make_test_config(
        None,
        Some((ProviderName::WeatherApi, ProviderConfig::WeatherApi {
            api_key: "wa_key".to_string(),
        })),
    );
    let result = ProviderBuilder::build_provider(config);
    assert!(matches!(result, Err(ProviderBuilderError::NoDefaultProvider)));
}

#[test]
fn test_build_provider_not_configured() {
    // Default is OpenWeather, but only WeatherApi is configured
    let config = make_test_config(
        Some(ProviderName::OpenWeather),
        Some((ProviderName::WeatherApi, ProviderConfig::WeatherApi {
            api_key: "wa_key".to_string(),
        })),
    );
    let result = ProviderBuilder::build_provider(config);
    assert!(matches!(result, Err(ProviderBuilderError::ProvidersIsNotConfigured)));
}

#[test]
fn test_prepare_url() {
    let provider = OpenWeather::new("test_key".to_string());
    let url = provider.prepare_url("40.71", "-74.01");
    let expected = "https://api.openweathermap.org/data/3.0/onecall?lat=40.71&lon=-74.01&appid=test_key&exclude=hourly,minutely&units=metric";
    assert_eq!(url, expected);
}

fn today() -> Date {
    let now = chrono::Local::now().naive_local().date();
    Date {
        year: chrono::Datelike::year(&now),
        month: chrono::Datelike::month(&now) as u8,
        day: chrono::Datelike::day(&now) as u8,
    }
}

#[test]
fn test_prepare_url_for_future_date_uses_forecast() {
    let provider = WeatherApi::new("test_key".to_string());
    let future_date = Date { year: 9999, month: 1, day: 1 };
    let url = provider.prepare_url("51.5", "-0.1", &future_date, &today());
    assert!(url.contains("forecast.json"));
    assert!(url.contains("q=51.5%2C-0.1"));
    assert!(url.contains("dt=9999-01-01"));
}

#[test]
fn test_prepare_url_for_historical_date_uses_history() {
    let provider = WeatherApi::new("test_key".to_string());
    // Use a date guaranteed to be in the past
    let past_date = Date { year: 2000, month: 1, day: 1 };
    let url = provider.prepare_url("51.5", "-0.1", &past_date, &today());
    assert!(url.contains("history.json"));
    assert!(url.contains("dt=2000-01-01"));
}

#[test]
fn test_prepare_url_today_is_forecast() {
    // The boundary date, today itself, must use the forecast endpoint.
    let provider = WeatherApi::new("test_key".to_string());
    let d = Date { year: 2026, month: 6, day: 15 };
    let url = provider.prepare_url("1.5", "2.5", &d, &d);
    assert!(url.contains("forecast.json"));
    let yesterday = Date { year: 2026, month: 6, day: 14 };
    let url2 = provider.prepare_url("1.5", "2.5", &yesterday, &d);
    assert!(url2.contains("history.json"));
}

fn sample_weather_api_report(maxwind_kph: i64) -> WeatherApiReport {
    WeatherApiReport {
        forecast: WeatherApiForecast {
            forecastday: vec![WeatherApiForecastDay {
                date: "2023-01-01".to_string(),
                day: WeatherApiDay {
                    maxtemp_c: 25_000,
                    mintemp_c: 15_000,
                    avgtemp_c: 20_000,
                    maxwind_kph,
                    avghumidity: 60_000,
                    daily_chance_of_rain: 10_000,
                    condition: WeatherApiCondition { text: "Partly cloudy".to_string() },
                },
            }],
        },
    }
}

#[test]
fn test_try_from_weather_api_report() {
    // 36 kph = 10 m/sec
    let api_report = sample_weather_api_report(36_000);
    let report = ProvidersReport::try_from_weather_api(api_report).unwrap();
    assert_eq!(report.max_temp, 25_000);
    assert_eq!(report.min_temp, 15_000);
    assert_eq!(report.avg_temp, 20_000);
    // kph to m/sec conversion: 36 kph * 1000 / 3600 = 10 m/sec, exactly
    assert_eq!(report.wind_speed, 10_000);
    // this provider never reports a wind direction
    assert_eq!(report.wind_direction, None);
    assert_eq!(report.summary, "Partly cloudy");
}

#[test]
fn test_try_from_weather_api_empty_days_is_conversion_error() {
    let api_report = WeatherApiReport {
        forecast: WeatherApiForecast { forecastday: Vec::new() },
    };
    let result = ProvidersReport::try_from_weather_api(api_report);
    match result {
        Err(ProviderError::ConvertionError(p, m)) => {
            assert_eq!(p, "weather api");
            assert_eq!(m, "failed to get forecast");
        }
        _ => panic!("expected a conversion error"),
    }
}

fn sample_open_weather_daily(dt: i64, summary: &str) -> OpenWeatherDaily {
    OpenWeatherDaily {
        dt,
        summary: summary.to_string(),
        temp: OpeWeatherTemperature { day: 18_000, min: 12_000, max: 22_000 },
        humidity: 65_000,
        wind_speed: 7_500,
        wind_deg: 90,
        pop: 100,
    }
}

#[test]
fn test_try_from_open_weather_daily() {
    let ow_daily = sample_open_weather_daily(1672531200, "Clear sky");
    let report = ProvidersReport::try_from_open_weather(ow_daily).unwrap();
    assert_eq!(report.max_temp, 22_000);
    assert_eq!(report.min_temp, 12_000);
    assert_eq!(report.avg_temp, 18_000);
    assert_eq!(report.pop, 100);
    assert_eq!(report.summary, "Clear sky");
    assert_eq!(report.wind_speed, 7_500);
    assert_eq!(report.wind_direction, Some(90));
}

#[test]
fn test_report_display_with_wind_direction() {
    let report = ProvidersReport {
        min_temp: 10_000,
        max_temp: 20_000,
        avg_temp: 15_000,
        pop: 50_500,
        summary: "Sunny".to_string(),
        wind_speed: 5_500,
        humidity: 70_000,
        wind_direction: Some(180),
    };
    let expected = "\
Weather Report:\n\
Summary       : Sunny\n\
Temperature   : min 10.0°C | max 20.0°C | avg 15.0°C\n\
Precipitation : 50.5%\n\
Humidity      : 70.0%\n\
Wind          : 5.5 m/sec (180°)";
    assert_eq!(report.render(), expected);
}

#[test]
fn test_report_display_without_wind_direction() {
    let report = ProvidersReport {
        min_temp: -1_500,
        max_temp: 2_000,
        avg_temp: 0,
        pop: 0,
        summary: "Snow".to_string(),
        wind_speed: 10_000,
        humidity: 80_000,
        wind_direction: None,
    };
    let rendered = report.render();
    assert!(rendered.contains("min -1.5°C"));
    assert!(rendered.contains("Wind          : 10.0 m/sec (N/A)"));
}

// 1672531200 = 2023-01-01, 1672617600 = 2023-01-02, 1672704000 = 2023-01-03,
// all at 00:00:00 UTC.
#[test]
fn test_open_weather_day_selection_out_of_order() {
    let report = OpenWeatherReport {
        daily: vec![
            sample_open_weather_daily(1672704000, "third"),
            sample_open_weather_daily(1672531200, "first"),
            sample_open_weather_daily(1672617600, "second"),
        ],
    };
    let date = Date { year: 2023, month: 1, day: 2 };
    let result =
        OpenWeather::interpret_response(200, Ok(report), String::new(), &date).unwrap();
    assert_eq!(result.summary, "second");
}

#[test]
fn test_open_weather_no_matching_day_is_out_of_range() {
    let report = OpenWeatherReport {
        daily: vec![
            sample_open_weather_daily(1672531200, "first"),
            sample_open_weather_daily(1672617600, "second"),
        ],
    };
    let date = Date { year: 2023, month: 2, day: 1 };
    let result = OpenWeather::interpret_response(200, Ok(report), String::new(), &date);
    match result {
        Err(ProviderError::DateIsOutOfRange(m)) => assert_eq!(m, "open weather"),
        _ => panic!("expected a date-out-of-range error"),
    }
}

#[test]
fn test_open_weather_non_200_surfaces_body_verbatim() {
    let date = Date { year: 2023, month: 1, day: 1 };
    let result = OpenWeather::interpret_response(
        401,
        Err("unused".to_string()),
        "{\"cod\":401, \"message\": \"Invalid API key\"}".to_string(),
        &date,
    );
    match result {
        Err(ProviderError::ProviderMsgError(m)) => {
            assert_eq!(m, "{\"cod\":401, \"message\": \"Invalid API key\"}")
        }
        _ => panic!("expected the body as a provider message"),
    }
}

#[test]
fn test_open_weather_parse_failure_is_parse_error() {
    let date = Date { year: 2023, month: 1, day: 1 };
    let result = OpenWeather::interpret_response(
        200,
        Err("missing field daily".to_string()),
        String::new(),
        &date,
    );
    assert!(matches!(result, Err(ProviderError::ParseError(_))));
}

#[test]
fn test_weather_api_ok_normalizes() {
    let result = WeatherApi::interpret_response(
        200,
        Ok(sample_weather_api_report(36_000)),
        Err("unused".to_string()),
    )
    .unwrap();
    assert_eq!(result.wind_speed, 10_000);
    assert_eq!(result.wind_direction, None);
}

#[test]
fn test_weather_api_non_200_uses_structured_message() {
    let err_body = WeatherApiForecastError { message: "API key is invalid.".to_string(), code: 2008 };
    let result = WeatherApi::interpret_response(403, Err("unused".to_string()), Ok(err_body));
    match result {
        Err(ProviderError::ProviderMsgError(m)) => assert_eq!(m, "API key is invalid."),
        _ => panic!("expected the structured message"),
    }
}

#[test]
fn test_weather_api_undecodable_error_body_is_parse_error() {
    let result = WeatherApi::interpret_response(
        500,
        Err("unused".to_string()),
        Err("expected struct".to_string()),
    );
    assert!(matches!(result, Err(ProviderError::ParseError(_))));
}

#[test]
fn test_provider_error_messages() {
    assert_eq!(
        ProviderError::RequestFailed("boom".to_string()).message(),
        "request failed: boom"
    );
    assert_eq!(
        ProviderError::ConvertionError("weather api".to_string(), "no day".to_string()).message(),
        "failed to convert to common format response from provider: weather api, e: no day"
    );
}
