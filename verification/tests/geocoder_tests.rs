use weather::cli::choose_candidate;
use weather::cli::WeatherCliError;
use weather::geocoder::Geocoder;
use weather::geocoder::GeocoderError;
use weather::geocoder::GeocoderToponym;
use weather::geocoder::GeocoderResult;
use weather::input::evaluate_choice;
use weather::provider_builder::ProviderBuilderError;

fn candidate(name: &str, population: Option<u32>) -> GeocoderToponym {
    GeocoderToponym {
        name: name.to_string(),
        latitude: "51.5".to_string(),
        longitude: "-0.1".to_string(),
        population,
        country: "Nowhere".to_string(),
        admin1: Some("Region".to_string()),
        admin2: None,
        admin3: None,
        admin4: None,
    }
}

#[test]
fn test_search_url_without_country() {
    let url = Geocoder::search_url("Berlin", None);
    assert_eq!(
        url,
        "https://geocoding-api.open-meteo.com/v1/search?name=Berlin&count=20&language=en&format=json"
    );
}

#[test]
fn test_search_url_with_country() {
    let url = Geocoder::search_url("Berlin", Some("DE"));
    assert_eq!(
        url,
        "https://geocoding-api.open-meteo.com/v1/search?name=Berlin&count=20&language=en&format=json&countryCode=DE"
    );
}

#[test]
fn test_geocoder_empty_results_is_no_results() {
    // A 200 with an empty candidate list is a failure, never an empty success.
    let result = Geocoder::interpret_response(200, Ok(Vec::new()), String::new());
    assert!(matches!(result, Err(GeocoderError::NoResults)));
}

#[test]
fn test_geocoder_ok_keeps_order() {
    let list = vec![candidate("A", None), candidate("B", Some(5))];
    let result = Geocoder::interpret_response(200, Ok(list), String::new()).unwrap();
    assert_eq!(result.results.len(), 2);
    assert_eq!(result.results[0].name, "A");
    assert_eq!(result.results[1].name, "B");
}

#[test]
fn test_geocoder_non_200_keeps_body_and_status() {
    let result =
        Geocoder::interpret_response(429, Err("unused".to_string()), "slow down".to_string());
    match result {
        Err(GeocoderError::GeocoderError(body, status)) => {
            assert_eq!(body, "slow down");
            assert_eq!(status, 429);
        }
        _ => panic!("expected the body and the status code"),
    }
}

#[test]
fn test_geocoder_parse_failure() {
    let result = Geocoder::interpret_response(
        200,
        Err("invalid type".to_string()),
        String::new(),
    );
    assert!(matches!(result, Err(GeocoderError::ParseError(_))));
}

#[test]
fn test_single_candidate_is_used_directly() {
    // One entry: no disambiguation prompt; its coordinates are used.
    let results = vec![candidate("Solo", None)];
    assert_eq!(choose_candidate(&results), Some(0));
}

#[test]
fn test_three_small_candidates_need_input_and_index_picks_second() {
    // None meets the population threshold: external numeric input is needed,
    // and index 2 (1-based) selects the second listed candidate.
    let results = vec![
        candidate("A", Some(50_000)),
        candidate("B", Some(99_999)),
        candidate("C", None),
    ];
    assert_eq!(choose_candidate(&results), None);
    let idx = evaluate_choice("2", 1, results.len()).unwrap();
    assert_eq!(results[idx - 1].name, "B");
}

#[test]
fn test_population_threshold_autoselects_later_candidate() {
    // The third entry meets the threshold: auto-selected without prompting,
    // even though it is not first.
    let results = vec![
        candidate("A", Some(50_000)),
        candidate("B", None),
        candidate("C", Some(150_000)),
    ];
    assert_eq!(choose_candidate(&results), Some(2));
}

#[test]
fn test_choice_parsing() {
    assert_eq!(evaluate_choice("2", 1, 3), Some(2));
    assert_eq!(evaluate_choice("  3\n", 1, 3), Some(3));
    assert_eq!(evaluate_choice("+1", 1, 3), Some(1));
    assert_eq!(evaluate_choice("0", 1, 3), None);
    assert_eq!(evaluate_choice("4", 1, 3), None);
    assert_eq!(evaluate_choice("abc", 1, 3), None);
    assert_eq!(evaluate_choice("", 1, 3), None);
    assert_eq!(evaluate_choice("99999999999999999999999999", 1, 3), None);
}

#[test]
fn test_candidate_table_layout() {
    let g = GeocoderResult { results: vec![candidate("Athens", Some(664_046))] };
    let table = g.render_table();
    let lines: Vec<&str> = table.lines().collect();
    assert!(lines[0].starts_with(" No. | Name"));
    assert!(lines[1].chars().all(|c| c == '-'));
    assert!(lines[2].starts_with("   1 | Athens"));
    assert!(lines[2].contains("|     664046 |"));
    assert!(lines[2].contains("| Region"));
}

#[test]
fn test_cli_error_messages_wrap_component_messages() {
    let e = WeatherCliError::Geocoder(GeocoderError::NoResults);
    assert_eq!(e.message(), "Geocoder failed with an error: no results");
    let e2 = WeatherCliError::ProviderBuilder(ProviderBuilderError::NoDefaultProvider);
    assert_eq!(
        e2.message(),
        "Provider builder failed with an error: no provider selected. read --help"
    );
    let e3 = WeatherCliError::ProviderError(
        weather::providers::error::ProviderError::DateIsOutOfRange("open weather".to_string()),
    );
    assert_eq!(
        e3.message(),
        "Provider failed with an error: provided error is out of range for provider: open weather"
    );
}

#[test]
fn test_geocoder_error_messages() {
    let e = GeocoderError::FailedRequest("timed out".to_string());
    assert_eq!(e.message(), "failed to send request to geocoder, e=timed out");
    let e2 = GeocoderError::GeocoderError("busy".to_string(), 503);
    assert_eq!(e2.message(), "geocoder returned: busy. with status code 503");
    let e3 = GeocoderError::ParseError("bad json".to_string());
    assert_eq!(e3.message(), "failed to parse response body");
}
