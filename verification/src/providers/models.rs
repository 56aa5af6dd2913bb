//! The wire-shaped payloads each provider returns, as the normalization
//! layer reads them. Every decimal quantity is carried in thousandths of its
//! unit (a fixed-point reading of the wire's decimal numbers), so that the
//! unit arithmetic downstream is exact.

use vstd::prelude::*;

verus! {

/// WeatherApi's successful response: a forecast of (here always) one day.
#[derive(Debug)]
pub struct WeatherApiReport {
    pub forecast: WeatherApiForecast,
}

#[derive(Debug)]
pub struct WeatherApiForecast {
    pub forecastday: Vec<WeatherApiForecastDay>,
}

#[derive(Debug)]
pub struct WeatherApiForecastDay {
    pub date: String,
    pub day: WeatherApiDay,
}

/// One day as WeatherApi reports it. Temperatures are in thousandths of a
/// degree Celsius, wind in thousandths of a km/h, humidity and rain chance
/// in thousandths of a percent.
#[derive(Debug)]
pub struct WeatherApiDay {
    pub maxtemp_c: i64,
    pub mintemp_c: i64,
    pub avgtemp_c: i64,
    pub maxwind_kph: i64,
    pub avghumidity: i64,
    pub daily_chance_of_rain: i64,
    pub condition: WeatherApiCondition,
}

#[derive(Debug)]
pub struct WeatherApiCondition {
    pub text: String,
}

/// WeatherApi's structured error body.
#[derive(Debug)]
pub struct WeatherApiForecastError {
    pub message: String,
    pub code: i32,
}

/// OpenWeather's successful response: a list of daily aggregates.
#[derive(Debug)]
pub struct OpenWeatherReport {
    pub daily: Vec<OpenWeatherDaily>,
}

/// One daily aggregate as OpenWeather reports it, under metric units: a Unix
/// timestamp, temperatures in thousandths of a degree Celsius, wind in
/// thousandths of a m/s, humidity and precipitation probability in
/// thousandths of their unit.
#[derive(Debug)]
pub struct OpenWeatherDaily {
    pub dt: i64,
    pub summary: String,
    pub temp: OpeWeatherTemperature,
    pub humidity: i64,
    pub wind_speed: i64,
    pub wind_deg: i32,
    pub pop: i64,
}

#[derive(Debug)]
pub struct OpeWeatherTemperature {
    pub day: i64,
    pub min: i64,
    pub max: i64,
}

} // verus!
