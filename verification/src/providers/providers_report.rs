//! The normalized forecast every provider converts into, and the conversions
//! from each provider's own payload. Quantities are carried in thousandths
//! of their unit; wind speed is always m/s here, whatever the source
//! reported in.

use crate::providers::error::ProviderError;
use crate::providers::models::OpenWeatherDaily;
use crate::providers::models::WeatherApiDay;
use crate::providers::models::WeatherApiReport;
use crate::text::spec_digit_char;
use crate::text::spec_i64_dec;
use crate::text::spec_u64_dec;
use crate::text::digit_char;
use crate::text::i64_dec;
use crate::text::u64_dec;
use vstd::prelude::*;
use vstd::string::StringExecFns;

verus! {

/// The normalized forecast for one day. Temperatures are thousandths of a
/// degree Celsius, wind speed thousandths of a m/s, precipitation and
/// humidity thousandths of their reported unit; wind direction is degrees,
/// absent when the source provider does not report one.
#[derive(Debug)]
pub struct ProvidersReport {
    pub min_temp: i64,
    pub max_temp: i64,
    pub avg_temp: i64,
    pub pop: i64,
    pub summary: String,
    pub wind_speed: i64,
    pub humidity: i64,
    pub wind_direction: Option<i32>,
}

/// The wind magnitudes whose unit conversion stays within the machine word.
pub open spec fn wind_kph_in_range(w: int) -> bool {
    -9_000_000_000_000_000 <= w <= 9_000_000_000_000_000
}

/// km/h to m/s in thousandths: multiply by 1000 and divide by 3600,
/// truncating toward zero.
pub open spec fn spec_kph_to_mps_milli(w: int) -> int {
    if w >= 0 {
        (w * 1000) / 3600
    } else {
        -(((-w) * 1000) / 3600)
    }
}

pub fn kph_to_mps_milli(w: i64) -> (r: i64)
    requires
        wind_kph_in_range(w as int),
    ensures
        r as int == spec_kph_to_mps_milli(w as int),
{
    if w >= 0 {
        let prod: u64 = (w as u64) * 1000;
        let q: u64 = prod / 3600;
        proof {
            vstd::arithmetic::div_mod::lemma_div_is_ordered(
                prod as int,
                9_000_000_000_000_000_000,
                3600,
            );
        }
        q as i64
    } else {
        let mag: u64 = (-w) as u64;
        let prod: u64 = mag * 1000;
        let q: u64 = prod / 3600;
        proof {
            vstd::arithmetic::div_mod::lemma_div_is_ordered(
                prod as int,
                9_000_000_000_000_000_000,
                3600,
            );
        }
        -(q as i64)
    }
}

/// True when `out` is the normalization of the WeatherApi day `day`: the
/// values pass through, wind is converted from km/h to m/s, and wind
/// direction is absent because this provider never reports one.
pub open spec fn spec_report_of_weather_api_day(out: ProvidersReport, day: WeatherApiDay) -> bool {
    &&& out.max_temp == day.maxtemp_c
    &&& out.min_temp == day.mintemp_c
    &&& out.avg_temp == day.avgtemp_c
    &&& out.pop == day.daily_chance_of_rain
    &&& out.summary@ == day.condition.text@
    &&& out.wind_speed as int == spec_kph_to_mps_milli(day.maxwind_kph as int)
    &&& out.wind_direction is None
    &&& out.humidity == day.avghumidity
}

/// True when `out` is the normalization of the OpenWeather daily entry `d`:
/// everything passes through unchanged (the provider already reports metric
/// units and m/s) and wind direction is taken from `wind_deg`.
pub open spec fn spec_report_of_open_weather_daily(out: ProvidersReport, d: OpenWeatherDaily) -> bool {
    &&& out.max_temp == d.temp.max
    &&& out.min_temp == d.temp.min
    &&& out.avg_temp == d.temp.day
    &&& out.pop == d.pop
    &&& out.summary@ == d.summary@
    &&& out.wind_speed == d.wind_speed
    &&& out.humidity == d.humidity
    &&& out.wind_direction == Some(d.wind_deg)
}

/// What converting a whole WeatherApi report yields: the first (and only)
/// forecast day normalized, or the conversion error when the day list is
/// empty.
pub open spec fn spec_weather_api_outcome(
    value: WeatherApiReport,
    r: Result<ProvidersReport, ProviderError>,
) -> bool {
    match r {
        Ok(out) => value.forecast.forecastday@.len() > 0 && spec_report_of_weather_api_day(
            out,
            value.forecast.forecastday@[0].day,
        ),
        Err(e) => value.forecast.forecastday@.len() == 0 && (e matches ProviderError::ConvertionError(
            p,
            m,
        ) && p@ == "weather api"@ && m@ == "failed to get forecast"@),
    }
}

impl ProvidersReport {
    /// Normalizes a WeatherApi report, taking its single forecast day.
    pub fn try_from_weather_api(value: WeatherApiReport) -> (r: Result<
        ProvidersReport,
        ProviderError,
    >)
        requires
            value.forecast.forecastday@.len() > 0 ==> wind_kph_in_range(
                value.forecast.forecastday@[0].day.maxwind_kph as int,
            ),
        ensures
            spec_weather_api_outcome(value, r),
    {
        let mut value = value;
        if value.forecast.forecastday.len() == 0 {
            return Err(
                ProviderError::ConvertionError(
                    String::from_str("weather api"),
                    String::from_str("failed to get forecast"),
                ),
            );
        }
        let first = value.forecast.forecastday.remove(0);
        let day = first.day;
        let wind = kph_to_mps_milli(day.maxwind_kph);
        Ok(
            ProvidersReport {
                max_temp: day.maxtemp_c,
                min_temp: day.mintemp_c,
                avg_temp: day.avgtemp_c,
                pop: day.daily_chance_of_rain,
                summary: day.condition.text,
                wind_speed: wind,
                wind_direction: None,
                humidity: day.avghumidity,
            },
        )
    }

    /// Normalizes one OpenWeather daily entry; this conversion cannot fail.
    pub fn try_from_open_weather(value: OpenWeatherDaily) -> (r: Result<
        ProvidersReport,
        ProviderError,
    >)
        ensures
            r matches Ok(out) && spec_report_of_open_weather_daily(out, value),
    {
        Ok(
            ProvidersReport {
                max_temp: value.temp.max,
                min_temp: value.temp.min,
                avg_temp: value.temp.day,
                pop: value.pop,
                summary: value.summary,
                wind_speed: value.wind_speed,
                humidity: value.humidity,
                wind_direction: Some(value.wind_deg),
            },
        )
    }
}

/// The tenths value shown for a quantity in thousandths: rounded to the
/// nearest tenth, ties away from zero.
pub open spec fn spec_tenths_of(v: int) -> int {
    if v >= 0 {
        (v + 50) / 100
    } else {
        -((-v + 50) / 100)
    }
}

/// One-decimal rendering of a quantity in thousandths.
pub open spec fn spec_one_decimal(v: int) -> Seq<char> {
    let t = spec_tenths_of(v);
    let a = if t < 0 {
        -t
    } else {
        t
    };
    (if t < 0 {
        seq!['-']
    } else {
        Seq::<char>::empty()
    }) + spec_u64_dec((a / 10) as nat) + seq!['.', spec_digit_char(a % 10)]
}

pub fn one_decimal(v: i64) -> (r: String)
    requires
        -9_000_000_000_000_000 <= v <= 9_000_000_000_000_000,
    ensures
        r@ == spec_one_decimal(v as int),
{
    let mag: u64 = if v >= 0 {
        v as u64
    } else {
        (-v) as u64
    };
    let t: u64 = (mag + 50) / 100;
    let mut s = String::new();
    if v < 0 && t > 0 {
        s.push('-');
    }
    let digits = u64_dec(t / 10);
    s.append(digits.as_str());
    s.push('.');
    s.push(digit_char(t % 10));
    proof {
        assert(s@ =~= spec_one_decimal(v as int));
    }
    s
}

impl ProvidersReport {
    /// The quantities are within the range the fixed-point renderer accepts.
    pub open spec fn display_in_range(self) -> bool {
        &&& -9_000_000_000_000_000 <= self.min_temp <= 9_000_000_000_000_000
        &&& -9_000_000_000_000_000 <= self.max_temp <= 9_000_000_000_000_000
        &&& -9_000_000_000_000_000 <= self.avg_temp <= 9_000_000_000_000_000
        &&& -9_000_000_000_000_000 <= self.pop <= 9_000_000_000_000_000
        &&& -9_000_000_000_000_000 <= self.humidity <= 9_000_000_000_000_000
        &&& -9_000_000_000_000_000 <= self.wind_speed <= 9_000_000_000_000_000
    }

    /// The printed report, line by line, with one decimal per quantity.
    pub open spec fn spec_render(self) -> Seq<char> {
        "Weather Report:\nSummary       : "@ + self.summary@ + "\nTemperature   : min "@
            + spec_one_decimal(self.min_temp as int) + "\u{b0}C | max "@ + spec_one_decimal(
            self.max_temp as int,
        ) + "\u{b0}C | avg "@ + spec_one_decimal(self.avg_temp as int)
            + "\u{b0}C\nPrecipitation : "@ + spec_one_decimal(self.pop as int)
            + "%\nHumidity      : "@ + spec_one_decimal(self.humidity as int)
            + "%\nWind          : "@ + spec_one_decimal(self.wind_speed as int) + " m/sec ("@ + (
        match self.wind_direction {
            Some(d) => spec_i64_dec(d as int) + "\u{b0}"@,
            None => "N/A"@,
        }) + ")"@
    }

    pub fn render(&self) -> (r: String)
        requires
            self.display_in_range(),
        ensures
            r@ == self.spec_render(),
    {
        let mut s = String::from_str("Weather Report:\nSummary       : ");
        s.append(self.summary.as_str());
        s.append("\nTemperature   : min ");
        let mn = one_decimal(self.min_temp);
        s.append(mn.as_str());
        s.append("\u{b0}C | max ");
        let mx = one_decimal(self.max_temp);
        s.append(mx.as_str());
        s.append("\u{b0}C | avg ");
        let av = one_decimal(self.avg_temp);
        s.append(av.as_str());
        s.append("\u{b0}C\nPrecipitation : ");
        let pp = one_decimal(self.pop);
        s.append(pp.as_str());
        s.append("%\nHumidity      : ");
        let hm = one_decimal(self.humidity);
        s.append(hm.as_str());
        s.append("%\nWind          : ");
        let ws = one_decimal(self.wind_speed);
        s.append(ws.as_str());
        s.append(" m/sec (");
        match &self.wind_direction {
            Some(d) => {
                let dd = i64_dec(*d as i64);
                s.append(dd.as_str());
                s.append("\u{b0}");
            },
            None => {
                s.append("N/A");
            },
        }
        s.append(")");
        proof {
            assert(s@ =~= self.spec_render());
        }
        s
    }
}

} // verus!
