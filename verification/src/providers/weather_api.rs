//! The WeatherApi provider: date-dependent endpoint selection, the
//! percent-encoded location, and the classification of what the call
//! returned, including this provider's structured error envelope.

use crate::dates::Date;
use crate::dates::spec_format_date;
use crate::dates::format_date;
use crate::providers::error::ProviderError;
use crate::providers::error::ProviderResult;
use crate::providers::models::WeatherApiForecastError;
use crate::providers::models::WeatherApiReport;
use crate::providers::providers_report::ProvidersReport;
use crate::providers::providers_report::spec_weather_api_outcome;
use crate::providers::providers_report::wind_kph_in_range;
use crate::text::spec_percent_encode;
use crate::text::percent_encode;
use vstd::prelude::*;
use vstd::string::StringExecFns;
use vstd::utf8::is_ascii_chars;

verus! {

pub struct WeatherApi {
    api_key: String,
}

/// Which endpoint a requested date goes to: strictly past dates to the
/// history endpoint, today and future dates to the forecast endpoint.
pub open spec fn spec_endpoint(date: Date, today: Date) -> Seq<char> {
    if date.spec_before(today) {
        "history.json"@
    } else {
        "forecast.json"@
    }
}

impl WeatherApi {
    pub closed spec fn spec_api_key(self) -> Seq<char> {
        self.api_key@
    }

    pub fn new(api_key: String) -> (r: Self)
        ensures
            r.spec_api_key() == api_key@,
    {
        Self { api_key }
    }

    /// The request URL: the endpoint picked against `today`, the location as
    /// a percent-encoded `lat,lon` pair, a one-day window on the requested
    /// date, and the key.
    pub open spec fn spec_prepare_url(
        self,
        lat: Seq<char>,
        lon: Seq<char>,
        date: Date,
        today: Date,
    ) -> Seq<char> {
        "https://api.weatherapi.com/v1/"@ + spec_endpoint(date, today) + "?q="@
            + spec_percent_encode(lat + seq![','] + lon) + "&days=1&dt="@ + spec_format_date(date)
            + "&key="@ + self.spec_api_key()
    }

    /// Builds the request URL against an explicitly given current date, so
    /// the endpoint choice is fixed by the two dates alone.
    pub fn prepare_url(&self, lat: &str, lon: &str, date: &Date, today: &Date) -> (r: String)
        requires
            is_ascii_chars(lat@),
            is_ascii_chars(lon@),
            date.wf(),
            0 <= date.year <= 9999,
        ensures
            r@ == self.spec_prepare_url(lat@, lon@, *date, *today),
    {
        let mut s = String::from_str("https://api.weatherapi.com/v1/");
        if date.before(today) {
            s.append("history.json");
        } else {
            s.append("forecast.json");
        }
        s.append("?q=");
        let mut loc = String::from_str(lat);
        loc.push(',');
        loc.append(lon);
        proof {
            assert(loc@ =~= lat@ + seq![','] + lon@);
            assert forall|i: int| 0 <= i < loc@.len() implies '\0' <= #[trigger] loc@[i]
                <= '\u{7f}' by {
                if i < lat@.len() {
                    assert(loc@[i] == lat@[i]);
                } else if i == lat@.len() {
                    assert(loc@[i] == ',');
                } else {
                    assert(loc@[i] == lon@[i - lat@.len() - 1]);
                }
            }
            assert(is_ascii_chars(loc@));
        }
        let enc = percent_encode(loc.as_str());
        s.append(enc.as_str());
        s.append("&days=1&dt=");
        let ds = format_date(date);
        s.append(ds.as_str());
        s.append("&key=");
        s.append(self.api_key.as_str());
        proof {
            assert(s@ =~= self.spec_prepare_url(lat@, lon@, *date, *today));
        }
        s
    }

    /// What a completed WeatherApi call yields. On 200 the report's single
    /// forecast day is normalized (an empty day list is a conversion error).
    /// On any other status this provider guarantees a structured
    /// `{message, code}` body, whose message is surfaced; a body that does
    /// not decode either way is a parse error.
    pub fn interpret_response(
        status: u16,
        payload: Result<WeatherApiReport, String>,
        error_payload: Result<WeatherApiForecastError, String>,
    ) -> (r: ProviderResult<ProvidersReport>)
        requires
            match payload {
                Ok(rep) => rep.forecast.forecastday@.len() > 0 ==> wind_kph_in_range(
                    rep.forecast.forecastday@[0].day.maxwind_kph as int,
                ),
                Err(_) => true,
            },
        ensures
            status == 200 ==> match payload {
                Ok(rep) => spec_weather_api_outcome(rep, r),
                Err(e) => r matches Err(pe) && pe matches ProviderError::ParseError(m) && m@ == e@,
            },
            status != 200 ==> match error_payload {
                Ok(err) => r matches Err(pe) && pe matches ProviderError::ProviderMsgError(m) && m@
                    == err.message@,
                Err(e) => r matches Err(pe) && pe matches ProviderError::ParseError(m) && m@ == e@,
            },
    {
        if status == 200 {
            match payload {
                Ok(rep) => ProvidersReport::try_from_weather_api(rep),
                Err(e) => Err(ProviderError::ParseError(e)),
            }
        } else {
            match error_payload {
                Ok(err) => Err(ProviderError::ProviderMsgError(err.message)),
                Err(e) => Err(ProviderError::ParseError(e)),
            }
        }
    }
}

} // verus!
