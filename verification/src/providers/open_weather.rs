//! The OpenWeather provider: its one-call URL, the pick of the daily entry
//! whose calendar date is the requested one, and the classification of what
//! the call returned.

use crate::dates::Date;
use crate::dates::date_of_timestamp;
use crate::dates::utc_ymd_of_timestamp;
use crate::providers::error::ProviderError;
use crate::providers::error::ProviderResult;
use crate::providers::models::OpenWeatherDaily;
use crate::providers::models::OpenWeatherReport;
use crate::providers::providers_report::ProvidersReport;
use crate::providers::providers_report::spec_report_of_open_weather_daily;
use vstd::prelude::*;
use vstd::string::StringExecFns;

verus! {

pub struct OpenWeather {
    api_key: String,
}

/// True when the daily entry's timestamp falls on `date`, read in UTC.
pub open spec fn date_matches(d: OpenWeatherDaily, date: Date) -> bool {
    utc_ymd_of_timestamp(d.dt as int) == (date.year as int, date.month as int, date.day as int)
}

impl OpenWeather {
    pub closed spec fn spec_api_key(self) -> Seq<char> {
        self.api_key@
    }

    pub fn new(api_key: String) -> (r: Self)
        ensures
            r.spec_api_key() == api_key@,
    {
        Self { api_key }
    }

    /// The one-call URL: coordinates and key embedded, daily aggregates only,
    /// metric units.
    pub open spec fn spec_prepare_url(self, lat: Seq<char>, lon: Seq<char>) -> Seq<char> {
        "https://api.openweathermap.org/data/3.0/onecall?lat="@ + lat + "&lon="@ + lon + "&appid="@
            + self.spec_api_key() + "&exclude=hourly,minutely&units=metric"@
    }

    pub fn prepare_url(&self, lat: &str, lon: &str) -> (r: String)
        ensures
            r@ == self.spec_prepare_url(lat@, lon@),
    {
        let mut s = String::from_str("https://api.openweathermap.org/data/3.0/onecall?lat=");
        s.append(lat);
        s.append("&lon=");
        s.append(lon);
        s.append("&appid=");
        s.append(self.api_key.as_str());
        s.append("&exclude=hourly,minutely&units=metric");
        s
    }

    /// The position of the first daily entry whose UTC calendar date is the
    /// requested one, scanning in returned order; the entries are not assumed
    /// sorted.
    pub fn find_day_for_date(daily: &Vec<OpenWeatherDaily>, date: &Date) -> (r: Option<usize>)
        ensures
            match r {
                Some(i) => i < daily@.len() && date_matches(daily@[i as int], *date) && (forall|
                    k: int,
                |
                    0 <= k < i ==> !date_matches(daily@[k], *date)),
                None => forall|k: int| 0 <= k < daily@.len() ==> !date_matches(daily@[k], *date),
            },
    {
        let n = daily.len();
        let mut i: usize = 0;
        while i < n
            invariant
                n == daily@.len(),
                i <= n,
                forall|k: int| 0 <= k < i ==> !date_matches(daily@[k], *date),
            decreases n - i,
        {
            let d = date_of_timestamp(daily[i].dt);
            if d == *date {
                return Some(i);
            }
            i = i + 1;
        }
        None
    }

    /// What a completed OpenWeather call yields. On 200, the first daily
    /// entry for the requested date is normalized; no such entry is a
    /// date-out-of-range failure; an undecodable body is a parse error. On
    /// any other status the body text is surfaced verbatim as the provider's
    /// message, because this provider's error payloads have no guaranteed
    /// shape.
    pub fn interpret_response(
        status: u16,
        payload: Result<OpenWeatherReport, String>,
        body: String,
        date: &Date,
    ) -> (r: ProviderResult<ProvidersReport>)
        ensures
            status == 200 ==> match payload {
                Ok(rep) => {
                    &&& (exists|i: int|
                        0 <= i < rep.daily@.len() && date_matches(rep.daily@[i], *date))
                        ==> (r matches Ok(out) && exists|i: int|
                        {
                            &&& 0 <= i < rep.daily@.len()
                            &&& #[trigger] date_matches(rep.daily@[i], *date)
                            &&& forall|k: int| 0 <= k < i ==> !date_matches(rep.daily@[k], *date)
                            &&& spec_report_of_open_weather_daily(out, rep.daily@[i])
                        })
                    &&& (forall|i: int|
                        0 <= i < rep.daily@.len() ==> !date_matches(rep.daily@[i], *date)) ==> (
                    r matches Err(e) && e matches ProviderError::DateIsOutOfRange(m) && m@
                        == "open weather"@)
                },
                Err(e) => r matches Err(pe) && pe matches ProviderError::ParseError(m) && m@ == e@,
            },
            status != 200 ==> (r matches Err(e) && e matches ProviderError::ProviderMsgError(m)
                && m@ == body@),
    {
        if status != 200 {
            return Err(ProviderError::ProviderMsgError(body));
        }
        match payload {
            Err(e) => Err(ProviderError::ParseError(e)),
            Ok(rep) => {
                let mut rep = rep;
                match Self::find_day_for_date(&rep.daily, date) {
                    Some(i) => {
                        let day = rep.daily.remove(i);
                        ProvidersReport::try_from_open_weather(day)
                    },
                    None => Err(ProviderError::DateIsOutOfRange(String::from_str("open weather"))),
                }
            },
        }
    }
}

} // verus!
