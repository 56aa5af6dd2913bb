//! The argument-level vocabulary: the provider names a user can pick, the
//! configuration subcommands, and the `YYYY-MM-DD` date parser.

use crate::dates::Date;
use crate::dates::days_in_month;
use crate::dates::month_length;
use crate::text::digit_of;
use crate::text::digit_value;
use crate::text::is_digit;
use crate::text::is_digit_exec;
use vstd::prelude::*;
use vstd::string::StrSliceExecFns;
use vstd::string::StringExecFns;

verus! {

/// The stable enumerated key naming a supported weather data source.
#[derive(Debug, Clone, Copy, PartialEq, Eq, Hash, Structural)]
pub enum ProviderName {
    OpenWeather,
    WeatherApi,
}

impl ProviderName {
    pub open spec fn spec_display_name(self) -> Seq<char> {
        match self {
            ProviderName::WeatherApi => "WeatherApi"@,
            ProviderName::OpenWeather => "OpenWeather"@,
        }
    }

    /// The name as shown to the user.
    pub fn display_name(&self) -> (r: String)
        ensures
            r@ == self.spec_display_name(),
    {
        match self {
            ProviderName::WeatherApi => String::from_str("WeatherApi"),
            ProviderName::OpenWeather => String::from_str("OpenWeather"),
        }
    }
}

/// The configuration subcommands.
#[derive(Debug, Clone)]
pub enum Commands {
    /// Store a credential for the named provider.
    Configure { provider_name: ProviderName },
    /// Make the named provider the default.
    Select { provider_name: ProviderName },
}

/// Returned when a date string does not read as `YYYY-MM-DD`.
#[derive(Debug, Clone, Copy, PartialEq, Eq, Structural)]
pub struct ParseDateError;

/// The date a `YYYY-MM-DD` string names: exactly ten characters, digits and
/// dashes in their places, and a real calendar date.
pub open spec fn spec_parse_date(s: Seq<char>) -> Option<Date> {
    if s.len() == 10 && is_digit(s[0]) && is_digit(s[1]) && is_digit(s[2]) && is_digit(s[3]) && s[4]
        == '-' && is_digit(s[5]) && is_digit(s[6]) && s[7] == '-' && is_digit(s[8]) && is_digit(
        s[9],
    ) {
        let y = digit_of(s[0]) * 1000 + digit_of(s[1]) * 100 + digit_of(s[2]) * 10 + digit_of(s[3]);
        let m = digit_of(s[5]) * 10 + digit_of(s[6]);
        let d = digit_of(s[8]) * 10 + digit_of(s[9]);
        if 1 <= m && m <= 12 && 1 <= d && d <= days_in_month(y, m) {
            Some(Date { year: y as i32, month: m as u8, day: d as u8 })
        } else {
            None
        }
    } else {
        None
    }
}

/// Parser for a date in `YYYY-MM-DD` format.
pub fn parse_date(s: &str) -> (r: Result<Date, ParseDateError>)
    ensures
        match r {
            Ok(d) => spec_parse_date(s@) == Some(d) && d.wf() && 0 <= d.year <= 9999,
            Err(_) => spec_parse_date(s@) is None,
        },
{
    if s.unicode_len() != 10 {
        return Err(ParseDateError);
    }
    let c0 = s.get_char(0);
    let c1 = s.get_char(1);
    let c2 = s.get_char(2);
    let c3 = s.get_char(3);
    let c4 = s.get_char(4);
    let c5 = s.get_char(5);
    let c6 = s.get_char(6);
    let c7 = s.get_char(7);
    let c8 = s.get_char(8);
    let c9 = s.get_char(9);
    if !(is_digit_exec(c0) && is_digit_exec(c1) && is_digit_exec(c2) && is_digit_exec(c3) && c4
        == '-' && is_digit_exec(c5) && is_digit_exec(c6) && c7 == '-' && is_digit_exec(c8)
        && is_digit_exec(c9)) {
        return Err(ParseDateError);
    }
    let y: u32 = digit_value(c0) as u32 * 1000 + digit_value(c1) as u32 * 100 + digit_value(c2)
        as u32 * 10 + digit_value(c3) as u32;
    let m: u8 = digit_value(c5) * 10 + digit_value(c6);
    let d: u8 = digit_value(c8) * 10 + digit_value(c9);
    if m < 1 || m > 12 {
        return Err(ParseDateError);
    }
    if d < 1 || d > month_length(y as i32, m) {
        return Err(ParseDateError);
    }
    Ok(Date { year: y as i32, month: m, day: d })
}

} // verus!
