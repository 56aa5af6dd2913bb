//! The geocoder side: the search URL for a toponym, the classification of
//! what the search returned (an empty candidate list is a failure, never an
//! empty success), and the tabular rendering of a candidate list.

use crate::text::spec_pad_left;
use crate::text::spec_pad_right;
use crate::text::spec_repeat_char;
use crate::text::spec_u64_dec;
use crate::text::pad_left;
use crate::text::pad_right;
use crate::text::repeat_char;
use crate::text::u64_dec;
use vstd::prelude::*;
use vstd::string::StringExecFns;

verus! {

pub struct Geocoder;

/// How a geocoding call fails.
#[derive(Debug, Clone)]
pub enum GeocoderError {
    /// The request never completed.
    FailedRequest(String),
    /// The upstream answered with a non-success status; its body and the
    /// status code are kept for display.
    GeocoderError(String, u16),
    /// The response body did not decode.
    ParseError(String),
    /// A well-formed answer held no candidate at all.
    NoResults,
}

impl GeocoderError {
    pub open spec fn spec_message(self) -> Seq<char> {
        match self {
            GeocoderError::FailedRequest(s) => "failed to send request to geocoder, e="@ + s@,
            GeocoderError::GeocoderError(body, code) => "geocoder returned: "@ + body@
                + ". with status code "@ + spec_u64_dec(code as nat),
            GeocoderError::ParseError(_) => "failed to parse response body"@,
            GeocoderError::NoResults => "no results"@,
        }
    }

    /// The user-facing message.
    pub fn message(&self) -> (r: String)
        ensures
            r@ == self.spec_message(),
    {
        match self {
            GeocoderError::FailedRequest(s) => {
                let mut m = String::from_str("failed to send request to geocoder, e=");
                m.append(s.as_str());
                m
            },
            GeocoderError::GeocoderError(body, code) => {
                let mut m = String::from_str("geocoder returned: ");
                m.append(body.as_str());
                m.append(". with status code ");
                let c = u64_dec(*code as u64);
                m.append(c.as_str());
                m
            },
            GeocoderError::ParseError(_) => String::from_str("failed to parse response body"),
            GeocoderError::NoResults => String::from_str("no results"),
        }
    }
}

/// One geocoding candidate. The coordinates are kept as the decimal text the
/// upstream reported, read only to be embedded in a provider URL.
#[derive(Debug, Clone)]
pub struct GeocoderToponym {
    pub name: String,
    pub latitude: String,
    pub longitude: String,
    pub population: Option<u32>,
    pub country: String,
    pub admin1: Option<String>,
    pub admin2: Option<String>,
    pub admin3: Option<String>,
    pub admin4: Option<String>,
}

/// A candidate list in the upstream's rank order; never empty on success.
#[derive(Debug)]
pub struct GeocoderResult {
    pub results: Vec<GeocoderToponym>,
}

impl Geocoder {
    /// The search URL for a toponym, a fixed candidate cap of twenty, and an
    /// optional country filter.
    pub open spec fn spec_search_url(toponym: Seq<char>, country_code: Option<Seq<char>>) -> Seq<
        char,
    > {
        "https://geocoding-api.open-meteo.com/v1/search?name="@ + toponym
            + "&count=20&language=en&format=json"@ + (match country_code {
            Some(cc) => "&countryCode="@ + cc,
            None => Seq::empty(),
        })
    }

    pub fn search_url(toponym: &str, country_code: Option<&str>) -> (r: String)
        ensures
            r@ == Self::spec_search_url(
                toponym@,
                match country_code {
                    Some(cc) => Some(cc@),
                    None => None,
                },
            ),
    {
        let mut s = String::from_str("https://geocoding-api.open-meteo.com/v1/search?name=");
        s.append(toponym);
        s.append("&count=20&language=en&format=json");
        match country_code {
            Some(cc) => {
                s.append("&countryCode=");
                s.append(cc);
            },
            None => {
                proof {
                    assert(s@ =~= s@ + Seq::<char>::empty());
                }
            },
        }
        s
    }

    /// Classifies what the search call returned: a 200 whose decoded list is
    /// empty yields `NoResults`, never an empty success; a 200 that did not
    /// decode is a parse error; any other status surfaces the body and the
    /// code.
    pub fn interpret_response(
        status: u16,
        payload: Result<Vec<GeocoderToponym>, String>,
        body: String,
    ) -> (r: Result<GeocoderResult, GeocoderError>)
        ensures
            status == 200 ==> match payload {
                Ok(list) => (list@.len() == 0 ==> r matches Err(GeocoderError::NoResults)) && (
                list@.len() > 0 ==> (r matches Ok(g) && g.results@ == list@)),
                Err(e) => r matches Err(ge) && ge matches GeocoderError::ParseError(m) && m@ == e@,
            },
            status != 200 ==> (r matches Err(ge) && ge matches GeocoderError::GeocoderError(b, c)
                && b@ == body@ && c == status),
    {
        if status != 200 {
            return Err(GeocoderError::GeocoderError(body, status));
        }
        match payload {
            Err(e) => Err(GeocoderError::ParseError(e)),
            Ok(list) => {
                if list.len() == 0 {
                    Err(GeocoderError::NoResults)
                } else {
                    Ok(GeocoderResult { results: list })
                }
            },
        }
    }
}

pub open spec fn spec_opt_text(o: Option<String>) -> Seq<char> {
    match o {
        Some(s) => s@,
        None => Seq::empty(),
    }
}

pub open spec fn spec_population_text(o: Option<u32>) -> Seq<char> {
    match o {
        Some(p) => spec_u64_dec(p as nat),
        None => Seq::empty(),
    }
}

/// One table row: the 1-based rank, then the candidate's fields in the fixed
/// column widths.
pub open spec fn spec_row(t: GeocoderToponym, idx: int) -> Seq<char> {
    spec_pad_left(spec_u64_dec((idx + 1) as nat), 4) + " | "@ + spec_pad_right(t.name@, 20)
        + " | "@ + spec_pad_left(t.latitude@, 9) + " | "@ + spec_pad_left(t.longitude@, 9) + " | "@
        + spec_pad_left(spec_population_text(t.population), 10) + " | "@ + spec_pad_right(
        t.country@,
        20,
    ) + " | "@ + spec_pad_right(spec_opt_text(t.admin1), 15) + " | "@ + spec_pad_right(
        spec_opt_text(t.admin2),
        15,
    ) + " | "@ + spec_pad_right(spec_opt_text(t.admin3), 15) + " | "@ + spec_pad_right(
        spec_opt_text(t.admin4),
        15,
    ) + "\n"@
}

pub open spec fn spec_rows(results: Seq<GeocoderToponym>, i: int) -> Seq<char>
    decreases results.len() - i,
{
    if i < 0 || i >= results.len() {
        Seq::empty()
    } else {
        spec_row(results[i], i) + spec_rows(results, i + 1)
    }
}

/// The table's fixed header line.
pub open spec fn spec_table_header() -> Seq<char> {
    " No. | Name                 |  Latitude | Longitude | Population | Country              | Admin1          | Admin2          | Admin3          | Admin4         \n"@
}

/// The whole table: header, separator line, one row per candidate in rank
/// order, numbered from one.
pub open spec fn spec_render_table(results: Seq<GeocoderToponym>) -> Seq<char> {
    spec_table_header() + spec_repeat_char('-', 151) + "\n"@ + spec_rows(results, 0)
}

/// One rendered table row for the candidate ranked `idx` (0-based here; the
/// printed rank is one higher).
#[verifier::rlimit(50)]
pub fn render_row(t: &GeocoderToponym, idx: usize) -> (r: String)
    requires
        idx < usize::MAX,
    ensures
        r@ == spec_row(*t, idx as int),
{
    let rank = u64_dec((idx + 1) as u64);
    let mut s = pad_left(rank.as_str(), 4);
    s.append(" | ");
    let col = pad_right(t.name.as_str(), 20);
    s.append(col.as_str());
    s.append(" | ");
    let col = pad_left(t.latitude.as_str(), 9);
    s.append(col.as_str());
    s.append(" | ");
    let col = pad_left(t.longitude.as_str(), 9);
    s.append(col.as_str());
    s.append(" | ");
    let pop = match &t.population {
        Some(p) => u64_dec(*p as u64),
        None => String::new(),
    };
    let col = pad_left(pop.as_str(), 10);
    s.append(col.as_str());
    s.append(" | ");
    let col = pad_right(t.country.as_str(), 20);
    s.append(col.as_str());
    s.append(" | ");
    let col = match &t.admin1 {
        Some(a) => pad_right(a.as_str(), 15),
        None => repeat_char(' ', 15),
    };
    s.append(col.as_str());
    s.append(" | ");
    let col = match &t.admin2 {
        Some(a) => pad_right(a.as_str(), 15),
        None => repeat_char(' ', 15),
    };
    s.append(col.as_str());
    s.append(" | ");
    let col = match &t.admin3 {
        Some(a) => pad_right(a.as_str(), 15),
        None => repeat_char(' ', 15),
    };
    s.append(col.as_str());
    s.append(" | ");
    let col = match &t.admin4 {
        Some(a) => pad_right(a.as_str(), 15),
        None => repeat_char(' ', 15),
    };
    s.append(col.as_str());
    s.append("\n");
    proof {
        assert(spec_pad_right(Seq::<char>::empty(), 15) =~= spec_repeat_char(' ', 15));
        assert(s@ =~= spec_row(*t, idx as int));
    }
    s
}

impl GeocoderResult {
    /// The candidate table as printed for disambiguation.
    pub fn render_table(&self) -> (r: String)
        ensures
            r@ == spec_render_table(self.results@),
    {
        let mut s = String::from_str(
            " No. | Name                 |  Latitude | Longitude | Population | Country              | Admin1          | Admin2          | Admin3          | Admin4         \n",
        );
        let dashes = repeat_char('-', 151);
        s.append(dashes.as_str());
        s.append("\n");
        let n = self.results.len();
        let mut i: usize = 0;
        proof {
            assert(s@ + spec_rows(self.results@, 0) =~= spec_render_table(self.results@));
        }
        while i < n
            invariant
                n == self.results@.len(),
                i <= n,
                s@ + spec_rows(self.results@, i as int) == spec_render_table(self.results@),
            decreases n - i,
        {
            let ghost prev = s@;
            let row = render_row(&self.results[i], i);
            s.append(row.as_str());
            proof {
                assert(spec_rows(self.results@, i as int) == spec_row(
                    self.results@[i as int],
                    i as int,
                ) + spec_rows(self.results@, i as int + 1));
                assert(prev + spec_rows(self.results@, i as int) =~= s@ + spec_rows(
                    self.results@,
                    i as int + 1,
                ));
            }
            i = i + 1;
        }
        proof {
            assert(s@ =~= s@ + spec_rows(self.results@, n as int));
        }
        s
    }
}

} // verus!
