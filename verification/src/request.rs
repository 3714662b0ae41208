//! The request for the current weather at a place.

use vstd::prelude::*;
use vstd::string::StringExecFns;

verus! {

/// Where the weather service answers.
pub const ENDPOINT: &'static str = "https://api.openweathermap.org/data/2.5/weather";

/// The address that asks for the current weather in a city of a country,
/// in metric units, under an API key. City, country and key stand in it as
/// they are given: nothing in them is escaped.
pub open spec fn request_url(api_key: Seq<char>, city: Seq<char>, country: Seq<char>) -> Seq<char> {
    ENDPOINT@ + "?q="@ + city + ","@ + country + "&units=metric&appid="@ + api_key
}

/// The address to get for the current weather in `city`, `country`.
pub fn weather_url(api_key: &str, city: &str, country: &str) -> (out: String)
    ensures
        out@ == request_url(api_key@, city@, country@),
{
    let mut out = String::new();
    out.append(ENDPOINT);
    out.append("?q=");
    out.append(city);
    out.append(",");
    out.append(country);
    out.append("&units=metric&appid=");
    out.append(api_key);
    assert(out@ =~= request_url(api_key@, city@, country@));
    out
}

} // verus!
