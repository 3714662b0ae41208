//! The reply of the weather service, as the station reads it.

use crate::binary64::Binary64;
use vstd::prelude::*;

verus! {

/// One entry of the reply's list `weather`.
#[derive(Clone, Debug, PartialEq, Eq)]
pub struct Weather {
    pub description: String,
}

/// The reply's object `main`: temperature in degrees Celsius, relative
/// humidity in percent, pressure in hectopascal.
#[derive(Clone, Debug, PartialEq, Eq)]
pub struct Main {
    pub temp: Binary64,
    pub humidity: Binary64,
    pub pressure: Binary64,
}

/// The reply's object `wind`: speed in metres per second.
#[derive(Clone, Debug, PartialEq, Eq)]
pub struct Wind {
    pub speed: Binary64,
}

/// A reply of the weather service: the current conditions at one place.
#[derive(Clone, Debug, PartialEq, Eq)]
pub struct WeatherResponse {
    pub weather: Vec<Weather>,
    pub main: Main,
    pub wind: Wind,
    pub name: String,
}

/// What a reply says, as plain values.
pub struct Conditions {
    pub name: Seq<char>,
    pub descriptions: Seq<Seq<char>>,
    pub temperature: Binary64,
    pub humidity: Binary64,
    pub pressure: Binary64,
    pub wind_speed: Binary64,
}

impl View for Weather {
    type V = Seq<char>;

    open spec fn view(&self) -> Seq<char> {
        self.description@
    }
}

impl View for WeatherResponse {
    type V = Conditions;

    open spec fn view(&self) -> Conditions {
        Conditions {
            name: self.name@,
            descriptions: self.weather@.map_values(|w: Weather| w@),
            temperature: self.main.temp,
            humidity: self.main.humidity,
            pressure: self.main.pressure,
            wind_speed: self.wind.speed,
        }
    }
}

impl Conditions {
    /// The reply describes the weather at all: the report is made from the
    /// first description.
    pub open spec fn described(self) -> bool {
        self.descriptions.len() > 0
    }

    /// The description that the report shows.
    pub open spec fn description(self) -> Seq<char> {
        self.descriptions[0]
    }
}

impl WeatherResponse {
    /// Whether the reply holds a description, which a report needs.
    pub fn is_described(&self) -> (out: bool)
        ensures
            out == self@.described(),
    {
        self.weather.len() > 0
    }
}

} // verus!
