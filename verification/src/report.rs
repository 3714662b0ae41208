//! The report of current conditions: its symbol, its text and its colour.

use crate::binary64::Binary64;
use crate::response::{Conditions, WeatherResponse};
use crate::text::{
    lemma_occurs_in_itself, lemma_occurs_with_more_after, lemma_occurs_with_more_before, occurs_in,
};
use crate::tint::{colorize, description_tint, styled_codes, styled_text, tint_for};
use colored::ColoredString;
use vstd::prelude::*;
use vstd::string::StringExecFns;

verus! {

/// Snowflake: below the freezing point.
pub const ICE: &'static str = "\u{2744}\u{fe0f}";

/// Cloud: from zero to below ten degrees.
pub const CLOUD: &'static str = "\u{2601}\u{fe0f}";

/// Sun behind a cloud: from ten to below twenty degrees.
pub const PARTLY_CLOUDY: &'static str = "\u{26c5}";

/// Sun behind a small cloud: from twenty to below thirty degrees.
pub const MOSTLY_SUNNY: &'static str = "\u{1f324}\u{fe0f}";

/// Sun: thirty degrees and more.
pub const SUN: &'static str = "\u{2600}\u{fe0f}";

/// The symbol for a temperature in degrees Celsius, by the band of ten
/// degrees that holds it; each band holds its lower bound and not its
/// upper one. A temperature that is no number has the last symbol.
pub open spec fn emoji_of(t: Binary64) -> Seq<char> {
    if t.less_than(0) {
        ICE@
    } else if t.at_least(0) && t.less_than(10) {
        CLOUD@
    } else if t.at_least(10) && t.less_than(20) {
        PARTLY_CLOUDY@
    } else if t.at_least(20) && t.less_than(30) {
        MOSTLY_SUNNY@
    } else {
        SUN@
    }
}

/// The symbol for a temperature in degrees Celsius.
pub fn get_temp_emoji(temperature: Binary64) -> (out: &'static str)
    ensures
        out@ == emoji_of(temperature),
{
    if temperature.is_less_than(0) {
        ICE
    } else if temperature.is_less_than(10) {
        CLOUD
    } else if temperature.is_less_than(20) {
        PARTLY_CLOUDY
    } else if temperature.is_less_than(30) {
        MOSTLY_SUNNY
    } else {
        SUN
    }
}

/// Each band of temperatures has its symbol and no other: the five
/// symbols differ, and a temperature lies in one band only. The last
/// symbol stands for thirty degrees and more, and for what is no number.
pub proof fn lemma_emoji_bands(t: Binary64)
    ensures
        t.less_than(0) <==> emoji_of(t) == ICE@,
        t.at_least(0) && t.less_than(10) <==> emoji_of(t) == CLOUD@,
        t.at_least(10) && t.less_than(20) <==> emoji_of(t) == PARTLY_CLOUDY@,
        t.at_least(20) && t.less_than(30) <==> emoji_of(t) == MOSTLY_SUNNY@,
        t.at_least(30) || t.nan() <==> emoji_of(t) == SUN@,
{
    reveal_strlit("\u{2744}\u{fe0f}");
    reveal_strlit("\u{2601}\u{fe0f}");
    reveal_strlit("\u{26c5}");
    reveal_strlit("\u{1f324}\u{fe0f}");
    reveal_strlit("\u{2600}\u{fe0f}");
    assert(ICE@[0] == '\u{2744}');
    assert(CLOUD@[0] == '\u{2601}');
    assert(PARTLY_CLOUDY@[0] == '\u{26c5}');
    assert(MOSTLY_SUNNY@[0] == '\u{1f324}');
    assert(SUN@[0] == '\u{2600}');
    t.lemma_less_than_grows(0, 10);
    t.lemma_less_than_grows(10, 20);
    t.lemma_less_than_grows(20, 30);
}

/// The first line of a report: the place, the description and the symbol
/// of the temperature.
pub open spec fn heading(c: Conditions) -> Seq<char> {
    "Weather in "@ + c.name + ": "@ + c.description() + " "@ + emoji_of(c.temperature)
}

/// One further line of a report: a measurement under its label, with one
/// digit after the decimal point, and its unit.
pub open spec fn entry(label: Seq<char>, value: Binary64, unit: Seq<char>) -> Seq<char> {
    "    > "@ + label + ": "@ + value.one_decimal() + unit
}

/// The text of a report: the heading, then temperature, humidity, pressure
/// and wind speed, one to a line.
pub open spec fn weather_text(c: Conditions) -> Seq<char> {
    heading(c) + "\n"@ + entry("Temperature"@, c.temperature, "\u{b0}C"@) + ",\n"@ + entry(
        "Humidity"@,
        c.humidity,
        "%"@,
    ) + ",\n"@ + entry("Pressure"@, c.pressure, " hPa"@) + ",\n"@ + entry(
        "Wind Speed"@,
        c.wind_speed,
        " m/s"@,
    )
}

/// Appends one line of measurement to `out`.
fn push_entry(out: &mut String, label: &str, value: Binary64, unit: &str)
    ensures
        final(out)@ == old(out)@ + entry(label@, value, unit@),
{
    let shown = value.to_one_decimal();
    out.append("    > ");
    out.append(label);
    out.append(": ");
    out.append(shown.as_str());
    out.append(unit);
    assert(out@ =~= old(out)@ + entry(label@, value, unit@));
}

/// The text of the report on a reply.
pub fn format_weather(response: &WeatherResponse) -> (out: String)
    requires
        response@.described(),
    ensures
        out@ == weather_text(response@),
{
    let mut out = String::new();
    out.append("Weather in ");
    out.append(response.name.as_str());
    out.append(": ");
    out.append(response.weather[0].description.as_str());
    out.append(" ");
    out.append(get_temp_emoji(response.main.temp));
    assert(out@ =~= heading(response@));
    out.append("\n");
    push_entry(&mut out, "Temperature", response.main.temp, "\u{b0}C");
    out.append(",\n");
    push_entry(&mut out, "Humidity", response.main.humidity, "%");
    out.append(",\n");
    push_entry(&mut out, "Pressure", response.main.pressure, " hPa");
    out.append(",\n");
    push_entry(&mut out, "Wind Speed", response.wind.speed, " m/s");
    out
}

/// The report on a reply, in the colour of its description: what the
/// station shows for the reply.
pub fn display_weather_info(response: &WeatherResponse) -> (out: ColoredString)
    requires
        response@.described(),
    ensures
        styled_text(out) == weather_text(response@),
        styled_codes(out) == description_tint(response@.description()).codes(),
{
    let text = format_weather(response);
    let tint = tint_for(response.weather[0].description.as_str());
    colorize(text.as_str(), tint)
}

/// A measurement occurs in its line as it is written with one decimal.
pub proof fn lemma_entry_shows_value(label: Seq<char>, value: Binary64, unit: Seq<char>)
    ensures
        occurs_in(value.one_decimal(), entry(label, value, unit)),
{
    let shown = value.one_decimal();
    let before = "    > "@ + label + ": "@;
    lemma_occurs_in_itself(shown);
    lemma_occurs_with_more_before(shown, before, shown);
    lemma_occurs_with_more_after(shown, before + shown, unit);
}

/// The heading names the place and the description.
pub proof fn lemma_heading_names(c: Conditions)
    ensures
        occurs_in(c.name, heading(c)),
        occurs_in(c.description(), heading(c)),
{
    let a = "Weather in "@;
    let b = a + c.name;
    let d = b + ": "@;
    let e = d + c.description();
    let f = e + " "@;
    lemma_occurs_in_itself(c.name);
    lemma_occurs_with_more_before(c.name, a, c.name);
    lemma_occurs_with_more_after(c.name, b, ": "@);
    lemma_occurs_with_more_after(c.name, d, c.description());
    lemma_occurs_with_more_after(c.name, e, " "@);
    lemma_occurs_with_more_after(c.name, f, emoji_of(c.temperature));
    lemma_occurs_in_itself(c.description());
    lemma_occurs_with_more_before(c.description(), d, c.description());
    lemma_occurs_with_more_after(c.description(), e, " "@);
    lemma_occurs_with_more_after(c.description(), f, emoji_of(c.temperature));
}

/// The report names the place and the description, and shows each of the
/// four measurements with one digit after the decimal point.
pub proof fn lemma_report_shows_all(c: Conditions)
    ensures
        occurs_in(c.name, weather_text(c)),
        occurs_in(c.description(), weather_text(c)),
        occurs_in(c.temperature.one_decimal(), weather_text(c)),
        occurs_in(c.humidity.one_decimal(), weather_text(c)),
        occurs_in(c.pressure.one_decimal(), weather_text(c)),
        occurs_in(c.wind_speed.one_decimal(), weather_text(c)),
{
    let line1 = entry("Temperature"@, c.temperature, "\u{b0}C"@);
    let line2 = entry("Humidity"@, c.humidity, "%"@);
    let line3 = entry("Pressure"@, c.pressure, " hPa"@);
    let line4 = entry("Wind Speed"@, c.wind_speed, " m/s"@);
    let gap = ",\n"@;
    let t0 = heading(c);
    let t1 = t0 + "\n"@;
    let t2 = t1 + line1;
    let t3 = t2 + gap;
    let t4 = t3 + line2;
    let t5 = t4 + gap;
    let t6 = t5 + line3;
    let t7 = t6 + gap;
    let t8 = t7 + line4;
    assert(t8 == weather_text(c));

    lemma_heading_names(c);
    lemma_grows_to_report(c.name, t0, t1, t2, t3, t4, t5, t6, t7, t8, line1, line2, line3, line4);
    lemma_grows_to_report(
        c.description(),
        t0,
        t1,
        t2,
        t3,
        t4,
        t5,
        t6,
        t7,
        t8,
        line1,
        line2,
        line3,
        line4,
    );

    let v1 = c.temperature.one_decimal();
    lemma_entry_shows_value("Temperature"@, c.temperature, "\u{b0}C"@);
    lemma_occurs_with_more_before(v1, t1, line1);
    lemma_occurs_with_more_after(v1, t2, gap);
    lemma_occurs_with_more_after(v1, t3, line2);
    lemma_occurs_with_more_after(v1, t4, gap);
    lemma_occurs_with_more_after(v1, t5, line3);
    lemma_occurs_with_more_after(v1, t6, gap);
    lemma_occurs_with_more_after(v1, t7, line4);

    let v2 = c.humidity.one_decimal();
    lemma_entry_shows_value("Humidity"@, c.humidity, "%"@);
    lemma_occurs_with_more_before(v2, t3, line2);
    lemma_occurs_with_more_after(v2, t4, gap);
    lemma_occurs_with_more_after(v2, t5, line3);
    lemma_occurs_with_more_after(v2, t6, gap);
    lemma_occurs_with_more_after(v2, t7, line4);

    let v3 = c.pressure.one_decimal();
    lemma_entry_shows_value("Pressure"@, c.pressure, " hPa"@);
    lemma_occurs_with_more_before(v3, t5, line3);
    lemma_occurs_with_more_after(v3, t6, gap);
    lemma_occurs_with_more_after(v3, t7, line4);

    let v4 = c.wind_speed.one_decimal();
    lemma_entry_shows_value("Wind Speed"@, c.wind_speed, " m/s"@);
    lemma_occurs_with_more_before(v4, t7, line4);
}

/// What the heading holds, the whole report holds.
proof fn lemma_grows_to_report(
    needle: Seq<char>,
    t0: Seq<char>,
    t1: Seq<char>,
    t2: Seq<char>,
    t3: Seq<char>,
    t4: Seq<char>,
    t5: Seq<char>,
    t6: Seq<char>,
    t7: Seq<char>,
    t8: Seq<char>,
    line1: Seq<char>,
    line2: Seq<char>,
    line3: Seq<char>,
    line4: Seq<char>,
)
    requires
        occurs_in(needle, t0),
        t1 == t0 + "\n"@,
        t2 == t1 + line1,
        t3 == t2 + ",\n"@,
        t4 == t3 + line2,
        t5 == t4 + ",\n"@,
        t6 == t5 + line3,
        t7 == t6 + ",\n"@,
        t8 == t7 + line4,
    ensures
        occurs_in(needle, t8),
{
    lemma_occurs_with_more_after(needle, t0, "\n"@);
    lemma_occurs_with_more_after(needle, t1, line1);
    lemma_occurs_with_more_after(needle, t2, ",\n"@);
    lemma_occurs_with_more_after(needle, t3, line2);
    lemma_occurs_with_more_after(needle, t4, ",\n"@);
    lemma_occurs_with_more_after(needle, t5, line3);
    lemma_occurs_with_more_after(needle, t6, ",\n"@);
    lemma_occurs_with_more_after(needle, t7, line4);
}

} // verus!
