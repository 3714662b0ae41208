//! Colours: which look a piece of text is shown in, and the styled strings
//! of the `colored` crate that carry it to the terminal.

use colored::{ColoredString, Colorize};
use vstd::prelude::*;

verus! {

/// A string with its colours and styles, as the `colored` crate holds it.
#[verifier::external_type_specification]
#[verifier::external_body]
pub struct ExColoredString(ColoredString);

/// The text that a styled string carries: its field `input`.
pub uninterp spec fn styled_text(s: ColoredString) -> Seq<char>;

/// The look of a styled string: the parameters of the escape sequence
/// that it begins with where it is shown in colour. They are the numbers
/// of its styles, then those of its background, then those of its
/// foreground, as the crate writes them: one number for a style or a named
/// colour (2 for dimmed, 93 for a bright yellow foreground), and for a
/// colour given by its parts the five numbers that say it in full. There
/// are none for a string without styles and colours.
pub uninterp spec fn styled_codes(s: ColoredString) -> Seq<int>;

/// The looks in which the station shows its lines.
#[derive(Clone, Copy, Debug, PartialEq, Eq)]
pub enum Tint {
    BrightYellow,
    BrightBlue,
    BrightCyan,
    BrightGreen,
    Dimmed,
    Plain,
}

impl Tint {
    /// The parameters that select the look on a terminal.
    pub open spec fn codes(self) -> Seq<int> {
        match self {
            Tint::BrightYellow => seq![93int],
            Tint::BrightBlue => seq![94int],
            Tint::BrightCyan => seq![96int],
            Tint::BrightGreen => seq![92int],
            Tint::Dimmed => seq![2int],
            Tint::Plain => Seq::empty(),
        }
    }
}

/// The description of a clear sky.
pub open spec fn is_clear(d: Seq<char>) -> bool {
    d == "clear sky"@
}

/// The descriptions of a sky with clouds that leave light through.
pub open spec fn is_cloudy(d: Seq<char>) -> bool {
    d == "few clouds"@ || d == "scattered clouds"@ || d == "broken clouds"@
}

/// The descriptions of a closed sky and of air that hides the view.
pub open spec fn is_dull(d: Seq<char>) -> bool {
    d == "overcast clouds"@ || d == "mist"@ || d == "haze"@ || d == "smoke"@ || d == "sand"@ || d
        == "dust"@ || d == "fog"@ || d == "squalls"@
}

/// The descriptions of rain, snow and storm.
pub open spec fn is_wet(d: Seq<char>) -> bool {
    d == "shower rain"@ || d == "rain"@ || d == "thunderstorm"@ || d == "snow"@
}

/// The look of a report, by the description of the weather: the first
/// kind that the description belongs to decides, and a description of no
/// kind is shown plain. The match is exact, letter for letter.
pub open spec fn description_tint(d: Seq<char>) -> Tint {
    if is_clear(d) {
        Tint::BrightYellow
    } else if is_cloudy(d) {
        Tint::BrightBlue
    } else if is_dull(d) {
        Tint::Dimmed
    } else if is_wet(d) {
        Tint::BrightCyan
    } else {
        Tint::Plain
    }
}

/// No description belongs to two kinds, so each kind has its look whatever
/// the order in which the kinds are tried, and a description is shown
/// plain exactly when it belongs to none.
pub proof fn lemma_kinds_apart(d: Seq<char>)
    ensures
        is_clear(d) <==> description_tint(d) == Tint::BrightYellow,
        is_cloudy(d) <==> description_tint(d) == Tint::BrightBlue,
        is_dull(d) <==> description_tint(d) == Tint::Dimmed,
        is_wet(d) <==> description_tint(d) == Tint::BrightCyan,
        !(is_clear(d) || is_cloudy(d) || is_dull(d) || is_wet(d)) <==> description_tint(d)
            == Tint::Plain,
{
    reveal_strlit("clear sky");
    reveal_strlit("few clouds");
    reveal_strlit("scattered clouds");
    reveal_strlit("broken clouds");
    reveal_strlit("overcast clouds");
    reveal_strlit("mist");
    reveal_strlit("haze");
    reveal_strlit("smoke");
    reveal_strlit("sand");
    reveal_strlit("dust");
    reveal_strlit("fog");
    reveal_strlit("squalls");
    reveal_strlit("shower rain");
    reveal_strlit("rain");
    reveal_strlit("thunderstorm");
    reveal_strlit("snow");
    if is_clear(d) {
        assert(d.len() == 9 && d[0] == 'c');
    }
    if is_cloudy(d) {
        assert(d[0] == 'f' || d[0] == 's' && d.len() == 16 || d[0] == 'b');
    }
    if is_dull(d) {
        assert(d.len() == 15 && d[0] == 'o' || d.len() <= 7);
        assert(d.len() == 4 ==> d[0] != 'r' && d[1] != 'n');
    }
}

/// The look in which a report with this description is shown.
pub fn tint_for(description: &str) -> (out: Tint)
    ensures
        out == description_tint(description@),
{
    if description.eq("clear sky") {
        Tint::BrightYellow
    } else if description.eq("few clouds") || description.eq("scattered clouds")
        || description.eq("broken clouds") {
        Tint::BrightBlue
    } else if description.eq("overcast clouds") || description.eq("mist") || description.eq(
        "haze",
    ) || description.eq("smoke") || description.eq("sand") || description.eq("dust")
        || description.eq("fog") || description.eq("squalls") {
        Tint::Dimmed
    } else if description.eq("shower rain") || description.eq("rain") || description.eq(
        "thunderstorm",
    ) || description.eq("snow") {
        Tint::BrightCyan
    } else {
        Tint::Plain
    }
}

/// `Colorize::bright_yellow` on a `&str`: a copy of the text with the
/// foreground colour bright yellow and nothing else set.
#[verifier::external_body]
fn bright_yellow(text: &str) -> (out: ColoredString)
    ensures
        styled_text(out) == text@,
        styled_codes(out) == seq![93int],
{
    text.bright_yellow()
}

/// `Colorize::bright_blue` on a `&str`: a copy of the text with the
/// foreground colour bright blue and nothing else set.
#[verifier::external_body]
fn bright_blue(text: &str) -> (out: ColoredString)
    ensures
        styled_text(out) == text@,
        styled_codes(out) == seq![94int],
{
    text.bright_blue()
}

/// `Colorize::bright_cyan` on a `&str`: a copy of the text with the
/// foreground colour bright cyan and nothing else set.
#[verifier::external_body]
fn bright_cyan(text: &str) -> (out: ColoredString)
    ensures
        styled_text(out) == text@,
        styled_codes(out) == seq![96int],
{
    text.bright_cyan()
}

/// `Colorize::bright_green` on a `&str`: a copy of the text with the
/// foreground colour bright green and nothing else set.
#[verifier::external_body]
fn bright_green(text: &str) -> (out: ColoredString)
    ensures
        styled_text(out) == text@,
        styled_codes(out) == seq![92int],
{
    text.bright_green()
}

/// `Colorize::dimmed` on a `&str`: a copy of the text with the style
/// dimmed, and no colour.
#[verifier::external_body]
fn dimmed(text: &str) -> (out: ColoredString)
    ensures
        styled_text(out) == text@,
        styled_codes(out) == seq![2int],
{
    text.dimmed()
}

/// `Colorize::normal` on a `&str`: a copy of the text with no style and no
/// colour.
#[verifier::external_body]
fn normal(text: &str) -> (out: ColoredString)
    ensures
        styled_text(out) == text@,
        styled_codes(out) == Seq::<int>::empty(),
{
    text.normal()
}

/// The text in the look `tint`, ready to be shown.
pub fn colorize(text: &str, tint: Tint) -> (out: ColoredString)
    ensures
        styled_text(out) == text@,
        styled_codes(out) == tint.codes(),
{
    match tint {
        Tint::BrightYellow => bright_yellow(text),
        Tint::BrightBlue => bright_blue(text),
        Tint::BrightCyan => bright_cyan(text),
        Tint::BrightGreen => bright_green(text),
        Tint::Dimmed => dimmed(text),
        Tint::Plain => normal(text),
    }
}

} // verus!
