use colored::{Color, Style, Styles};
use weather_station::tint::{colorize, tint_for, Tint};

#[test]
fn tint_of_each_keyword() {
    assert_eq!(tint_for("clear sky"), Tint::BrightYellow);
    for d in ["few clouds", "scattered clouds", "broken clouds"] {
        assert_eq!(tint_for(d), Tint::BrightBlue, "{}", d);
    }
    for d in ["overcast clouds", "mist", "haze", "smoke", "sand", "dust", "fog", "squalls"] {
        assert_eq!(tint_for(d), Tint::Dimmed, "{}", d);
    }
    for d in ["shower rain", "rain", "thunderstorm", "snow"] {
        assert_eq!(tint_for(d), Tint::BrightCyan, "{}", d);
    }
}

#[test]
fn tint_of_other_descriptions_is_plain() {
    for d in [
        "",
        "light rain",
        "Clear sky",
        "CLEAR SKY",
        "clear sky ",
        " mist",
        "clouds",
        "rain\n",
        "tornado",
        "volcanic ash",
        "snowfall",
    ] {
        assert_eq!(tint_for(d), Tint::Plain, "{:?}", d);
    }
}

#[test]
fn colorize_sets_the_look_and_keeps_the_text() {
    let looks = [
        (Tint::BrightYellow, Some(Color::BrightYellow), false),
        (Tint::BrightBlue, Some(Color::BrightBlue), false),
        (Tint::BrightCyan, Some(Color::BrightCyan), false),
        (Tint::BrightGreen, Some(Color::BrightGreen), false),
        (Tint::Dimmed, None, true),
        (Tint::Plain, None, false),
    ];
    for (tint, colour, dim) in looks {
        let shown = colorize("some text", tint);
        assert_eq!(shown.input, "some text");
        assert_eq!(shown.fgcolor, colour, "{:?}", tint);
        assert_eq!(shown.bgcolor, None, "{:?}", tint);
        assert_eq!(shown.style.contains(Styles::Dimmed), dim, "{:?}", tint);
        for other in [
            Styles::Bold,
            Styles::Underline,
            Styles::Reversed,
            Styles::Italic,
            Styles::Blink,
            Styles::Hidden,
            Styles::Strikethrough,
        ] {
            assert!(!shown.style.contains(other), "{:?}", tint);
        }
    }
    assert!(colorize("x", Tint::Plain).style == Style::default());
}

#[test]
fn colorize_gives_the_escape_codes_of_the_look() {
    colored::control::set_override(true);
    assert_eq!(colorize("t", Tint::BrightYellow).to_string(), "\u{1b}[93mt\u{1b}[0m");
    assert_eq!(colorize("t", Tint::BrightBlue).to_string(), "\u{1b}[94mt\u{1b}[0m");
    assert_eq!(colorize("t", Tint::BrightCyan).to_string(), "\u{1b}[96mt\u{1b}[0m");
    assert_eq!(colorize("t", Tint::BrightGreen).to_string(), "\u{1b}[92mt\u{1b}[0m");
    assert_eq!(colorize("t", Tint::Dimmed).to_string(), "\u{1b}[2mt\u{1b}[0m");
    assert_eq!(colorize("t", Tint::Plain).to_string(), "t");
    colored::control::unset_override();
}

#[test]
fn colorize_without_colours_shows_the_text_alone() {
    colored::control::set_override(false);
    assert_eq!(colorize("t", Tint::BrightYellow).to_string(), "t");
    assert_eq!(colorize("t", Tint::Dimmed).to_string(), "t");
    colored::control::unset_override();
}
