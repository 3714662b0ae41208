use weather_station::request::{weather_url, ENDPOINT};
use weather_station::session::{is_affirmative, wants_another};
use weather_station::text::clean_line;

#[test]
fn clean_line_strips_the_white_space_around() {
    assert_eq!(clean_line("Seattle\n"), "Seattle");
    assert_eq!(clean_line("  New York \r\n"), "New York");
    assert_eq!(clean_line("\t\tUS"), "US");
    assert_eq!(clean_line(""), "");
    assert_eq!(clean_line(" \n\t "), "");
    assert_eq!(clean_line("a"), "a");
    assert_eq!(clean_line("\u{a0}\u{2003}K\u{f6}ln\u{3000}\u{85}"), "K\u{f6}ln");
}

#[test]
fn clean_line_agrees_with_std() {
    for raw in [
        "x",
        " x",
        "x ",
        " x y  z ",
        "\n",
        "\u{200b}zero width\u{200b}",
        "\u{1680}ogham\u{2028}",
        "\u{feff}bom ",
        "  \u{1f324}\u{fe0f}  ",
        "\u{b}\u{c}form\u{1c}\u{1f}",
    ] {
        assert_eq!(clean_line(raw), raw.trim(), "{:?}", raw);
    }
}

#[test]
fn answers_that_continue() {
    for raw in ["yes", "y", "YES", "Y", "Yes", "yEs", "yes\n", "  y  ", "\tYES\r\n"] {
        assert!(wants_another(raw), "{:?}", raw);
    }
}

#[test]
fn answers_that_stop() {
    for raw in [
        "", "\n", "No", "no", "n", "maybe", "yes please", "yess", "ye", "y e s", "oui", "yes.",
        "\u{ff59}",
    ] {
        assert!(!wants_another(raw), "{:?}", raw);
    }
}

#[test]
fn affirmative_is_exact() {
    assert!(is_affirmative("yes"));
    assert!(is_affirmative("y"));
    assert!(!is_affirmative("Yes"));
    assert!(!is_affirmative(" yes"));
    assert!(!is_affirmative(""));
}

#[test]
fn url_for_a_place() {
    assert_eq!(ENDPOINT, "https://api.openweathermap.org/data/2.5/weather");
    assert_eq!(
        weather_url("KEY123", "Seattle", "US"),
        "https://api.openweathermap.org/data/2.5/weather?q=Seattle,US&units=metric&appid=KEY123"
    );
}

#[test]
fn url_takes_its_parts_as_they_are() {
    assert_eq!(
        weather_url("a&b", "New York", "U S/\u{e9}"),
        "https://api.openweathermap.org/data/2.5/weather?q=New York,U S/\u{e9}&units=metric&appid=a&b"
    );
    assert_eq!(
        weather_url("", "", ""),
        "https://api.openweathermap.org/data/2.5/weather?q=,&units=metric&appid="
    );
}
