use colored::Color;
use weather_station::binary64::Binary64;
use weather_station::report::{
    display_weather_info, format_weather, get_temp_emoji, CLOUD, ICE, MOSTLY_SUNNY, PARTLY_CLOUDY,
    SUN,
};
use weather_station::response::{Main, Weather, WeatherResponse};

fn number(x: f64) -> Binary64 {
    Binary64::from_bits(x.to_bits())
}

fn reply(
    name: &str,
    description: &str,
    temp: f64,
    humidity: f64,
    pressure: f64,
    speed: f64,
) -> WeatherResponse {
    WeatherResponse {
        weather: vec![Weather { description: description.to_string() }],
        main: Main { temp: number(temp), humidity: number(humidity), pressure: number(pressure) },
        wind: weather_station::response::Wind { speed: number(speed) },
        name: name.to_string(),
    }
}

#[test]
fn the_five_symbols() {
    assert_eq!(ICE, "\u{2744}\u{fe0f}");
    assert_eq!(CLOUD, "\u{2601}\u{fe0f}");
    assert_eq!(PARTLY_CLOUDY, "\u{26c5}");
    assert_eq!(MOSTLY_SUNNY, "\u{1f324}\u{fe0f}");
    assert_eq!(SUN, "\u{2600}\u{fe0f}");
}

#[test]
fn emoji_inside_the_bands() {
    assert_eq!(get_temp_emoji(number(-12.5)), ICE);
    assert_eq!(get_temp_emoji(number(4.0)), CLOUD);
    assert_eq!(get_temp_emoji(number(15.0)), PARTLY_CLOUDY);
    assert_eq!(get_temp_emoji(number(25.3)), MOSTLY_SUNNY);
    assert_eq!(get_temp_emoji(number(41.0)), SUN);
}

#[test]
fn emoji_bounds_belong_to_the_upper_band() {
    assert_eq!(get_temp_emoji(number(0.0)), CLOUD);
    assert_eq!(get_temp_emoji(number(10.0)), PARTLY_CLOUDY);
    assert_eq!(get_temp_emoji(number(20.0)), MOSTLY_SUNNY);
    assert_eq!(get_temp_emoji(number(30.0)), SUN);
}

#[test]
fn emoji_just_below_the_bounds() {
    assert_eq!(get_temp_emoji(number(-5e-324)), ICE);
    assert_eq!(get_temp_emoji(number(-0.0)), CLOUD);
    assert_eq!(get_temp_emoji(number(9.999999999999998)), CLOUD);
    assert_eq!(get_temp_emoji(number(19.999999999999996)), PARTLY_CLOUDY);
    assert_eq!(get_temp_emoji(number(29.999999999999996)), MOSTLY_SUNNY);
}

#[test]
fn emoji_of_what_is_no_temperature() {
    assert_eq!(get_temp_emoji(number(f64::NEG_INFINITY)), ICE);
    assert_eq!(get_temp_emoji(number(f64::INFINITY)), SUN);
    assert_eq!(get_temp_emoji(number(f64::NAN)), SUN);
}

#[test]
fn report_for_seattle() {
    let seattle = reply("Seattle", "few clouds", 15.0, 80.0, 1012.0, 3.5);
    let text = format_weather(&seattle);
    assert_eq!(
        text,
        "Weather in Seattle: few clouds \u{26c5}\n    > Temperature: 15.0\u{b0}C,\n    > Humidity: 80.0%,\n    > Pressure: 1012.0 hPa,\n    > Wind Speed: 3.5 m/s"
    );
    for part in ["Seattle", "few clouds", "\u{26c5}", "15.0", "80.0", "1012.0", "3.5"] {
        assert!(text.contains(part), "{} is missing", part);
    }
    let shown = display_weather_info(&seattle);
    assert_eq!(shown.input, text);
    assert_eq!(shown.fgcolor, Some(Color::BrightBlue));
    assert_eq!(shown.bgcolor, None);
    assert!(shown.style == colored::Style::default());
}

#[test]
fn report_is_what_the_format_string_gives() {
    let cases = [
        ("Oslo", "snow", -3.26, 91.0, 998.4, 7.05),
        ("", "", 0.0, 0.0, 0.0, 0.0),
        ("S\u{e3}o Paulo", "thunderstorm", 29.96, 100.0, 1013.25, 12.349),
        ("Death Valley", "clear sky", 56.7, 2.5, 1005.0, 0.04),
    ];
    for (name, description, t, h, p, w) in cases {
        let expected = format!(
            "Weather in {}: {} {}\n    > Temperature: {:.1}\u{b0}C,\n    > Humidity: {:.1}%,\n    > Pressure: {:.1} hPa,\n    > Wind Speed: {:.1} m/s",
            name,
            description,
            get_temp_emoji(number(t)),
            t,
            h,
            p,
            w
        );
        assert_eq!(format_weather(&reply(name, description, t, h, p, w)), expected);
    }
}

#[test]
fn report_uses_the_first_description_only() {
    let mut both = reply("Lima", "mist", 18.0, 70.0, 1010.0, 2.0);
    both.weather.push(Weather { description: "rain".to_string() });
    assert!(both.is_described());
    let text = format_weather(&both);
    assert!(text.starts_with("Weather in Lima: mist "));
    assert!(!text.contains("rain"));
    let mut none = both.clone();
    none.weather.clear();
    assert!(!none.is_described());
}

#[test]
fn report_colours_by_description() {
    let shown = display_weather_info(&reply("Cairo", "clear sky", 35.0, 20.0, 1008.0, 4.0));
    assert_eq!(shown.fgcolor, Some(Color::BrightYellow));
    let shown = display_weather_info(&reply("Cairo", "dust", 35.0, 20.0, 1008.0, 4.0));
    assert_eq!(shown.fgcolor, None);
    assert!(shown.style.contains(colored::Styles::Dimmed));
    let shown = display_weather_info(&reply("Cairo", "rain", 35.0, 20.0, 1008.0, 4.0));
    assert_eq!(shown.fgcolor, Some(Color::BrightCyan));
    let shown = display_weather_info(&reply("Cairo", "light rain", 35.0, 20.0, 1008.0, 4.0));
    assert!(shown.is_plain());
}
