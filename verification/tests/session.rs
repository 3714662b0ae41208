use colored::Color;
use weather_station::binary64::Binary64;
use weather_station::response::{Main, Weather, WeatherResponse, Wind};
use weather_station::session::{
    start, step, Event, Line, Stage, Step, Stream, ASK_AGAIN, ASK_CITY, ASK_COUNTRY, BANNER,
    FAREWELL, KEY_MISSING,
};
use weather_station::tint::Tint;

fn number(x: f64) -> Binary64 {
    Binary64::from_bits(x.to_bits())
}

fn seattle() -> WeatherResponse {
    WeatherResponse {
        weather: vec![Weather { description: "few clouds".to_string() }],
        main: Main { temp: number(15.0), humidity: number(80.0), pressure: number(1012.0) },
        wind: Wind { speed: number(3.5) },
        name: "Seattle".to_string(),
    }
}

fn question(text: &str) -> Line {
    Line { stream: Stream::Output, text: text.to_string(), tint: Tint::BrightGreen }
}

fn move_on(stage: Stage, event: Event) -> Step {
    assert!(stage.accepts(&event), "{:?} does not accept {:?}", stage, event);
    step(stage, event)
}

fn until_reply(key: &str, country: &str, city: &str) -> Stage {
    let s = move_on(Stage::AwaitKey, Event::Key(Some(key.to_string())));
    let s = move_on(s.stage, Event::Input(country.to_string()));
    let s = move_on(s.stage, Event::Input(city.to_string()));
    assert!(s.lines.is_empty());
    s.stage
}

#[test]
fn session_opens_with_the_banner() {
    let first = start();
    assert_eq!(
        first.lines,
        vec![Line {
            stream: Stream::Output,
            text: "Welcome to Weather Station!".to_string(),
            tint: Tint::BrightYellow
        }]
    );
    assert_eq!(first.stage, Stage::AwaitKey);
    assert_eq!(BANNER, "Welcome to Weather Station!");
}

#[test]
fn session_without_a_key_aborts_before_any_question() {
    let first = start();
    assert!(first.lines.iter().all(|line| line.tint != Tint::BrightGreen));
    let after = move_on(first.stage, Event::Key(None));
    assert!(after.lines.is_empty());
    assert_eq!(
        after.stage,
        Stage::Aborted { reason: "Open Weather Api Key not found in .env file".to_string() }
    );
    assert!(!after.stage.is_running());
    assert_eq!(KEY_MISSING, "Open Weather Api Key not found in .env file");
}

#[test]
fn session_asks_country_then_city() {
    let s = move_on(Stage::AwaitKey, Event::Key(Some("k".to_string())));
    assert_eq!(s.lines, vec![question("Please enter the name of the country:")]);
    assert_eq!(s.stage, Stage::AwaitCountry { api_key: "k".to_string() });
    let s = move_on(s.stage, Event::Input(" US \n".to_string()));
    assert_eq!(s.lines, vec![question("Please enter the name of the city:")]);
    assert_eq!(
        s.stage,
        Stage::AwaitCity { api_key: "k".to_string(), country: "US".to_string() }
    );
    assert_eq!(ASK_COUNTRY, "Please enter the name of the country:");
    assert_eq!(ASK_CITY, "Please enter the name of the city:");
}

#[test]
fn session_requests_the_place_that_was_named() {
    let stage = until_reply("k", "US\n", "Seattle\n");
    assert_eq!(
        stage,
        Stage::AwaitReply {
            url: "https://api.openweathermap.org/data/2.5/weather?q=Seattle,US&units=metric&appid=k"
                .to_string()
        }
    );
    assert!(stage.is_running());
}

#[test]
fn session_takes_empty_names_as_they_are() {
    let stage = until_reply("k", "\n", "\n");
    assert_eq!(
        stage,
        Stage::AwaitReply {
            url: "https://api.openweathermap.org/data/2.5/weather?q=,&units=metric&appid=k"
                .to_string()
        }
    );
}

#[test]
fn session_round_for_seattle() {
    let stage = until_reply("k", "US", "Seattle");
    let s = move_on(stage, Event::Reply(seattle()));
    assert_eq!(s.stage, Stage::AwaitAnswer);
    assert_eq!(s.lines.len(), 2);
    let report = &s.lines[0];
    assert_eq!(report.stream, Stream::Output);
    assert_eq!(report.tint, Tint::BrightBlue);
    assert_eq!(
        report.text,
        "Weather in Seattle: few clouds \u{26c5}\n    > Temperature: 15.0\u{b0}C,\n    > Humidity: 80.0%,\n    > Pressure: 1012.0 hPa,\n    > Wind Speed: 3.5 m/s"
    );
    let painted = report.paint();
    assert_eq!(painted.input, report.text);
    assert_eq!(painted.fgcolor, Some(Color::BrightBlue));
    assert_eq!(
        s.lines[1],
        question("Do you want to search for weather in another city? (yes/no):")
    );
    assert_eq!(ASK_AGAIN, "Do you want to search for weather in another city? (yes/no):");
}

#[test]
fn session_reports_a_failure_and_asks_again() {
    let stage = until_reply("k", "US", "Seattle");
    let s = move_on(stage, Event::Failure("error sending request for url".to_string()));
    assert_eq!(s.stage, Stage::AwaitAnswer);
    assert!(s.stage.is_running());
    assert_eq!(
        s.lines,
        vec![
            Line {
                stream: Stream::Error,
                text: "Error error sending request for url".to_string(),
                tint: Tint::Plain
            },
            question("Do you want to search for weather in another city? (yes/no):"),
        ]
    );
    assert_eq!(s.lines.iter().filter(|line| line.stream == Stream::Error).count(), 1);
    assert!(s.lines[0].text.contains("Error"));
    assert!(s.lines[0].paint().is_plain());
    let s = move_on(s.stage, Event::Input("y\n".to_string()));
    assert_eq!(s.stage, Stage::AwaitKey);
}

#[test]
fn session_goes_on_after_yes() {
    for answer in ["yes\n", "y\n", "YES\n", " Y \n"] {
        let s = move_on(Stage::AwaitAnswer, Event::Input(answer.to_string()));
        assert!(s.lines.is_empty(), "{:?}", answer);
        assert_eq!(s.stage, Stage::AwaitKey, "{:?}", answer);
    }
}

#[test]
fn session_ends_after_any_other_answer() {
    for answer in ["", "\n", "No\n", "maybe\n", "no", "yes!"] {
        let s = move_on(Stage::AwaitAnswer, Event::Input(answer.to_string()));
        assert_eq!(
            s.lines,
            vec![Line {
                stream: Stream::Output,
                text: "Thank you for using !".to_string(),
                tint: Tint::Plain
            }],
            "{:?}",
            answer
        );
        assert_eq!(s.stage, Stage::Finished, "{:?}", answer);
        assert!(!s.stage.is_running());
    }
    assert_eq!(FAREWELL, "Thank you for using !");
}

#[test]
fn session_reads_the_key_anew_each_round() {
    let stage = until_reply("first", "US", "Seattle");
    let s = move_on(stage, Event::Reply(seattle()));
    let s = move_on(s.stage, Event::Input("yes".to_string()));
    assert_eq!(s.stage, Stage::AwaitKey);
    let s = move_on(s.stage, Event::Key(Some("second".to_string())));
    let s = move_on(s.stage, Event::Input("FR".to_string()));
    let s = move_on(s.stage, Event::Input("Paris".to_string()));
    assert_eq!(
        s.stage,
        Stage::AwaitReply {
            url: "https://api.openweathermap.org/data/2.5/weather?q=Paris,FR&units=metric&appid=second"
                .to_string()
        }
    );
}

#[test]
fn stages_accept_what_they_wait_for() {
    let key = Event::Key(None);
    let input = Event::Input("x".to_string());
    let reply = Event::Reply(seattle());
    let failure = Event::Failure("f".to_string());
    let mut bare = seattle();
    bare.weather.clear();
    let bare = Event::Reply(bare);
    let waiting = Stage::AwaitReply { url: "u".to_string() };
    let stages = [
        (Stage::AwaitKey, [true, false, false, false, false]),
        (Stage::AwaitCountry { api_key: "k".to_string() }, [false, true, false, false, false]),
        (
            Stage::AwaitCity { api_key: "k".to_string(), country: "c".to_string() },
            [false, true, false, false, false],
        ),
        (waiting, [false, false, true, true, false]),
        (Stage::AwaitAnswer, [false, true, false, false, false]),
        (Stage::Finished, [false; 5]),
        (Stage::Aborted { reason: "r".to_string() }, [false; 5]),
    ];
    for (stage, expected) in stages {
        let got = [
            stage.accepts(&key),
            stage.accepts(&input),
            stage.accepts(&reply),
            stage.accepts(&failure),
            stage.accepts(&bare),
        ];
        assert_eq!(got, expected, "{:?}", stage);
    }
}
