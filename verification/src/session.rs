//! A session at the station: rounds of questions, one request and one
//! report each, until the visitor declines another round.
//!
//! The session does nothing to the outside world itself. It is a machine:
//! a stage says what the session waits for, `step` takes what came and
//! gives the next stage and the lines to show before waiting again.

use crate::report::{format_weather, weather_text};
use crate::request::{request_url, weather_url};
use crate::response::{Conditions, WeatherResponse};
use crate::text::{
    clean_line, lemma_occurs_with_more_after, lowercase_of, occurs_in, to_lowercase, trimmed,
};
use crate::tint::{colorize, description_tint, styled_codes, styled_text, tint_for, Tint};
use colored::ColoredString;
use vstd::prelude::*;
use vstd::string::StringExecFns;

verus! {

/// The greeting at the start of a session.
pub const BANNER: &'static str = "Welcome to Weather Station!";

/// The first question of a round.
pub const ASK_COUNTRY: &'static str = "Please enter the name of the country:";

/// The second question of a round.
pub const ASK_CITY: &'static str = "Please enter the name of the city:";

/// The question at the end of a round.
pub const ASK_AGAIN: &'static str = "Do you want to search for weather in another city? (yes/no):";

/// The last line of a session that the visitor ends.
pub const FAREWELL: &'static str = "Thank you for using !";

/// Why a session ends where the environment holds no API key.
pub const KEY_MISSING: &'static str = "Open Weather Api Key not found in .env file";

/// Where a line is shown: on the standard output or on the error stream.
#[derive(Clone, Copy, Debug, PartialEq, Eq)]
pub enum Stream {
    Output,
    Error,
}

/// A line to show, with its place and its look.
#[derive(Clone, Debug, PartialEq, Eq)]
pub struct Line {
    pub stream: Stream,
    pub text: String,
    pub tint: Tint,
}

/// A line as plain values.
pub struct LineView {
    pub stream: Stream,
    pub text: Seq<char>,
    pub tint: Tint,
}

impl View for Line {
    type V = LineView;

    open spec fn view(&self) -> LineView {
        LineView { stream: self.stream, text: self.text@, tint: self.tint }
    }
}

/// What the session waits for.
#[derive(Clone, Debug, PartialEq, Eq)]
pub enum Stage {
    /// For the API key, at the start of each round.
    AwaitKey,
    /// For the line that names the country.
    AwaitCountry { api_key: String },
    /// For the line that names the city.
    AwaitCity { api_key: String, country: String },
    /// For the service's reply to the request at `url`.
    AwaitReply { url: String },
    /// For the line that says whether another round is wanted.
    AwaitAnswer,
    /// For nothing: the visitor has left, and the program ends well.
    Finished,
    /// For nothing: the station cannot work, and the program ends at once
    /// with `reason`.
    Aborted { reason: String },
}

/// A stage as plain values.
pub enum StageView {
    AwaitKey,
    AwaitCountry { api_key: Seq<char> },
    AwaitCity { api_key: Seq<char>, country: Seq<char> },
    AwaitReply { url: Seq<char> },
    AwaitAnswer,
    Finished,
    Aborted { reason: Seq<char> },
}

impl View for Stage {
    type V = StageView;

    open spec fn view(&self) -> StageView {
        match self {
            Stage::AwaitKey => StageView::AwaitKey,
            Stage::AwaitCountry { api_key } => StageView::AwaitCountry { api_key: api_key@ },
            Stage::AwaitCity { api_key, country } => StageView::AwaitCity {
                api_key: api_key@,
                country: country@,
            },
            Stage::AwaitReply { url } => StageView::AwaitReply { url: url@ },
            Stage::AwaitAnswer => StageView::AwaitAnswer,
            Stage::Finished => StageView::Finished,
            Stage::Aborted { reason } => StageView::Aborted { reason: reason@ },
        }
    }
}

/// What came in from outside.
#[derive(Clone, Debug, PartialEq, Eq)]
pub enum Event {
    /// The API key as the environment has it, or its absence.
    Key(Option<String>),
    /// A line as it was read from the standard input.
    Input(String),
    /// The reply of the weather service.
    Reply(WeatherResponse),
    /// The request failed, or its reply could not be read; with the reason.
    Failure(String),
}

/// An event as plain values.
pub enum EventView {
    Key(Option<Seq<char>>),
    Input(Seq<char>),
    Reply(Conditions),
    Failure(Seq<char>),
}

impl View for Event {
    type V = EventView;

    open spec fn view(&self) -> EventView {
        match self {
            Event::Key(Some(key)) => EventView::Key(Some(key@)),
            Event::Key(None) => EventView::Key(None),
            Event::Input(raw) => EventView::Input(raw@),
            Event::Reply(response) => EventView::Reply(response@),
            Event::Failure(reason) => EventView::Failure(reason@),
        }
    }
}

/// One move of the session: the lines to show, in order, and the stage in
/// which the session then waits.
#[derive(Clone, Debug, PartialEq, Eq)]
pub struct Step {
    pub lines: Vec<Line>,
    pub stage: Stage,
}

/// A move as plain values.
pub struct StepView {
    pub lines: Seq<LineView>,
    pub stage: StageView,
}

impl View for Step {
    type V = StepView;

    open spec fn view(&self) -> StepView {
        StepView { lines: self.lines@.map_values(|line: Line| line@), stage: self.stage@ }
    }
}

/// A question to the visitor.
pub open spec fn prompt(text: Seq<char>) -> LineView {
    LineView { stream: Stream::Output, text, tint: Tint::BrightGreen }
}

/// The report on a reply, in the colour of its description.
pub open spec fn report_line(c: Conditions) -> LineView {
    LineView {
        stream: Stream::Output,
        text: weather_text(c),
        tint: description_tint(c.description()),
    }
}

/// The line that tells of a failed request.
pub open spec fn failure_line(reason: Seq<char>) -> LineView {
    LineView { stream: Stream::Error, text: "Error "@ + reason, tint: Tint::Plain }
}

/// An answer as it is judged: without the white space around it, in lower
/// case.
pub open spec fn normalized(raw: Seq<char>) -> Seq<char> {
    lowercase_of(trimmed(raw))
}

/// The two answers that ask for another round.
pub open spec fn is_yes(answer: Seq<char>) -> bool {
    answer == "yes"@ || answer == "y"@
}

impl StageView {
    /// The session goes on; the other stages are its end.
    pub open spec fn running(self) -> bool {
        !(self is Finished) && !(self is Aborted)
    }

    /// The event is one that this stage waits for. A reply counts only
    /// where it describes the weather.
    pub open spec fn accepts(self, event: EventView) -> bool {
        match self {
            StageView::AwaitKey => event is Key,
            StageView::AwaitCountry { .. } => event is Input,
            StageView::AwaitCity { .. } => event is Input,
            StageView::AwaitReply { .. } => match event {
                EventView::Reply(c) => c.described(),
                EventView::Failure(_) => true,
                _ => false,
            },
            StageView::AwaitAnswer => event is Input,
            StageView::Finished => false,
            StageView::Aborted { .. } => false,
        }
    }
}

/// How the session begins: it greets, and waits for the key.
pub open spec fn opening() -> StepView {
    StepView {
        lines: seq![LineView { stream: Stream::Output, text: BANNER@, tint: Tint::BrightYellow }],
        stage: StageView::AwaitKey,
    }
}

/// The move that an event brings about in a stage that accepts it.
///
/// Without a key the session ends at once and shows nothing. With one it
/// asks for the country, then for the city, and waits for the reply to the
/// request for that place. A reply is shown as a report, a failure as one
/// line on the error stream; after either the session asks whether to go
/// on. The answers `yes` and `y`, in any case and with any white space
/// around them, begin the next round; every other answer ends the session
/// with a farewell. An event that the stage does not wait for changes
/// nothing.
pub open spec fn next(stage: StageView, event: EventView) -> StepView {
    match (stage, event) {
        (StageView::AwaitKey, EventView::Key(Some(api_key))) => StepView {
            lines: seq![prompt(ASK_COUNTRY@)],
            stage: StageView::AwaitCountry { api_key },
        },
        (StageView::AwaitKey, EventView::Key(None)) => StepView {
            lines: Seq::empty(),
            stage: StageView::Aborted { reason: KEY_MISSING@ },
        },
        (StageView::AwaitCountry { api_key }, EventView::Input(raw)) => StepView {
            lines: seq![prompt(ASK_CITY@)],
            stage: StageView::AwaitCity { api_key, country: trimmed(raw) },
        },
        (StageView::AwaitCity { api_key, country }, EventView::Input(raw)) => StepView {
            lines: Seq::empty(),
            stage: StageView::AwaitReply { url: request_url(api_key, trimmed(raw), country) },
        },
        (StageView::AwaitReply { .. }, EventView::Reply(c)) => StepView {
            lines: seq![report_line(c), prompt(ASK_AGAIN@)],
            stage: StageView::AwaitAnswer,
        },
        (StageView::AwaitReply { .. }, EventView::Failure(reason)) => StepView {
            lines: seq![failure_line(reason), prompt(ASK_AGAIN@)],
            stage: StageView::AwaitAnswer,
        },
        (StageView::AwaitAnswer, EventView::Input(raw)) => if is_yes(normalized(raw)) {
            StepView { lines: Seq::empty(), stage: StageView::AwaitKey }
        } else {
            StepView {
                lines: seq![LineView { stream: Stream::Output, text: FAREWELL@, tint: Tint::Plain }],
                stage: StageView::Finished,
            }
        },
        _ => StepView { lines: Seq::empty(), stage },
    }
}

/// The answer decides alone: `yes` and `y` lead to the next round, which
/// begins with the key; every other answer, the empty one too, ends the
/// session.
pub proof fn lemma_answer_decides(raw: Seq<char>)
    ensures
        is_yes(normalized(raw)) ==> next(StageView::AwaitAnswer, EventView::Input(raw)).stage
            == StageView::AwaitKey,
        !is_yes(normalized(raw)) ==> next(StageView::AwaitAnswer, EventView::Input(raw)).stage
            == StageView::Finished,
        next(StageView::AwaitAnswer, EventView::Input(raw)).stage.running() <==> is_yes(
            normalized(raw),
        ),
{
}

/// A failed request ends no session: it gives one line on the error
/// stream, which holds the word `Error` and the reason, and then the
/// question whether to go on.
pub proof fn lemma_failure_asks_again(url: Seq<char>, reason: Seq<char>)
    ensures
        ({
            let after = next(StageView::AwaitReply { url }, EventView::Failure(reason));
            &&& after.stage == StageView::AwaitAnswer
            &&& after.lines.len() == 2
            &&& after.lines[0].stream == Stream::Error
            &&& occurs_in("Error"@, after.lines[0].text)
            &&& after.lines[0].text == "Error "@ + reason
            &&& after.lines[1] == prompt(ASK_AGAIN@)
        }),
{
    reveal_strlit("Error");
    reveal_strlit("Error ");
    let lead = "Error "@;
    assert("Error"@.len() == 5);
    assert(lead.subrange(0int, 0int + "Error"@.len()) =~= "Error"@);
    assert(occurs_in("Error"@, lead));
    lemma_occurs_with_more_after("Error"@, lead, reason);
}

/// Without a key nothing is asked: the session ends at once, with the
/// reason and with no line to show.
pub proof fn lemma_no_key_no_question()
    ensures
        opening().stage == StageView::AwaitKey,
        next(StageView::AwaitKey, EventView::Key(None)).lines.len() == 0,
        next(StageView::AwaitKey, EventView::Key(None)).stage == (StageView::Aborted {
            reason: KEY_MISSING@,
        }),
{
}

/// The end is final: a session that has ended accepts no event. And a
/// session that goes on ends on an answer or for want of a key, never
/// otherwise.
pub proof fn lemma_end_is_final(stage: StageView, event: EventView)
    ensures
        !stage.running() ==> !stage.accepts(event),
        stage.accepts(event) && !next(stage, event).stage.running() ==> {
            ||| stage == StageView::AwaitAnswer
            ||| stage == StageView::AwaitKey && event == EventView::Key(None)
        },
{
}

/// Whether an answer, already normalized, asks for another round.
pub fn is_affirmative(answer: &str) -> (out: bool)
    ensures
        out == is_yes(answer@),
{
    answer.eq("yes") || answer.eq("y")
}

/// Whether the visitor's answer, as it was read, asks for another round.
pub fn wants_another(raw: &str) -> (out: bool)
    ensures
        out == is_yes(normalized(raw@)),
{
    let answer = clean_line(raw);
    let lowered = to_lowercase(answer.as_str());
    is_affirmative(lowered.as_str())
}

/// The question `text` as a line.
fn ask(text: &'static str) -> (out: Line)
    ensures
        out@ == prompt(text@),
{
    Line { stream: Stream::Output, text: text.to_owned(), tint: Tint::BrightGreen }
}

impl Line {
    /// The line in its look, ready to be shown.
    pub fn paint(&self) -> (out: ColoredString)
        ensures
            styled_text(out) == self@.text,
            styled_codes(out) == self@.tint.codes(),
    {
        colorize(self.text.as_str(), self.tint)
    }
}

impl Stage {
    /// Whether the session goes on.
    pub fn is_running(&self) -> (out: bool)
        ensures
            out == self@.running(),
    {
        match self {
            Stage::Finished => false,
            Stage::Aborted { .. } => false,
            _ => true,
        }
    }

    /// Whether the event is one that this stage waits for.
    pub fn accepts(&self, event: &Event) -> (out: bool)
        ensures
            out == self@.accepts(event@),
    {
        match self {
            Stage::AwaitKey => match event {
                Event::Key(_) => true,
                _ => false,
            },
            Stage::AwaitCountry { .. } | Stage::AwaitCity { .. } | Stage::AwaitAnswer => match event {
                Event::Input(_) => true,
                _ => false,
            },
            Stage::AwaitReply { .. } => match event {
                Event::Reply(response) => response.is_described(),
                Event::Failure(_) => true,
                _ => false,
            },
            Stage::Finished => false,
            Stage::Aborted { .. } => false,
        }
    }
}

/// The first move of a session.
pub fn start() -> (out: Step)
    ensures
        out@ == opening(),
{
    let mut lines: Vec<Line> = Vec::new();
    lines.push(Line { stream: Stream::Output, text: BANNER.to_owned(), tint: Tint::BrightYellow });
    let out = Step { lines, stage: Stage::AwaitKey };
    assert(out@.lines =~= opening().lines);
    out
}

/// The move that `event` brings about in `stage`.
pub fn step(stage: Stage, event: Event) -> (out: Step)
    requires
        stage@.accepts(event@),
    ensures
        out@ == next(stage@, event@),
{
    let mut lines: Vec<Line> = Vec::new();
    let ghost want = next(stage@, event@);
    let after = match (stage, event) {
        (Stage::AwaitKey, Event::Key(Some(api_key))) => {
            lines.push(ask(ASK_COUNTRY));
            Stage::AwaitCountry { api_key }
        },
        (Stage::AwaitKey, Event::Key(None)) => Stage::Aborted { reason: KEY_MISSING.to_owned() },
        (Stage::AwaitCountry { api_key }, Event::Input(raw)) => {
            lines.push(ask(ASK_CITY));
            Stage::AwaitCity { api_key, country: clean_line(raw.as_str()) }
        },
        (Stage::AwaitCity { api_key, country }, Event::Input(raw)) => {
            let city = clean_line(raw.as_str());
            Stage::AwaitReply { url: weather_url(api_key.as_str(), city.as_str(), country.as_str()) }
        },
        (Stage::AwaitReply { .. }, Event::Reply(response)) => {
            let text = format_weather(&response);
            let tint = tint_for(response.weather[0].description.as_str());
            lines.push(Line { stream: Stream::Output, text, tint });
            lines.push(ask(ASK_AGAIN));
            Stage::AwaitAnswer
        },
        (Stage::AwaitReply { .. }, Event::Failure(reason)) => {
            let mut text = String::new();
            text.append("Error ");
            text.append(reason.as_str());
            assert(text@ =~= "Error "@ + reason@);
            lines.push(Line { stream: Stream::Error, text, tint: Tint::Plain });
            lines.push(ask(ASK_AGAIN));
            Stage::AwaitAnswer
        },
        (Stage::AwaitAnswer, Event::Input(raw)) => {
            if wants_another(raw.as_str()) {
                Stage::AwaitKey
            } else {
                lines.push(Line { stream: Stream::Output, text: FAREWELL.to_owned(), tint: Tint::Plain });
                Stage::Finished
            }
        },
        (stage, _) => stage,
    };
    let out = Step { lines, stage: after };
    assert(out@.lines =~= want.lines);
    out
}

} // verus!
