use vstd::prelude::*;
use vstd::string::{StringExecFns, StringSliceAdditionalSpecFns};
use vstd::utf8::encode_utf8;
use crate::mpv::ObservedPropID;
use crate::numtext::{int_chars, int_text, parse_i64, parse_int};
use crate::text::str_eq;

verus! {

/// A JSON value as the translation layer reads it.
#[derive(Debug)]
pub enum JsonValue {
    Null,
    Bool(bool),
    /// A number: its text as the JSON library displays it, and its value when that is a
    /// signed 64-bit integer.
    Number(String, Option<i64>),
    Str(String),
    Array(Vec<JsonValue>),
    /// Members of an object; names are unique.
    Object(Vec<(String, JsonValue)>),
}

/// One thing to do on the player on behalf of a client message.
#[derive(Debug)]
pub enum Step {
    /// Read a boolean property and write back its negation.
    Toggle(ObservedPropID),
    /// Observe the volume (its failure is ignored), then set it.
    SetVolume(i64),
    /// Reply with the player's status.
    SendStatus,
    /// Run a player command with these arguments.
    Command(Vec<String>),
    /// Load the file `name` in directory `dir` under the working directory, in this mode.
    LoadLocal(String, String, String),
}

/// A step seen with its strings as character sequences.
pub enum StepView {
    Toggle(ObservedPropID),
    SetVolume(i64),
    SendStatus,
    Command(Seq<Seq<char>>),
    LoadLocal(Seq<char>, Seq<char>, Seq<char>),
}

impl View for Step {
    type V = StepView;

    open spec fn view(&self) -> StepView {
        match self {
            Step::Toggle(p) => StepView::Toggle(*p),
            Step::SetVolume(v) => StepView::SetVolume(*v),
            Step::SendStatus => StepView::SendStatus,
            Step::Command(args) => StepView::Command(args@.map_values(|s: String| s@)),
            Step::LoadLocal(d, n, m) => StepView::LoadLocal(d@, n@, m@),
        }
    }
}

/// Why a client message could not be carried out; the message is skipped.
#[derive(Debug, Clone, Copy, PartialEq, Eq, Structural)]
pub enum TranslateError {
    /// The message lacks the data its event needs, or the data has the wrong shape.
    MissingData,
    /// A number that is not a usable 64-bit integer.
    BadNumber,
    /// A local file reference without a textual directory and name.
    MissingField,
}

/// What a client message asks for: the steps to run in order, then the error that stopped
/// the rest, if any.
#[derive(Debug)]
pub struct Plan {
    pub steps: Vec<Step>,
    pub error: Option<TranslateError>,
}

/// The value of member `key` of an object.
pub open spec fn member(fields: Seq<(String, JsonValue)>, key: Seq<char>) -> Option<JsonValue>
    decreases fields.len(),
{
    if fields.len() == 0 {
        None
    } else if fields[0].0@ == key {
        Some(fields[0].1)
    } else {
        member(fields.skip(1), key)
    }
}

pub open spec fn command(args: Seq<Seq<char>>) -> StepView {
    StepView::Command(args)
}

/// The steps for loading a URL and/or a local file, in `mode`.
pub open spec fn load_plan(data: Option<JsonValue>, mode: Seq<char>) -> (Seq<StepView>, Option<TranslateError>) {
    match data {
        Some(JsonValue::Object(f)) => {
            let by_url = match member(f@, "url"@) {
                Some(JsonValue::Str(u)) => seq![command(seq!["loadfile"@, u@, mode])],
                _ => Seq::empty(),
            };
            match member(f@, "file"@) {
                Some(JsonValue::Object(file)) => match (member(file@, "dir"@), member(file@, "name"@)) {
                    (Some(JsonValue::Str(d)), Some(JsonValue::Str(n))) => (
                        by_url.push(StepView::LoadLocal(d@, n@, mode)),
                        None,
                    ),
                    _ => (by_url, Some(TranslateError::MissingField)),
                },
                _ => (by_url, None),
            }
        },
        _ => (Seq::empty(), Some(TranslateError::MissingData)),
    }
}

/// The steps for moving playlist entry `x` to the place of entry `y`.
pub open spec fn move_plan(data: Option<JsonValue>) -> (Seq<StepView>, Option<TranslateError>) {
    match data {
        Some(JsonValue::Array(a)) => if a@.len() < 2 {
            (Seq::empty(), Some(TranslateError::MissingData))
        } else {
            match (a@[0], a@[1]) {
                (JsonValue::Number(_, Some(x)), JsonValue::Number(_, Some(y))) => {
                    let to: int = if x < y {
                        y + 1
                    } else {
                        y as int
                    };
                    if to > i64::MAX {
                        (Seq::empty(), Some(TranslateError::BadNumber))
                    } else {
                        (
                            seq![command(seq!["playlist-move"@, int_chars(x as int), int_chars(to)])],
                            None,
                        )
                    }
                },
                _ => (Seq::empty(), Some(TranslateError::BadNumber)),
            }
        },
        _ => (Seq::empty(), Some(TranslateError::MissingData)),
    }
}

/// What a client message with event name `event` and data `data` asks of the player.
pub open spec fn plan_spec(event: Seq<char>, data: Option<JsonValue>) -> (Seq<StepView>, Option<TranslateError>) {
    if event == "toggle-play"@ {
        (seq![StepView::Toggle(ObservedPropID::Pause)], None)
    } else if event == "toggle-fullscreen"@ {
        (seq![StepView::Toggle(ObservedPropID::Fullscreen)], None)
    } else if event == "volume"@ {
        match data {
            Some(JsonValue::Str(s)) => match parse_int(encode_utf8(s@)) {
                Some(v) => (seq![StepView::SetVolume(v)], None),
                None => (Seq::empty(), Some(TranslateError::BadNumber)),
            },
            _ => (Seq::empty(), Some(TranslateError::MissingData)),
        }
    } else if event == "get-status"@ {
        (seq![StepView::SendStatus], None)
    } else if event == "seek"@ {
        match data {
            Some(JsonValue::Object(f)) => match member(f@, "relative"@) {
                Some(JsonValue::Number(t, _)) => (seq![command(seq!["seek"@, t@, "relative"@])], None),
                _ => match member(f@, "absolute"@) {
                    Some(JsonValue::Number(t, _)) => (
                        seq![command(seq!["seek"@, t@, "absolute"@])],
                        None,
                    ),
                    _ => (Seq::empty(), Some(TranslateError::MissingData)),
                },
            },
            _ => (Seq::empty(), Some(TranslateError::MissingData)),
        }
    } else if event == "skip"@ {
        match data {
            Some(JsonValue::Str(s)) => (seq![command(seq!["playlist-"@ + s@])], None),
            _ => (Seq::empty(), Some(TranslateError::MissingData)),
        }
    } else if event == "play-now"@ {
        load_plan(data, "replace"@)
    } else if event == "playlist-add"@ {
        load_plan(data, "append-play"@)
    } else if event == "playlist-remove"@ {
        match data {
            Some(JsonValue::Number(_, Some(i))) => (
                seq![command(seq!["playlist-remove"@, int_chars(i as int)])],
                None,
            ),
            Some(JsonValue::Number(_, None)) => (Seq::empty(), Some(TranslateError::BadNumber)),
            _ => (Seq::empty(), Some(TranslateError::MissingData)),
        }
    } else if event == "playlist-move"@ {
        move_plan(data)
    } else if event == "shutdown"@ {
        (seq![command(seq!["quit"@])], None)
    } else if event == "stop"@ {
        (seq![command(seq!["write-watch-later-config"@]), command(seq!["stop"@])], None)
    } else {
        (Seq::empty(), None)
    }
}

/// A plan seen with its strings as character sequences.
pub open spec fn plan_view(p: &Plan) -> (Seq<StepView>, Option<TranslateError>) {
    (p.steps@.map_values(|s: Step| s@), p.error)
}

/// The value of member `key` of an object.
pub fn get_member<'a>(fields: &'a Vec<(String, JsonValue)>, key: &str) -> (r: Option<&'a JsonValue>)
    ensures
        match member(fields@, key@) {
            Some(v) => r is Some && *r->Some_0 == v,
            None => r is None,
        },
{
    let mut i: usize = 0;
    assert(fields@.skip(0) =~= fields@);
    while i < fields.len()
        invariant
            i <= fields@.len(),
            member(fields@, key@) == member(fields@.skip(i as int), key@),
        decreases fields@.len() - i,
    {
        let ghost rest = fields@.skip(i as int);
        assert(rest.skip(1) =~= fields@.skip(i + 1));
        if str_eq(fields[i].0.as_str(), key) {
            return Some(&fields[i].1);
        }
        i = i + 1;
    }
    None
}

fn owned(s: &str) -> (r: String)
    ensures
        r@ == s@,
{
    s.to_owned()
}

fn command1(a: String) -> (r: Step)
    ensures
        r@ == command(seq![a@]),
{
    let mut v: Vec<String> = Vec::new();
    v.push(a);
    let r = Step::Command(v);
    assert(r@ == command(seq![a@])) by {
        assert(v@.map_values(|s: String| s@) =~= seq![a@]);
    }
    r
}

fn command2(a: String, b: String) -> (r: Step)
    ensures
        r@ == command(seq![a@, b@]),
{
    let mut v: Vec<String> = Vec::new();
    v.push(a);
    v.push(b);
    let r = Step::Command(v);
    assert(r@ == command(seq![a@, b@])) by {
        assert(v@.map_values(|s: String| s@) =~= seq![a@, b@]);
    }
    r
}

fn command3(a: String, b: String, c: String) -> (r: Step)
    ensures
        r@ == command(seq![a@, b@, c@]),
{
    let mut v: Vec<String> = Vec::new();
    v.push(a);
    v.push(b);
    v.push(c);
    let r = Step::Command(v);
    assert(r@ == command(seq![a@, b@, c@])) by {
        assert(v@.map_values(|s: String| s@) =~= seq![a@, b@, c@]);
    }
    r
}

fn single(step: Step) -> (r: Plan)
    ensures
        plan_view(&r) == (seq![step@], None::<TranslateError>),
{
    let mut steps: Vec<Step> = Vec::new();
    steps.push(step);
    let r = Plan { steps, error: None };
    assert(r.steps@.map_values(|s: Step| s@) =~= seq![step@]);
    r
}

fn failed(e: TranslateError) -> (r: Plan)
    ensures
        plan_view(&r) == (Seq::<StepView>::empty(), Some(e)),
{
    let r = Plan { steps: Vec::new(), error: Some(e) };
    assert(r.steps@.map_values(|s: Step| s@) =~= Seq::<StepView>::empty());
    r
}

fn load_steps(data: &Option<JsonValue>, mode: &str) -> (r: Plan)
    ensures
        plan_view(&r) == load_plan(*data, mode@),
{
    let f = match data {
        Some(JsonValue::Object(f)) => f,
        _ => {
            return failed(TranslateError::MissingData);
        },
    };
    let mut steps: Vec<Step> = Vec::new();
    match get_member(f, "url") {
        Some(JsonValue::Str(u)) => {
            steps.push(command3(owned("loadfile"), u.clone(), owned(mode)));
        },
        _ => {},
    }
    let ghost by_url = steps@.map_values(|s: Step| s@);
    let ghost expected_by_url = match member(f@, "url"@) {
        Some(JsonValue::Str(u)) => seq![command(seq!["loadfile"@, u@, mode@])],
        _ => Seq::<StepView>::empty(),
    };
    assert(by_url =~= expected_by_url);
    let error = match get_member(f, "file") {
        Some(JsonValue::Object(file)) => {
            match (get_member(file, "dir"), get_member(file, "name")) {
                (Some(JsonValue::Str(d)), Some(JsonValue::Str(n))) => {
                    steps.push(Step::LoadLocal(d.clone(), n.clone(), owned(mode)));
                    assert(steps@.map_values(|s: Step| s@) =~= by_url.push(
                        StepView::LoadLocal(d@, n@, mode@),
                    ));
                    None
                },
                _ => Some(TranslateError::MissingField),
            }
        },
        _ => None,
    };
    Plan { steps, error }
}

fn move_steps(data: &Option<JsonValue>) -> (r: Plan)
    ensures
        plan_view(&r) == move_plan(*data),
{
    let a = match data {
        Some(JsonValue::Array(a)) => a,
        _ => {
            return failed(TranslateError::MissingData);
        },
    };
    if a.len() < 2 {
        return failed(TranslateError::MissingData);
    }
    match (&a[0], &a[1]) {
        (JsonValue::Number(_, Some(x)), JsonValue::Number(_, Some(y))) => {
            let x = *x;
            let y = *y;
            if x < y && y == i64::MAX {
                return failed(TranslateError::BadNumber);
            }
            let to: i64 = if x < y {
                y + 1
            } else {
                y
            };
            single(command3(owned("playlist-move"), int_text(x), int_text(to)))
        },
        _ => failed(TranslateError::BadNumber),
    }
}

/// Decides what a client message asks of the player: event name `event` and its data.
pub fn plan(event: &str, data: &Option<JsonValue>) -> (r: Plan)
    ensures
        plan_view(&r) == plan_spec(event@, *data),
{
    if str_eq(event, "toggle-play") {
        single(Step::Toggle(ObservedPropID::Pause))
    } else if str_eq(event, "toggle-fullscreen") {
        single(Step::Toggle(ObservedPropID::Fullscreen))
    } else if str_eq(event, "volume") {
        match data {
            Some(JsonValue::Str(s)) => match parse_i64(s.as_str()) {
                Some(v) => single(Step::SetVolume(v)),
                None => failed(TranslateError::BadNumber),
            },
            _ => failed(TranslateError::MissingData),
        }
    } else if str_eq(event, "get-status") {
        single(Step::SendStatus)
    } else if str_eq(event, "seek") {
        match data {
            Some(JsonValue::Object(f)) => match get_member(f, "relative") {
                Some(JsonValue::Number(t, _)) => single(
                    command3(owned("seek"), t.clone(), owned("relative")),
                ),
                _ => match get_member(f, "absolute") {
                    Some(JsonValue::Number(t, _)) => single(
                        command3(owned("seek"), t.clone(), owned("absolute")),
                    ),
                    _ => failed(TranslateError::MissingData),
                },
            },
            _ => failed(TranslateError::MissingData),
        }
    } else if str_eq(event, "skip") {
        match data {
            Some(JsonValue::Str(s)) => {
                let mut a = owned("playlist-");
                a.append(s.as_str());
                single(command1(a))
            },
            _ => failed(TranslateError::MissingData),
        }
    } else if str_eq(event, "play-now") {
        load_steps(data, "replace")
    } else if str_eq(event, "playlist-add") {
        load_steps(data, "append-play")
    } else if str_eq(event, "playlist-remove") {
        match data {
            Some(JsonValue::Number(_, Some(i))) => single(
                command2(owned("playlist-remove"), int_text(*i)),
            ),
            Some(JsonValue::Number(_, None)) => failed(TranslateError::BadNumber),
            _ => failed(TranslateError::MissingData),
        }
    } else if str_eq(event, "playlist-move") {
        move_steps(data)
    } else if str_eq(event, "shutdown") {
        single(command1(owned("quit")))
    } else if str_eq(event, "stop") {
        let mut steps: Vec<Step> = Vec::new();
        let first = command1(owned("write-watch-later-config"));
        let second = command1(owned("stop"));
        steps.push(first);
        steps.push(second);
        let r = Plan { steps, error: None };
        assert(r.steps@.map_values(|s: Step| s@) =~= seq![first@, second@]);
        r
    } else {
        let r = Plan { steps: Vec::new(), error: None };
        assert(r.steps@.map_values(|s: Step| s@) =~= Seq::<StepView>::empty());
        r
    }
}

} // verus!
