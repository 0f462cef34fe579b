use mpv_remote::bridge::{feed_reply, FeedEvent, FeedReply};
use mpv_remote::mpv::ObservedPropID;
use mpv_remote::numtext::{int_text, parse_i64};
use mpv_remote::translate::{get_member, plan, JsonValue, Step, TranslateError};

fn num(text: &str, v: Option<i64>) -> JsonValue {
    JsonValue::Number(text.to_string(), v)
}

fn obj(fields: Vec<(&str, JsonValue)>) -> Option<JsonValue> {
    Some(JsonValue::Object(fields.into_iter().map(|(k, v)| (k.to_string(), v)).collect()))
}

fn commands(steps: &[Step]) -> Vec<Vec<String>> {
    steps
        .iter()
        .map(|s| match s {
            Step::Command(args) => args.clone(),
            other => panic!("not a command: {:?}", other),
        })
        .collect()
}

#[test]
fn toggles_and_status() {
    let p = plan("toggle-play", &None);
    assert!(matches!(p.steps.as_slice(), [Step::Toggle(ObservedPropID::Pause)]));
    assert_eq!(p.error, None);
    assert!(matches!(plan("toggle-fullscreen", &None).steps.as_slice(), [Step::Toggle(ObservedPropID::Fullscreen)]));
    assert!(matches!(plan("get-status", &None).steps.as_slice(), [Step::SendStatus]));
    let p = plan("unknown", &None);
    assert!(p.steps.is_empty());
    assert_eq!(p.error, None);
}

#[test]
fn volume() {
    let p = plan("volume", &Some(JsonValue::Str("-35".to_string())));
    assert!(matches!(p.steps.as_slice(), [Step::SetVolume(-35)]));
    assert_eq!(plan("volume", &Some(JsonValue::Str("x".to_string()))).error, Some(TranslateError::BadNumber));
    assert_eq!(plan("volume", &Some(num("3", Some(3)))).error, Some(TranslateError::MissingData));
}

#[test]
fn seek() {
    let p = plan("seek", &obj(vec![("relative", num("-10", Some(-10)))]));
    assert_eq!(commands(&p.steps), vec![vec!["seek", "-10", "relative"]]);
    let p = plan("seek", &obj(vec![("absolute", num("12.5", None))]));
    assert_eq!(commands(&p.steps), vec![vec!["seek", "12.5", "absolute"]]);
    let p = plan("seek", &obj(vec![("relative", JsonValue::Str("1".to_string())), ("absolute", num("4", Some(4)))]));
    assert_eq!(commands(&p.steps), vec![vec!["seek", "4", "absolute"]]);
    assert_eq!(plan("seek", &obj(vec![])).error, Some(TranslateError::MissingData));
    assert_eq!(plan("seek", &None).error, Some(TranslateError::MissingData));
}

#[test]
fn playlist_commands() {
    let p = plan("skip", &Some(JsonValue::Str("next".to_string())));
    assert_eq!(commands(&p.steps), vec![vec!["playlist-next"]]);
    let p = plan("playlist-remove", &Some(num("3", Some(3))));
    assert_eq!(commands(&p.steps), vec![vec!["playlist-remove", "3"]]);
    assert_eq!(plan("playlist-remove", &Some(num("1.5", None))).error, Some(TranslateError::BadNumber));
    let arr = |a: i64, b: i64| Some(JsonValue::Array(vec![num(&a.to_string(), Some(a)), num(&b.to_string(), Some(b))]));
    assert_eq!(commands(&plan("playlist-move", &arr(1, 4)).steps), vec![vec!["playlist-move", "1", "5"]]);
    assert_eq!(commands(&plan("playlist-move", &arr(4, 1)).steps), vec![vec!["playlist-move", "4", "1"]]);
    assert_eq!(plan("playlist-move", &arr(1, i64::MAX)).error, Some(TranslateError::BadNumber));
    assert_eq!(plan("playlist-move", &Some(JsonValue::Array(vec![]))).error, Some(TranslateError::MissingData));
    assert_eq!(commands(&plan("shutdown", &None).steps), vec![vec!["quit"]]);
    assert_eq!(commands(&plan("stop", &None).steps), vec![vec!["write-watch-later-config"], vec!["stop"]]);
}

#[test]
fn loading_files() {
    let p = plan("play-now", &obj(vec![("url", JsonValue::Str("http://x/y.mkv".to_string()))]));
    assert_eq!(commands(&p.steps), vec![vec!["loadfile", "http://x/y.mkv", "replace"]]);
    let file = JsonValue::Object(vec![
        ("dir".to_string(), JsonValue::Str("music".to_string())),
        ("name".to_string(), JsonValue::Str("a.flac".to_string())),
    ]);
    let p = plan("playlist-add", &obj(vec![("file", file)]));
    match p.steps.as_slice() {
        [Step::LoadLocal(d, n, m)] => {
            assert_eq!((d.as_str(), n.as_str(), m.as_str()), ("music", "a.flac", "append-play"));
        }
        other => panic!("unexpected {:?}", other),
    }
    let broken = JsonValue::Object(vec![("dir".to_string(), JsonValue::Str("music".to_string()))]);
    let p = plan("play-now", &obj(vec![("url", JsonValue::Str("u".to_string())), ("file", broken)]));
    assert_eq!(commands(&p.steps), vec![vec!["loadfile", "u", "replace"]]);
    assert_eq!(p.error, Some(TranslateError::MissingField));
    assert_eq!(plan("play-now", &None).error, Some(TranslateError::MissingData));
}

#[test]
fn member_lookup() {
    let fields = vec![("a".to_string(), JsonValue::Null), ("b".to_string(), JsonValue::Bool(true))];
    assert!(matches!(get_member(&fields, "b"), Some(JsonValue::Bool(true))));
    assert!(get_member(&fields, "c").is_none());
}

#[test]
fn feed_replies() {
    assert_eq!(feed_reply(FeedEvent::PropertyChange(ObservedPropID::Pause)), FeedReply::PushProperty(ObservedPropID::Pause));
    assert_eq!(feed_reply(FeedEvent::PropertyChange(ObservedPropID::TimePos)), FeedReply::PushProperty(ObservedPropID::TimePos));
    assert_eq!(feed_reply(FeedEvent::PropertyChange(ObservedPropID::Volume)), FeedReply::Nothing);
    assert_eq!(feed_reply(FeedEvent::PropertyChange(ObservedPropID::CoreIdle)), FeedReply::Nothing);
    assert_eq!(feed_reply(FeedEvent::FileLoaded), FeedReply::PushStatus);
    assert_eq!(feed_reply(FeedEvent::Seek), FeedReply::PushTimePos);
    assert_eq!(feed_reply(FeedEvent::Other), FeedReply::Nothing);
}

#[test]
fn integer_text() {
    for s in ["0", "7", "-7", "+12", "9223372036854775807", "-9223372036854775808", "007"] {
        assert_eq!(parse_i64(s), s.parse::<i64>().ok(), "{s}");
    }
    for s in ["", "-", "+", "1 ", " 1", "9223372036854775808", "-9223372036854775809", "1.0", "١", "99999999999999999999999"] {
        assert_eq!(parse_i64(s), None, "{s}");
    }
    for v in [0i64, 9, 10, -1, 1234567, i64::MAX, i64::MIN] {
        assert_eq!(int_text(v), v.to_string());
    }
}
