use agl::game_entries::{GameComponentEntryValueStatus, GameSettingsEntryReactivity};
use agl::game_info::{GameImages, GameInfoDeserializeError};
use agl::json::JsonValue;

fn text(s: &str) -> JsonValue {
    JsonValue::Text(s.to_string())
}

fn object(fields: Vec<(&str, JsonValue)>) -> JsonValue {
    JsonValue::Object(fields.into_iter().map(|(k, v)| (k.to_string(), v)).collect())
}

fn images_json() -> JsonValue {
    object(vec![
        ("icon", text("https://example.org/icon.png")),
        ("poster", text("https://example.org/poster.png")),
        ("background", text("https://example.org/background.png")),
        ("slides", JsonValue::Array(vec![text("https://example.org/1.png"), text("https://example.org/2.png")])),
    ])
}

#[test]
fn game_images_are_read() {
    let images = GameImages::from_json(&images_json()).unwrap();

    assert_eq!(images.icon, "https://example.org/icon.png");
    assert_eq!(images.poster, "https://example.org/poster.png");
    assert_eq!(images.background, "https://example.org/background.png");
    assert_eq!(images.slides, vec!["https://example.org/1.png".to_string(), "https://example.org/2.png".to_string()]);
}

#[test]
fn game_images_roundtrip() {
    let images = GameImages {
        icon: "a".to_string(),
        poster: "b".to_string(),
        background: "c".to_string(),
        slides: vec![],
    };

    assert_eq!(GameImages::from_json(&images.to_json()), Ok(images.clone()));
}

#[test]
fn game_images_errors() {
    assert_eq!(GameImages::from_json(&JsonValue::Null), Err(GameInfoDeserializeError::MissingGameIcon));

    let no_poster = object(vec![("icon", text("i"))]);
    assert_eq!(GameImages::from_json(&no_poster), Err(GameInfoDeserializeError::MissingGamePoster));

    let number_background = object(vec![
        ("icon", text("i")),
        ("poster", text("p")),
        ("background", JsonValue::Number("1".to_string())),
    ]);
    assert_eq!(GameImages::from_json(&number_background), Err(GameInfoDeserializeError::MissingGameBackground));

    let bad_slides = object(vec![
        ("icon", text("i")),
        ("poster", text("p")),
        ("background", text("b")),
        ("slides", JsonValue::Array(vec![text("s"), JsonValue::Bool(true)])),
    ]);
    assert_eq!(GameImages::from_json(&bad_slides), Err(GameInfoDeserializeError::MissingGameSlides));
}

#[test]
fn game_info_error_messages() {
    assert_eq!(GameInfoDeserializeError::MissingGameIcon.message(), "game icon URL is not specified");
    assert_eq!(GameInfoDeserializeError::InvalidLocalizableString.message(), "invalid localizable string format");
}

#[test]
fn json_lookup_takes_the_first_member() {
    let value = object(vec![("k", text("first")), ("k", text("second"))]);

    assert_eq!(value.get("k").and_then(JsonValue::as_str), Some("first"));
    assert_eq!(value.get("missing"), None);
    assert_eq!(text("x").get("k"), None);
}

#[test]
fn settings_entry_reactivity_names() {

    for r in [GameSettingsEntryReactivity::NoRefresh, GameSettingsEntryReactivity::Relaxed, GameSettingsEntryReactivity::Release] {
        assert_eq!(GameSettingsEntryReactivity::from_str(&r.to_string()), Ok(r));
    }

    assert_eq!(GameSettingsEntryReactivity::NoRefresh.to_string(), "none");
    assert_eq!(GameSettingsEntryReactivity::from_str("Relaxed"), Err(()));
    assert_eq!(GameSettingsEntryReactivity::default(), GameSettingsEntryReactivity::Relaxed);
}

#[test]
fn component_value_status_names() {

    assert_eq!(GameComponentEntryValueStatus::from_str("default"), Ok(GameComponentEntryValueStatus::Normal));
    assert_eq!(GameComponentEntryValueStatus::from_str("warn"), Ok(GameComponentEntryValueStatus::Warning));
    assert_eq!(GameComponentEntryValueStatus::from_str("error"), Ok(GameComponentEntryValueStatus::Danger));
    assert_eq!(GameComponentEntryValueStatus::from_str("dangerous"), Ok(GameComponentEntryValueStatus::Danger));
    assert_eq!(GameComponentEntryValueStatus::from_str("success"), Ok(GameComponentEntryValueStatus::Success));
    assert_eq!(GameComponentEntryValueStatus::from_str("fine"), Err(()));
    assert_eq!(GameComponentEntryValueStatus::Danger.to_string(), "danger");
    assert_eq!(GameComponentEntryValueStatus::default(), GameComponentEntryValueStatus::Normal);
}
