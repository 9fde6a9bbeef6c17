use am_presence::activity::{Activity, Assets, Button, Party, Secrets, Timestamps};
use am_presence::RichPresenceError;

#[test]
fn button_bounds_are_enforced() {
    let long_label = "x".repeat(33);
    let long_url = "u".repeat(513);
    assert_eq!(Button::new("", "u").err(), Some(RichPresenceError::ButtonCreateInvalidValue));
    assert_eq!(
        Button::new(&long_label, "u").err(),
        Some(RichPresenceError::ButtonCreateInvalidValue)
    );
    assert_eq!(Button::new("l", "").err(), Some(RichPresenceError::ButtonCreateInvalidValue));
    assert_eq!(
        Button::new("l", &long_url).err(),
        Some(RichPresenceError::ButtonCreateInvalidValue)
    );
    assert!(Button::new(&"x".repeat(32), &"u".repeat(512)).is_ok());
}

#[test]
fn button_label_counts_characters() {
    // 32 two-byte characters: 64 bytes, still 32 characters.
    assert!(Button::new(&"é".repeat(32), "u").is_ok());
    assert!(Button::new(&"é".repeat(33), "u").is_err());
}

#[test]
fn button_count_rules() {
    let b = || Button::new("Listen", "https://example.com").unwrap();
    let cleared = Activity::new().details("d").buttons(vec![]).unwrap();
    assert_eq!(cleared.to_json(), r#"{"details":"d"}"#);
    assert!(Activity::new().buttons(vec![b()]).is_ok());
    assert!(Activity::new().buttons(vec![b(), b()]).is_ok());
    assert_eq!(
        Activity::new().buttons(vec![b(), b(), b()]).err(),
        Some(RichPresenceError::TooManyButtons(3))
    );
}

#[test]
fn only_details_gives_one_key() {
    let json = Activity::new().details("Song").to_json();
    assert_eq!(json, r#"{"details":"Song"}"#);
    let value: serde_json::Value = serde_json::from_str(&json).unwrap();
    let object = value.as_object().unwrap();
    assert_eq!(object.len(), 1);
    assert!(object.contains_key("details"));
    assert!(!object.contains_key("buttons"));
}

#[test]
fn empty_activity_is_empty_object() {
    assert_eq!(Activity::new().to_json(), "{}");
    assert_eq!(Activity::default().to_json(), "{}");
}

#[test]
fn strings_are_escaped() {
    let json = Activity::new().state("say \"hi\"\n").to_json();
    assert_eq!(json, r#"{"state":"say \"hi\"\n"}"#);
}

#[test]
fn last_write_wins() {
    let json = Activity::new().details("a").details("b").to_json();
    assert_eq!(json, r#"{"details":"b"}"#);
}

#[test]
fn full_activity_projection() {
    let activity = Activity::new()
        .state("st")
        .details("de")
        .timestamps(Timestamps::new().start(-5).end(1300))
        .party(Party::new().id("p1").size([1, 3]))
        .assets(
            Assets::new()
                .large_image("big")
                .large_text("Big")
                .small_image("small")
                .small_text("Small"),
        )
        .secrets(Secrets::new().join("j").spectate("s").match_secret("m"))
        .buttons(vec![Button::new("One", "https://one").unwrap()])
        .unwrap();
    assert_eq!(
        activity.to_json(),
        [
            r#"{"details":"de","state":"st","timestamps":{"start":-5,"end":1300},"#,
            r#""party":{"id":"p1","size":[1,3]},"#,
            r#""assets":{"large_image":"big","large_text":"Big","small_image":"small","small_text":"Small"},"#,
            r#""secrets":{"join":"j","spectate":"s","match":"m"},"#,
            r#""buttons":[{"label":"One","url":"https://one"}]}"#
        ].concat()
    );
}

#[test]
fn partial_parts_omit_unset_fields() {
    assert_eq!(Timestamps::new().end(9).to_json(), r#"{"end":9}"#);
    assert_eq!(Party::new().size([2, 4]).to_json(), r#"{"size":[2,4]}"#);
    assert_eq!(Assets::new().small_text("t").to_json(), r#"{"small_text":"t"}"#);
    assert_eq!(Secrets::default().to_json(), "{}");
    assert_eq!(
        Timestamps::new().start(i64::MIN).to_json(),
        r#"{"start":-9223372036854775808}"#
    );
}

#[test]
fn two_buttons_in_order() {
    let json = Activity::new()
        .buttons(vec![
            Button::new("A", "https://a").unwrap(),
            Button::new("B", "https://b").unwrap(),
        ])
        .unwrap()
        .to_json();
    assert_eq!(
        json,
        r#"{"buttons":[{"label":"A","url":"https://a"},{"label":"B","url":"https://b"}]}"#
    );
}

#[test]
fn control_characters_are_escaped() {
    let json = Activity::new().details("a\u{1}b\u{8}\u{c}\r\t\\\u{7f}").to_json();
    assert_eq!(json, "{\"details\":\"a\\u0001b\\b\\f\\r\\t\\\\\u{7f}\"}");
}
