use video_smart_downloader::errors::CoreError;
use video_smart_downloader::settings::{settings_from_content, settings_text, AppSettings};

#[test]
fn fresh_environment_loads_default() {
    let s = settings_from_content(None).unwrap();
    assert!(!s.auto_update);
}

#[test]
fn save_then_load_round_trips() {
    for value in [true, false] {
        let text = settings_text(&AppSettings { auto_update: value });
        let loaded = settings_from_content(Some(text.as_str())).unwrap();
        assert_eq!(loaded.auto_update, value);
    }
}

#[test]
fn settings_text_is_the_pretty_object() {
    assert_eq!(
        settings_text(&AppSettings { auto_update: true }),
        "{\n  \"auto_update\": true\n}"
    );
    assert_eq!(
        settings_text(&AppSettings { auto_update: false }),
        "{\n  \"auto_update\": false\n}"
    );
}

#[test]
fn unparsable_settings_surface_a_parse_error() {
    let r = settings_from_content(Some("not json at all"));
    assert!(matches!(r, Err(CoreError::SettingsParseFailed(_))));
}

#[test]
fn wrongly_typed_settings_surface_a_parse_error() {
    let r = settings_from_content(Some("{\"auto_update\": 1}"));
    assert!(matches!(r, Err(CoreError::SettingsParseFailed(_))));
    let r = settings_from_content(Some("{}"));
    assert!(matches!(r, Err(CoreError::SettingsParseFailed(_))));
}

#[test]
fn extra_members_are_tolerated() {
    let r = settings_from_content(Some("{\"auto_update\": true, \"other\": [1,2]}")).unwrap();
    assert!(r.auto_update);
}
