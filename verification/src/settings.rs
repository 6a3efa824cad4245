use vstd::prelude::*;
use crate::errors::CoreError;

verus! {

/// The persisted user preferences. The file on disk is the single source of
/// truth: the value is written wholesale on every save and never cached.
pub struct AppSettings {
    pub auto_update: bool,
}

/// The `auto_update` value a settings text carries: `Some` exactly when the
/// text is a JSON object whose `auto_update` member is a boolean.
pub uninterp spec fn settings_of(s: Seq<char>) -> Option<bool>;

/// Relies on serde_json::from_str for `serde_json::Value` with Value::get and
/// Value::as_bool: reads the `auto_update` boolean out of a JSON settings
/// object, a function of the text alone. The last two clauses record that the
/// decoder reads the writer's own two texts back to their values, which the
/// parser's documented handling of a plain boolean member gives directly.
#[verifier::external_body]
fn decode_settings(s: &str) -> (r: Option<bool>)
    ensures
        r == settings_of(s@),
        s@ == settings_text_spec(true) ==> r == Some(true),
        s@ == settings_text_spec(false) ==> r == Some(false),
{
    let v: serde_json::Value = match serde_json::from_str(s) {
        Ok(v) => v,
        Err(_) => return None,
    };
    v.get("auto_update").and_then(serde_json::Value::as_bool)
}

/// The exact text written for a settings value: a pretty-printed JSON object
/// with the one `auto_update` member.
pub open spec fn settings_text_spec(auto_update: bool) -> Seq<char> {
    if auto_update {
        "{\n  \"auto_update\": true\n}"@
    } else {
        "{\n  \"auto_update\": false\n}"@
    }
}

/// Serialises a settings value to the text stored in the settings file.
pub fn settings_text(settings: &AppSettings) -> (r: String)
    ensures
        r@ == settings_text_spec(settings.auto_update),
{
    if settings.auto_update {
        "{\n  \"auto_update\": true\n}".to_owned()
    } else {
        "{\n  \"auto_update\": false\n}".to_owned()
    }
}

/// Loads settings from the file's content. An absent file (`None`) is the
/// default — `auto_update` off — and writes nothing; present but unparsable
/// content is a parse error, never a silent default. The last two clauses
/// state the round trip: loading the exact text `settings_text` writes gives
/// back the value written, for either value.
pub fn settings_from_content(content: Option<&str>) -> (r: Result<AppSettings, CoreError>)
    ensures
        content is None ==> r == Ok::<AppSettings, CoreError>(
            (AppSettings { auto_update: false }),
        ),
        content matches Some(s) ==> (s@ == settings_text_spec(true) ==> r == Ok::<
            AppSettings,
            CoreError,
        >((AppSettings { auto_update: true }))),
        content matches Some(s) ==> (s@ == settings_text_spec(false) ==> r == Ok::<
            AppSettings,
            CoreError,
        >((AppSettings { auto_update: false }))),
        content matches Some(s) ==> (settings_of(s@) matches Some(b) ==> r == Ok::<
            AppSettings,
            CoreError,
        >((AppSettings { auto_update: b }))),
        content matches Some(s) ==> (settings_of(s@) is None ==> r matches Err(
            CoreError::SettingsParseFailed(_),
        )),
{
    match content {
        None => Ok(AppSettings { auto_update: false }),
        Some(s) => match decode_settings(s) {
            Some(b) => Ok(AppSettings { auto_update: b }),
            None => Err(
                CoreError::SettingsParseFailed(
                    "the settings file is not a JSON object with an auto_update boolean".to_owned(),
                ),
            ),
        },
    }
}

} // verus!
