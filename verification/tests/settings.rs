use clip_upload::settings::{submit_args, SettingsError, SubmitArgs};

fn s(v: &str) -> Option<String> {
    Some(v.to_string())
}

#[test]
fn both_settings_present() {
    assert_eq!(
        submit_args(s("tok"), s("https://share.example.com")),
        Ok(SubmitArgs { token: "tok".to_string(), server_url: "https://share.example.com".to_string() })
    );
}

#[test]
fn token_missing_or_empty() {
    assert_eq!(submit_args(None, s("https://x")), Err(SettingsError::TokenEmpty));
    assert_eq!(submit_args(s(""), s("https://x")), Err(SettingsError::TokenEmpty));
}

#[test]
fn server_missing_or_empty() {
    assert_eq!(submit_args(s("tok"), None), Err(SettingsError::ServerEmpty));
    assert_eq!(submit_args(s("tok"), s("")), Err(SettingsError::ServerEmpty));
}

#[test]
fn token_is_looked_at_first() {
    assert_eq!(submit_args(None, None), Err(SettingsError::TokenEmpty));
    assert_eq!(submit_args(s(""), s("")), Err(SettingsError::TokenEmpty));
}

#[test]
fn address_is_not_checked_here() {
    assert_eq!(
        submit_args(s(" "), s("no address at all")),
        Ok(SubmitArgs { token: " ".to_string(), server_url: "no address at all".to_string() })
    );
}

#[test]
fn settings_errors_in_words() {
    assert_eq!(SettingsError::TokenEmpty.message(), "Token is empty. Check settings");
    assert_eq!(SettingsError::ServerEmpty.message(), "Server URL is empty. Check settings");
}
