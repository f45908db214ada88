//! What an upload needs from the settings of the user.

use vstd::prelude::*;

verus! {

/// The settings that an upload is started with.
#[derive(Clone, Debug, PartialEq, Eq)]
pub struct SubmitArgs {
    pub token: String,
    pub server_url: String,
}

/// A setting that an upload cannot do without.
#[derive(Clone, Copy, Debug, PartialEq, Eq, Structural)]
pub enum SettingsError {
    /// No token is stored, or an empty one.
    TokenEmpty,
    /// No server address is stored, or an empty one.
    ServerEmpty,
}

/// A setting that is stored and not empty.
pub open spec fn present(value: Option<String>) -> bool {
    value matches Some(s) && s@.len() > 0
}

impl SettingsError {
    /// The error in words.
    pub fn message(&self) -> (r: String)
        ensures
            r@ == match *self {
                SettingsError::TokenEmpty => "Token is empty. Check settings"@,
                SettingsError::ServerEmpty => "Server URL is empty. Check settings"@,
            },
    {
        match self {
            SettingsError::TokenEmpty => "Token is empty. Check settings".to_owned(),
            SettingsError::ServerEmpty => "Server URL is empty. Check settings".to_owned(),
        }
    }
}

/// Takes the token and the address of the server from what is stored. Both
/// have to be there and not empty; the token is looked at first. Whether the
/// address is one that can be reached is for the transport to find out.
pub fn submit_args(token: Option<String>, server_url: Option<String>) -> (r: Result<
    SubmitArgs,
    SettingsError,
>)
    ensures
        match r {
            Ok(args) => present(token) && present(server_url) && token == Some(args.token)
                && server_url == Some(args.server_url),
            Err(SettingsError::TokenEmpty) => !present(token),
            Err(SettingsError::ServerEmpty) => present(token) && !present(server_url),
        },
{
    let token = match token {
        Some(value) => {
            if value.as_str().is_empty() {
                return Err(SettingsError::TokenEmpty);
            }
            value
        },
        None => {
            return Err(SettingsError::TokenEmpty);
        },
    };
    let server_url = match server_url {
        Some(value) => {
            if value.as_str().is_empty() {
                return Err(SettingsError::ServerEmpty);
            }
            value
        },
        None => {
            return Err(SettingsError::ServerEmpty);
        },
    };
    Ok(SubmitArgs { token, server_url })
}

} // verus!
