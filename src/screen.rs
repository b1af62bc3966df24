use vstd::prelude::*;

use crate::config::{Loaded, ValidationError, Validator};

verus! {

/// Which screen the application shows.
pub enum Screen {
    Disconnected,
    Connected { state: ViewState },
    InvalidCredentials { kind: CredentialsKind },
}

/// Which service rejected the credentials.
#[derive(Clone, Copy, PartialEq, Eq, Structural, Debug)]
pub enum CredentialsKind {
    Twitch,
    Helix,
}

pub enum ViewState {
    Empty { buffer: String },
    MainView,
}

/// How a chat message is to be shown.
#[derive(Clone, Copy, PartialEq, Eq, Structural, Debug)]
pub struct MessageOpts {
    /// It comes from the stored history.
    pub old: bool,
    /// We sent it and the server has not echoed it yet.
    pub local: bool,
}

/// One of the settings of the setup screen.
#[derive(Clone, Copy, PartialEq, Eq, Structural, Debug)]
pub enum Field {
    UserName,
    OauthToken,
    ClientId,
    ClientSecret,
}

impl Field {
    /// Checks `input` by this setting's rule.
    pub fn check(&self, input: &str) -> (r: Result<(), ValidationError>)
        ensures
            r == match *self {
                Field::UserName => crate::config::user_name_result(input@),
                Field::OauthToken => crate::config::oauth_token_result(input@),
                Field::ClientId | Field::ClientSecret => crate::config::client_key_result(input@),
            },
    {
        match self {
            Field::UserName => Validator::user_name(input),
            Field::OauthToken => Validator::oauth_token(input),
            Field::ClientId => Validator::client_id(input),
            Field::ClientSecret => Validator::client_secret(input),
        }
    }
}

/// A row of the setup screen: its label, its current text, whether the text
/// is hidden, and the rule it is checked by.
pub type Value<'a> = (&'static str, &'a String, bool, Field);

/// The setup screen, shown until the settings pass validation.
pub struct NotReadyApp {
    pub loaded: Loaded,
}

impl NotReadyApp {
    pub fn create(loaded: Loaded) -> (r: NotReadyApp)
        ensures
            r.loaded == loaded,
    {
        NotReadyApp { loaded }
    }

    /// The rows of the setup screen, in order.
    pub fn values(&self) -> (r: [Value<'_>; 4])
        ensures
            r[0].0@ == "User Name"@ && *r[0].1 == self.loaded.user_name && !r[0].2 && r[0].3 == Field::UserName,
            r[1].0@ == "OAuth Token"@ && *r[1].1 == self.loaded.oauth_token && r[1].2 && r[1].3 == Field::OauthToken,
            r[2].0@ == "Client Id"@ && *r[2].1 == self.loaded.client_id && !r[2].2 && r[2].3 == Field::ClientId,
            r[3].0@ == "Client Secret"@ && *r[3].1 == self.loaded.client_secret && r[3].2 && r[3].3
                == Field::ClientSecret,
    {
        [
            ("User Name", &self.loaded.user_name, false, Field::UserName),
            ("OAuth Token", &self.loaded.oauth_token, true, Field::OauthToken),
            ("Client Id", &self.loaded.client_id, false, Field::ClientId),
            ("Client Secret", &self.loaded.client_secret, true, Field::ClientSecret),
        ]
    }

    /// Whether every setting passes its rule.
    pub fn ready(&self) -> (r: bool)
        ensures
            r == (crate::config::settings_result(self.loaded) is Ok),
    {
        Validator::validate(&self.loaded).is_ok()
    }
}

} // verus!
