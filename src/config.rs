use vstd::prelude::*;
use vstd::string::*;
use vstd::utf8::encode_utf8;

use crate::wire::{decimal, decimal_text};

verus! {

/// What `str::trim` leaves of `s`: it takes off leading and trailing
/// Unicode white space.
pub uninterp spec fn trim_of(s: Seq<char>) -> Seq<char>;

/// Relies on `str::trim`: the text without leading and trailing white
/// space, as Unicode's `White_Space` property defines it.
#[verifier::external_body]
fn trimmed(s: &str) -> (r: &str)
    ensures
        r@ == trim_of(s@),
{
    s.trim()
}

/// The settings the application needs before it can connect.
pub struct Loaded {
    pub active: usize,
    pub user_name: String,
    pub oauth_token: String,
    pub client_id: String,
    pub client_secret: String,
    pub channels: Vec<String>,
}

/// Why a setting is not acceptable.
#[derive(Clone, Copy, PartialEq, Eq, Structural, Debug)]
pub enum ValidationError {
    TokenPrefix,
    EmptyInput,
    InvalidLength { have: usize, require: usize },
}

pub open spec fn as_error_text(e: ValidationError) -> Seq<char> {
    match e {
        ValidationError::TokenPrefix => "OAuth token must start with `oauth:`"@,
        ValidationError::EmptyInput => "the input is empty"@,
        ValidationError::InvalidLength { have, require } => "invalid length:\nrequirement: "@
            + decimal_text(require as nat) + "\nhave: "@ + decimal_text(have as nat),
    }
}

impl ValidationError {
    /// The message shown beside the setting.
    pub fn as_error(&self) -> (r: String)
        ensures
            r@ == as_error_text(*self),
    {
        match self {
            ValidationError::TokenPrefix => "OAuth token must start with `oauth:`".to_owned(),
            ValidationError::EmptyInput => "the input is empty".to_owned(),
            ValidationError::InvalidLength { have, require } => {
                let head: String = "invalid length:\nrequirement: ".to_owned();
                let required = decimal(*require as u64);
                let had = decimal(*have as u64);
                head.concat(required.as_str()).concat("\nhave: ").concat(had.as_str())
            },
        }
    }
}

/// The length of `t` in bytes, as UTF-8; what `str::len` returns.
pub open spec fn byte_len(t: Seq<char>) -> usize {
    encode_utf8(t).len() as usize
}

pub open spec fn length_result(t: Seq<char>, max: usize) -> Result<(), ValidationError> {
    if byte_len(t) == max {
        Ok(())
    } else {
        Err(ValidationError::InvalidLength { have: byte_len(t), require: max })
    }
}

pub open spec fn user_name_result(s: Seq<char>) -> Result<(), ValidationError> {
    if trim_of(s).len() == 0 {
        Err(ValidationError::EmptyInput)
    } else {
        Ok(())
    }
}

pub open spec fn oauth_token_result(s: Seq<char>) -> Result<(), ValidationError> {
    let t = trim_of(s);
    if t.len() == 0 {
        Err(ValidationError::EmptyInput)
    } else if !(t.len() >= 6 && t.subrange(0, 6) == "oauth:"@) {
        Err(ValidationError::TokenPrefix)
    } else {
        length_result(t, 36)
    }
}

/// The rule for a client id or a client secret: 30 bytes once trimmed.
pub open spec fn client_key_result(s: Seq<char>) -> Result<(), ValidationError> {
    let t = trim_of(s);
    if t.len() == 0 {
        Err(ValidationError::EmptyInput)
    } else {
        length_result(t, 30)
    }
}

pub open spec fn settings_result(l: Loaded) -> Result<(), ValidationError> {
    if user_name_result(l.user_name@) is Err {
        user_name_result(l.user_name@)
    } else if oauth_token_result(l.oauth_token@) is Err {
        oauth_token_result(l.oauth_token@)
    } else if client_key_result(l.client_id@) is Err {
        client_key_result(l.client_id@)
    } else {
        client_key_result(l.client_secret@)
    }
}

/// The checks on each setting.
pub struct Validator;

impl Validator {
    /// Checks the settings in order (user name, token, client id, client
    /// secret); the first failure is returned.
    pub fn validate(loaded: &Loaded) -> (r: Result<(), ValidationError>)
        ensures
            r == settings_result(*loaded),
    {
        Self::user_name(loaded.user_name.as_str())?;
        Self::oauth_token(loaded.oauth_token.as_str())?;
        Self::client_id(loaded.client_id.as_str())?;
        Self::client_secret(loaded.client_secret.as_str())?;
        Ok(())
    }

    pub fn user_name(input: &str) -> (r: Result<(), ValidationError>)
        ensures
            r == user_name_result(input@),
    {
        let input = trimmed(input);
        if input.unicode_len() == 0 {
            return Err(ValidationError::EmptyInput);
        }
        Ok(())
    }

    pub fn oauth_token(input: &str) -> (r: Result<(), ValidationError>)
        ensures
            r == oauth_token_result(input@),
    {
        let input = trimmed(input);
        let n = input.unicode_len();
        if n == 0 {
            return Err(ValidationError::EmptyInput);
        }
        let prefix: String = "oauth:".to_owned();
        proof {
            reveal_strlit("oauth:");
        }
        if n < 6 || input.substring_char(0, 6).to_owned() != prefix {
            return Err(ValidationError::TokenPrefix);
        }
        Self::validate_length(input, 36)
    }

    pub fn client_id(input: &str) -> (r: Result<(), ValidationError>)
        ensures
            r == client_key_result(input@),
    {
        let input = trimmed(input);
        if input.unicode_len() == 0 {
            return Err(ValidationError::EmptyInput);
        }
        Self::validate_length(input, 30)
    }

    pub fn client_secret(input: &str) -> (r: Result<(), ValidationError>)
        ensures
            r == client_key_result(input@),
    {
        let input = trimmed(input);
        if input.unicode_len() == 0 {
            return Err(ValidationError::EmptyInput);
        }
        Self::validate_length(input, 30)
    }

    /// `Ok` when `input` is exactly `max` bytes long.
    pub fn validate_length(input: &str, max: usize) -> (r: Result<(), ValidationError>)
        ensures
            r == length_result(input@, max),
    {
        let have = input.len();
        if have == max {
            return Ok(());
        }
        Err(ValidationError::InvalidLength { have, require: max })
    }
}

} // verus!
