//! Where provider API keys are kept, and what counts as a usable key.
//! Reading and writing the files is the caller's part.
use vstd::prelude::*;
use vstd::string::*;
use crate::memory::extract::{fold_seq, fold_str, trim, trim_str};
use crate::text::str_eq;

verus! {

/// Why a key operation was refused.
#[derive(Debug, Clone, PartialEq, Eq)]
pub enum SecretsError {
    /// The provider, normalized, is neither `anthropic` nor `openai`; holds it.
    UnsupportedProvider(String),
    /// The key is empty once trimmed.
    EmptyKey,
}

/// The message of each key-store error.
pub open spec fn secrets_error_message(e: SecretsError) -> Seq<char> {
    match e {
        SecretsError::UnsupportedProvider(p) => "unsupported provider for key store: "@ + p@,
        SecretsError::EmptyKey => "API key cannot be empty"@,
    }
}

impl SecretsError {
    /// A sentence that says what is wrong.
    pub fn to_string(&self) -> (r: String)
        ensures
            r@ == secrets_error_message(*self),
    {
        match self {
            SecretsError::UnsupportedProvider(p) => {
                let mut r = "unsupported provider for key store: ".to_owned();
                r.append(p.as_str());
                r
            },
            SecretsError::EmptyKey => "API key cannot be empty".to_owned(),
        }
    }
}

/// `a/b`: `b` appended to the path `a` with one separator.
pub open spec fn path_join(a: Seq<char>, b: Seq<char>) -> Seq<char> {
    if a.len() == 0 {
        b
    } else if a.last() == '/' {
        a + b
    } else {
        a + "/"@ + b
    }
}

/// `a/b` for two path texts.
pub fn join_path(a: &str, b: &str) -> (r: String)
    ensures
        r@ == path_join(a@, b@),
{
    let n = a.unicode_len();
    if n == 0 {
        b.to_owned()
    } else if a.get_char(n - 1) == '/' {
        let mut r = a.to_owned();
        r.append(b);
        r
    } else {
        let mut r = a.to_owned();
        r.append("/");
        r.append(b);
        r
    }
}

/// The directory that holds the key files: `<state_dir>/credentials`.
pub fn credentials_dir_for(state_dir: &str) -> (r: String)
    ensures
        r@ == path_join(state_dir@, "credentials"@),
{
    join_path(state_dir, "credentials")
}

/// A provider name trimmed and in ASCII lower case.
pub open spec fn normalized(p: Seq<char>) -> Seq<char> {
    fold_seq(trim(p))
}

/// The provider name trimmed and lower-cased, if it is `anthropic` or `openai`.
pub fn normalize_provider(provider: &str) -> (r: Result<String, SecretsError>)
    ensures
        match r {
            Ok(p) => p@ == normalized(provider@) && (p@ == "anthropic"@ || p@ == "openai"@),
            Err(e) => match e {
                SecretsError::UnsupportedProvider(p) => p@ == normalized(provider@) && p@
                    != "anthropic"@ && p@ != "openai"@,
                SecretsError::EmptyKey => false,
            },
        },
{
    let p = fold_str(trim_str(provider));
    if str_eq(p.as_str(), "anthropic") || str_eq(p.as_str(), "openai") {
        Ok(p)
    } else {
        Err(SecretsError::UnsupportedProvider(p))
    }
}

/// `<state_dir>/credentials/<provider>.key` for a supported provider.
pub fn key_file_path_for(state_dir: &str, provider: &str) -> (r: Result<String, SecretsError>)
    ensures
        match r {
            Ok(path) => path@ == path_join(
                path_join(state_dir@, "credentials"@),
                normalized(provider@) + ".key"@,
            ),
            Err(_) => normalized(provider@) != "anthropic"@ && normalized(provider@) != "openai"@,
        },
{
    match normalize_provider(provider) {
        Ok(p) => {
            let dir = credentials_dir_for(state_dir);
            let mut file = p;
            file.append(".key");
            Ok(join_path(dir.as_str(), file.as_str()))
        },
        Err(e) => Err(e),
    }
}

/// The key to write: the input trimmed, refused when nothing is left.
pub fn key_to_store(api_key: &str) -> (r: Result<String, SecretsError>)
    ensures
        match r {
            Ok(k) => k@ == trim(api_key@) && k@.len() > 0,
            Err(e) => e == SecretsError::EmptyKey && trim(api_key@).len() == 0,
        },
{
    let k = trim_str(api_key);
    if k.unicode_len() == 0 {
        Err(SecretsError::EmptyKey)
    } else {
        Ok(k.to_owned())
    }
}

/// The key held in a key file's contents: trimmed, absent when nothing is left.
pub fn key_from_contents(contents: &str) -> (r: Option<String>)
    ensures
        match r {
            Some(k) => k@ == trim(contents@) && k@.len() > 0,
            None => trim(contents@).len() == 0,
        },
{
    let k = trim_str(contents);
    if k.unicode_len() == 0 {
        None
    } else {
        Some(k.to_owned())
    }
}

/// The provider offered by default when asking which provider to use.
pub fn default_provider_choice(current: &str) -> (r: &'static str)
    ensures
        r@ == if current@ == "openai"@ {
            "openai"@
        } else {
            "anthropic"@
        },
{
    if str_eq(current, "openai") {
        "openai"
    } else {
        "anthropic"
    }
}

/// The provider chosen by the user, trimmed and lower-cased, if supported.
pub fn resolve_provider(choice: &str) -> (r: Result<String, SecretsError>)
    ensures
        match r {
            Ok(p) => p@ == normalized(choice@) && (p@ == "anthropic"@ || p@ == "openai"@),
            Err(_) => normalized(choice@) != "anthropic"@ && normalized(choice@) != "openai"@,
        },
{
    normalize_provider(choice)
}

/// The human name of a provider.
pub fn provider_display_name(provider: &str) -> (r: &'static str)
    ensures
        r@ == if provider@ == "openai"@ {
            "OpenAI"@
        } else {
            "Anthropic"@
        },
{
    if str_eq(provider, "openai") {
        "OpenAI"
    } else {
        "Anthropic"
    }
}

/// The model suggested for a provider.
pub fn default_model_for_provider(provider: &str) -> (r: &'static str)
    ensures
        r@ == if provider@ == "openai"@ {
            "gpt-4o"@
        } else {
            "sonnet-4-5-20250929"@
        },
{
    if str_eq(provider, "openai") {
        "gpt-4o"
    } else {
        "sonnet-4-5-20250929"
    }
}

} // verus!
