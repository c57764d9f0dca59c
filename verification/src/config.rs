//! Configuration read from environment variables.
use vstd::prelude::*;

use crate::bindings::{debug_str, rust_debug_str, url_parse_scheme, url_scheme};
use crate::error::{error_of, AppError, ErrorCode, ErrorView};
use crate::text::{
    is_white, trim_end, trim_start,
    append_str, concat2, eq_ignore_ascii_case, eq_ignore_ascii_case_str, is_blank, is_blank_str, opt_view, str_eq,
    trim, trim_end_char, trim_end_char_str, trim_str,
};

verus! {

pub const INVALID_URL_MESSAGE: &'static str = "MEALIE_URL must be a valid URL";

pub const HTTPS_REQUIRED_MESSAGE: &'static str =
    "MEALIE_URL must use HTTPS; set USE_INSECURE_HTTP=yes to allow HTTP";

/// The base URL of a Mealie instance and the bearer token used with it.
#[derive(Clone)]
pub struct Config {
    pub base_url: String,
    pub token: String,
}

/// The value of the last pair in `env` whose key is `key`.
pub open spec fn last_value(env: Seq<(String, String)>, key: Seq<char>) -> Option<Seq<char>>
    decreases env.len(),
{
    if env.len() == 0 {
        None
    } else if env.last().0@ == key {
        Some(env.last().1@)
    } else {
        last_value(env.drop_last(), key)
    }
}

/// The value of the first pair in `env` whose key is `key`.
pub open spec fn first_value(env: Seq<(String, String)>, key: Seq<char>) -> Option<Seq<char>>
    decreases env.len(),
{
    if env.len() == 0 {
        None
    } else if env[0].0@ == key {
        Some(env[0].1@)
    } else {
        first_value(env.drop_first(), key)
    }
}

/// Whether the insecure-HTTP switch is set: its value, trimmed, is `yes` in any ASCII case.
pub open spec fn insecure_http_allowed(value: Option<Seq<char>>) -> bool {
    match value {
        Some(v) => eq_ignore_ascii_case(trim(v), "yes"@),
        None => false,
    }
}

/// What `validate_base_url` gives for a URL: the URL trimmed and without trailing slashes,
/// when it parses and its scheme is `https` (or `http` where allowed).
pub open spec fn validated_base_url(url: Seq<char>, allow_insecure_http: bool) -> Result<
    Seq<char>,
    ErrorView,
> {
    let base = trim_end_char(trim(url), '/');
    match url_parse_scheme(base) {
        None => Err(error_of(ErrorCode::InvalidArgs, INVALID_URL_MESSAGE@)),
        Some(scheme) => if scheme != "https"@ && !(allow_insecure_http && scheme == "http"@) {
            Err(error_of(ErrorCode::InvalidArgs, HTTPS_REQUIRED_MESSAGE@))
        } else {
            Ok(base)
        },
    }
}

/// A required setting: present and not blank, else a `MissingConfig` error naming it.
pub open spec fn required_value(name: Seq<char>, value: Option<Seq<char>>) -> Result<
    Seq<char>,
    ErrorView,
> {
    let v = match value {
        Some(v) => v,
        None => Seq::<char>::empty(),
    };
    if is_blank(v) {
        Err(error_of(ErrorCode::MissingConfig, name + " is required"@))
    } else {
        Ok(v)
    }
}

/// The configuration that `from_env` reads from `env`: `(base_url, token)` or the first error.
pub open spec fn config_from_env(env: Seq<(String, String)>) -> Result<
    (Seq<char>, Seq<char>),
    ErrorView,
> {
    match required_value("MEALIE_URL"@, last_value(env, "MEALIE_URL"@)) {
        Err(e) => Err(e),
        Ok(url) => match required_value("MEALIE_TOKEN"@, last_value(env, "MEALIE_TOKEN"@)) {
            Err(e) => Err(e),
            Ok(token) => match validated_base_url(
                url,
                insecure_http_allowed(last_value(env, "USE_INSECURE_HTTP"@)),
            ) {
                Err(e) => Err(e),
                Ok(base) => Ok((base, token)),
            },
        },
    }
}

/// What `debug_text` shows: the base URL, and the token replaced by a placeholder.
pub open spec fn config_debug(base_url: Seq<char>) -> Seq<char> {
    "Config { base_url: "@ + rust_debug_str(base_url) + ", token: \"[redacted]\" }"@
}

/// Looks up the last value of `key` in `env`.
fn lookup_last(env: &Vec<(String, String)>, key: &str) -> (r: Option<String>)
    ensures
        match r {
            Some(v) => last_value(env@, key@) == Some(v@),
            None => last_value(env@, key@) is None,
        },
{
    let mut i = env.len();
    assert(env@.take(i as int) =~= env@);
    while i > 0
        invariant
            i <= env@.len(),
            last_value(env@, key@) == last_value(env@.take(i as int), key@),
        decreases i,
    {
        let ghost t = env@.take(i as int);
        assert(t.drop_last() =~= env@.take(i - 1));
        assert(t.last() == env@[i - 1]);
        if str_eq(env[i - 1].0.as_str(), key) {
            return Some(env[i - 1].1.clone());
        }
        i = i - 1;
    }
    None
}

/// Checks a base URL: trims it, drops trailing slashes, and requires a parsable URL whose
/// scheme is `https`, or `http` where `allow_insecure_http` is set.
pub fn validate_base_url(base_url: &str, allow_insecure_http: bool) -> (r: Result<
    String,
    AppError,
>)
    ensures
        match (r, validated_base_url(base_url@, allow_insecure_http)) {
            (Ok(v), Ok(w)) => v@ == w,
            (Err(e), Err(f)) => e@ == f,
            _ => false,
        },
{
    let trimmed = trim_str(base_url);
    let base = trim_end_char_str(trimmed.as_str(), '/');
    match url_scheme(base.as_str()) {
        None => Err(AppError::new(ErrorCode::InvalidArgs, INVALID_URL_MESSAGE.to_owned())),
        Some(scheme) => {
            let s = scheme.as_str();
            if !str_eq(s, "https") && !(allow_insecure_http && str_eq(s, "http")) {
                Err(AppError::new(ErrorCode::InvalidArgs, HTTPS_REQUIRED_MESSAGE.to_owned()))
            } else {
                Ok(base)
            }
        },
    }
}

fn required(name: &str, value: Option<String>) -> (r: Result<String, AppError>)
    ensures
        match (r, required_value(name@, opt_view(value))) {
            (Ok(v), Ok(w)) => v@ == w,
            (Err(e), Err(f)) => e@ == f,
            _ => false,
        },
{
    let value = match value {
        Some(v) => v,
        None => String::new(),
    };
    if is_blank_str(value.as_str()) {
        return Err(AppError::new(ErrorCode::MissingConfig, concat2(name, " is required")));
    }
    Ok(value)
}

impl Config {
    /// Reads `MEALIE_URL`, `MEALIE_TOKEN` and `USE_INSECURE_HTTP` (the last pair of each name
    /// counts) and validates the URL.
    pub fn from_env(env_vars: Vec<(String, String)>) -> (r: Result<Config, AppError>)
        ensures
            match (r, config_from_env(env_vars@)) {
                (Ok(c), Ok((base, token))) => c.base_url@ == base && c.token@ == token,
                (Err(e), Err(f)) => e@ == f,
                _ => false,
            },
    {
        let url = lookup_last(&env_vars, "MEALIE_URL");
        let token = lookup_last(&env_vars, "MEALIE_TOKEN");
        let insecure = lookup_last(&env_vars, "USE_INSECURE_HTTP");
        let base_url = required("MEALIE_URL", url)?;
        let token = required("MEALIE_TOKEN", token)?;
        let allow_insecure_http = match insecure {
            Some(v) => {
                let t = trim_str(v.as_str());
                eq_ignore_ascii_case_str(t.as_str(), "yes")
            },
            None => false,
        };
        let base_url = validate_base_url(base_url.as_str(), allow_insecure_http)?;
        Ok(Config { base_url, token })
    }

    /// The URL of an API path on this instance.
    pub fn endpoint(&self, path: &str) -> (r: String)
        ensures
            r@ == self.base_url@ + path@,
    {
        concat2(self.base_url.as_str(), path)
    }

    /// A debugging rendering that never shows the token.
    pub fn debug_text(&self) -> (r: String)
        ensures
            r@ == config_debug(self.base_url@),
    {
        let mut r = String::new();
        append_str(&mut r, "Config { base_url: ");
        let quoted = debug_str(self.base_url.as_str());
        append_str(&mut r, quoted.as_str());
        append_str(&mut r, ", token: \"[redacted]\" }");
        r
    }
}

/// Whether a text has no whitespace at either end.
pub open spec fn untrimmed_ends(s: Seq<char>) -> bool {
    s.len() == 0 || (!is_white(s[0]) && !is_white(s.last()))
}

/// A trailing slash on the URL makes no difference.
pub proof fn trailing_slash_is_ignored(url: Seq<char>, allow_insecure_http: bool)
    requires
        untrimmed_ends(url),
    ensures
        validated_base_url(url + "/"@, allow_insecure_http) == validated_base_url(
            url,
            allow_insecure_http,
        ),
{
    reveal_strlit("/");
    let u = url + "/"@;
    assert(u.last() == '/');
    assert(trim_start(u) == u) by {
        if url.len() > 0 {
            assert(u[0] == url[0]);
        }
    }
    assert(trim_end(u) == u);
    assert(trim_start(url) == url);
    assert(trim_end(url) == url);
    assert(u.drop_last() =~= url);
    assert(trim_end_char(u, '/') == trim_end_char(url, '/'));
}

/// Without the insecure-HTTP switch, only an `https` URL is accepted.
pub proof fn https_required_by_default(url: Seq<char>)
    ensures
        validated_base_url(url, false) matches Ok(base) ==> url_parse_scheme(base) == Some(
            "https"@,
        ),
{
}

/// The debugging rendering of a configuration depends on its URL alone, never on its token.
pub proof fn debug_text_ignores_token(a: Config, b: Config)
    requires
        a.base_url@ == b.base_url@,
    ensures
        config_debug(a.base_url@) == config_debug(b.base_url@),
{
}

} // verus!
