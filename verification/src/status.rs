//! `status`: whether the configuration is present and valid, the server reachable and the token
//! accepted, reported without ever showing the token.
use vstd::prelude::*;

use crate::config::{
    first_value, validate_base_url, validated_base_url, Config, HTTPS_REQUIRED_MESSAGE,
};
use crate::error::{code_exit, code_name, AppError, ErrorCode, ErrorView};
use crate::output::{Record, Scalar};
use crate::text::{eq_ignore_ascii_case, eq_ignore_ascii_case_str, str_eq, trim, trim_str};

verus! {

/// Why a status check did not succeed.
#[derive(Debug, Clone, Copy, PartialEq, Eq, Structural)]
pub enum StatusFailure {
    MissingConfig,
    InvalidUrl,
    InsecureHttp,
    Authentication,
    Network,
    ApiResponse,
}

/// The error code that each failure reports.
pub open spec fn failure_code(f: StatusFailure) -> ErrorCode {
    match f {
        StatusFailure::MissingConfig => ErrorCode::MissingConfig,
        StatusFailure::InvalidUrl | StatusFailure::InsecureHttp => ErrorCode::InvalidArgs,
        StatusFailure::Authentication => ErrorCode::Authentication,
        StatusFailure::Network => ErrorCode::NetworkError,
        StatusFailure::ApiResponse => ErrorCode::ApiError,
    }
}

/// The next step suggested for each failure.
pub open spec fn failure_hint(f: StatusFailure) -> Seq<char> {
    match f {
        StatusFailure::MissingConfig => "Set MEALIE_URL and MEALIE_TOKEN, then run `mealie status` again."@,
        StatusFailure::InvalidUrl => "Set MEALIE_URL to a valid URL, then run `mealie status` again."@,
        StatusFailure::InsecureHttp => "Use an HTTPS MEALIE_URL, or set USE_INSECURE_HTTP=yes only for a trusted local server, then run `mealie status` again."@,
        StatusFailure::Authentication => "Check MEALIE_TOKEN and confirm it has access to this Mealie instance, then run `mealie status` again."@,
        StatusFailure::Network => "Check MEALIE_URL and confirm the Mealie server is reachable, then run `mealie status` again."@,
        StatusFailure::ApiResponse => "Mealie returned an unexpected response while checking authentication. Check the Mealie server logs and reverse proxy, then run `mealie status` again."@,
    }
}

impl StatusFailure {
    pub fn code(self) -> (r: ErrorCode)
        ensures
            r == failure_code(self),
    {
        match self {
            StatusFailure::MissingConfig => ErrorCode::MissingConfig,
            StatusFailure::InvalidUrl | StatusFailure::InsecureHttp => ErrorCode::InvalidArgs,
            StatusFailure::Authentication => ErrorCode::Authentication,
            StatusFailure::Network => ErrorCode::NetworkError,
            StatusFailure::ApiResponse => ErrorCode::ApiError,
        }
    }
}

pub fn status_hint(failure: StatusFailure) -> (r: &'static str)
    ensures
        r@ == failure_hint(failure),
{
    match failure {
        StatusFailure::MissingConfig => "Set MEALIE_URL and MEALIE_TOKEN, then run `mealie status` again.",
        StatusFailure::InvalidUrl => "Set MEALIE_URL to a valid URL, then run `mealie status` again.",
        StatusFailure::InsecureHttp => "Use an HTTPS MEALIE_URL, or set USE_INSECURE_HTTP=yes only for a trusted local server, then run `mealie status` again.",
        StatusFailure::Authentication => "Check MEALIE_TOKEN and confirm it has access to this Mealie instance, then run `mealie status` again.",
        StatusFailure::Network => "Check MEALIE_URL and confirm the Mealie server is reachable, then run `mealie status` again.",
        StatusFailure::ApiResponse => "Mealie returned an unexpected response while checking authentication. Check the Mealie server logs and reverse proxy, then run `mealie status` again.",
    }
}

/// An invalid URL is reported as insecure HTTP where that is what its validation said.
pub open spec fn url_failure(e: ErrorView) -> StatusFailure {
    if e.message == HTTPS_REQUIRED_MESSAGE@ {
        StatusFailure::InsecureHttp
    } else {
        StatusFailure::InvalidUrl
    }
}

pub fn status_url_failure(error: &AppError) -> (r: StatusFailure)
    ensures
        r == url_failure(error@),
{
    let message = error.to_string();
    if str_eq(message.as_str(), HTTPS_REQUIRED_MESSAGE) {
        StatusFailure::InsecureHttp
    } else {
        StatusFailure::InvalidUrl
    }
}

/// What a status report says.
pub struct StatusFacts {
    pub url: Option<Seq<char>>,
    pub url_valid: Option<bool>,
    pub token_configured: bool,
    pub server_reachable: Option<bool>,
    pub authenticated: Option<bool>,
    pub failure: Option<StatusFailure>,
}

/// A setting as `status` reads it: the first value given for the name, trimmed, where that is
/// not empty.
pub open spec fn setting(env: Seq<(String, String)>, name: Seq<char>) -> Option<Seq<char>> {
    match first_value(env, name) {
        Some(v) => if trim(v).len() > 0 {
            Some(trim(v))
        } else {
            None
        },
        None => None,
    }
}

/// The facts that the configuration alone settles: everything, unless the URL is valid and a
/// token is present, in which case the connection check decides the rest (`None`).
pub open spec fn facts_before_check(env: Seq<(String, String)>) -> Option<StatusFacts> {
    let url = setting(env, "MEALIE_URL"@);
    let token = setting(env, "MEALIE_TOKEN"@);
    let insecure = match setting(env, "USE_INSECURE_HTTP"@) {
        Some(v) => eq_ignore_ascii_case(v, "yes"@),
        None => false,
    };
    match url {
        None => Some(
            StatusFacts {
                url: None,
                url_valid: None,
                token_configured: token is Some,
                server_reachable: None,
                authenticated: None,
                failure: Some(StatusFailure::MissingConfig),
            },
        ),
        Some(u) => match validated_base_url(u, insecure) {
            Err(e) => Some(
                StatusFacts {
                    url: Some(u),
                    url_valid: Some(false),
                    token_configured: token is Some,
                    server_reachable: None,
                    authenticated: None,
                    failure: Some(url_failure(e)),
                },
            ),
            Ok(_) => match token {
                None => Some(
                    StatusFacts {
                        url: Some(u),
                        url_valid: Some(true),
                        token_configured: false,
                        server_reachable: None,
                        authenticated: None,
                        failure: Some(StatusFailure::MissingConfig),
                    },
                ),
                Some(_) => None,
            },
        },
    }
}

/// The facts once the connection check has answered: a network error means the server was
/// not reached, an authentication error that the token was refused, any other error an
/// unexpected response.
pub open spec fn facts_after_check(url: Seq<char>, outcome: Result<(), ErrorView>) -> StatusFacts {
    let (reachable, authenticated, failure) = match outcome {
        Ok(()) => (Some(true), Some(true), None),
        Err(e) => if e.code == ErrorCode::NetworkError {
            (Some(false), None, Some(StatusFailure::Network))
        } else if e.code == ErrorCode::Authentication {
            (Some(true), Some(false), Some(StatusFailure::Authentication))
        } else {
            (Some(true), Some(false), Some(StatusFailure::ApiResponse))
        },
    };
    StatusFacts {
        url: Some(url),
        url_valid: Some(true),
        token_configured: true,
        server_reachable: reachable,
        authenticated,
        failure,
    }
}

/// The exit status of a report: 0 when every check passed, else that of the failure's code.
pub open spec fn facts_exit(f: StatusFacts) -> u8 {
    match f.failure {
        Some(x) => code_exit(failure_code(x)),
        None => 0,
    }
}

/// The plain value of an optional boolean.
pub open spec fn opt_bool(b: Option<bool>) -> Scalar {
    match b {
        Some(x) => Scalar::Bool(x),
        None => Scalar::Null,
    }
}

/// Whether a status record states `facts`: its fields are `ok`, `type`, `url`,
/// `url_configured`, `url_valid`, `token_configured`, `server_reachable`, `authenticated`,
/// `error` and, after a failure, `hint`.
pub open spec fn states(r: Record, f: StatusFacts) -> bool {
    let fs = r.fields@;
    &&& r.ingredients is None
    &&& fs.len() == if f.failure is Some {
        10int
    } else {
        9int
    }
    &&& fs[0].0@ == "ok"@ && fs[0].1 == Scalar::Bool(f.failure is None)
    &&& fs[1].0@ == "type"@ && (fs[1].1 matches Scalar::Text(t) && t@ == "status"@)
    &&& fs[2].0@ == "url"@ && match f.url {
        Some(u) => fs[2].1 matches Scalar::Text(t) && t@ == u,
        None => fs[2].1 == Scalar::Null,
    }
    &&& fs[3].0@ == "url_configured"@ && fs[3].1 == Scalar::Bool(f.url is Some)
    &&& fs[4].0@ == "url_valid"@ && fs[4].1 == opt_bool(f.url_valid)
    &&& fs[5].0@ == "token_configured"@ && fs[5].1 == Scalar::Bool(f.token_configured)
    &&& fs[6].0@ == "server_reachable"@ && fs[6].1 == opt_bool(f.server_reachable)
    &&& fs[7].0@ == "authenticated"@ && fs[7].1 == opt_bool(f.authenticated)
    &&& fs[8].0@ == "error"@ && match f.failure {
        Some(x) => fs[8].1 matches Scalar::Text(t) && t@ == code_name(failure_code(x)),
        None => fs[8].1 == Scalar::Null,
    }
    &&& f.failure matches Some(x) ==> fs[9].0@ == "hint"@ && (fs[9].1 matches Scalar::Text(t)
        && t@ == failure_hint(x))
}

fn opt_bool_scalar(b: Option<bool>) -> (r: Scalar)
    ensures
        r == opt_bool(b),
{
    match b {
        Some(x) => Scalar::Bool(x),
        None => Scalar::Null,
    }
}

fn status_record(
    url: Option<String>,
    url_valid: Option<bool>,
    token_configured: bool,
    server_reachable: Option<bool>,
    authenticated: Option<bool>,
    failure: Option<StatusFailure>,
) -> (r: (Record, u8))
    ensures
        states(
            r.0,
            StatusFacts {
                url: match url {
                    Some(u) => Some(u@),
                    None => None,
                },
                url_valid,
                token_configured,
                server_reachable,
                authenticated,
                failure,
            },
        ),
        r.1 == facts_exit(
            StatusFacts {
                url: match url {
                    Some(u) => Some(u@),
                    None => None,
                },
                url_valid,
                token_configured,
                server_reachable,
                authenticated,
                failure,
            },
        ),
{
    let mut fields: Vec<(String, Scalar)> = Vec::new();
    fields.push(("ok".to_owned(), Scalar::Bool(failure.is_none())));
    fields.push(("type".to_owned(), Scalar::Text("status".to_owned())));
    let url_configured = url.is_some();
    let url_value = match url {
        Some(u) => Scalar::Text(u),
        None => Scalar::Null,
    };
    fields.push(("url".to_owned(), url_value));
    fields.push(("url_configured".to_owned(), Scalar::Bool(url_configured)));
    fields.push(("url_valid".to_owned(), opt_bool_scalar(url_valid)));
    fields.push(("token_configured".to_owned(), Scalar::Bool(token_configured)));
    fields.push(("server_reachable".to_owned(), opt_bool_scalar(server_reachable)));
    fields.push(("authenticated".to_owned(), opt_bool_scalar(authenticated)));
    let exit = match failure {
        Some(f) => {
            let code = f.code();
            fields.push(("error".to_owned(), Scalar::Text(code.as_str().to_owned())));
            fields.push(("hint".to_owned(), Scalar::Text(status_hint(f).to_owned())));
            AppError::new(code, "status check failed".to_owned()).exit_code()
        },
        None => {
            fields.push(("error".to_owned(), Scalar::Null));
            0
        },
    };
    (Record { fields, ingredients: None }, exit)
}

fn setting_of(env: &Vec<(String, String)>, name: &str) -> (r: Option<String>)
    ensures
        match r {
            Some(v) => setting(env@, name@) == Some(v@),
            None => setting(env@, name@) is None,
        },
{
    let mut i: usize = 0;
    assert(env@.skip(0) =~= env@);
    while i < env.len()
        invariant
            i <= env@.len(),
            first_value(env@, name@) == first_value(env@.skip(i as int), name@),
        decreases env@.len() - i,
    {
        let ghost rest = env@.skip(i as int);
        assert(rest[0] == env@[i as int]);
        assert(rest.drop_first() =~= env@.skip(i + 1));
        if str_eq(env[i].0.as_str(), name) {
            let t = trim_str(env[i].1.as_str());
            if t.as_str().unicode_len() > 0 {
                return Some(t);
            } else {
                return None;
            }
        }
        i = i + 1;
    }
    None
}

/// Where `status` stands once the configuration has been read.
pub enum StatusStart {
    /// The configuration settles the report: the record and the exit status.
    Report(Record, u8),
    /// The connection has to be checked with this configuration; the configured URL is what
    /// the report shows.
    Check { config: Config, url: String },
}

/// Reads the configuration for `status`.
pub fn status_start(env_vars: &Vec<(String, String)>) -> (r: StatusStart)
    ensures
        match (r, facts_before_check(env_vars@)) {
            (StatusStart::Report(rec, exit), Some(f)) => states(rec, f) && exit == facts_exit(f),
            (StatusStart::Check { config, url }, None) => {
                &&& setting(env_vars@, "MEALIE_URL"@) == Some(url@)
                &&& setting(env_vars@, "MEALIE_TOKEN"@) == Some(config.token@)
                &&& validated_base_url(
                    url@,
                    match setting(env_vars@, "USE_INSECURE_HTTP"@) {
                        Some(v) => eq_ignore_ascii_case(v, "yes"@),
                        None => false,
                    },
                ) == Ok::<Seq<char>, ErrorView>(config.base_url@)
            },
            _ => false,
        },
{
    let url = setting_of(env_vars, "MEALIE_URL");
    let token = setting_of(env_vars, "MEALIE_TOKEN");
    let insecure = match setting_of(env_vars, "USE_INSECURE_HTTP") {
        Some(v) => eq_ignore_ascii_case_str(v.as_str(), "yes"),
        None => false,
    };
    let token_configured = token.is_some();
    let u = match url {
        None => {
            let (rec, exit) = status_record(
                None,
                None,
                token_configured,
                None,
                None,
                Some(StatusFailure::MissingConfig),
            );
            return StatusStart::Report(rec, exit);
        },
        Some(u) => u,
    };
    match validate_base_url(u.as_str(), insecure) {
        Err(e) => {
            let failure = status_url_failure(&e);
            let (rec, exit) = status_record(
                Some(u),
                Some(false),
                token_configured,
                None,
                None,
                Some(failure),
            );
            StatusStart::Report(rec, exit)
        },
        Ok(base) => match token {
            None => {
                let (rec, exit) = status_record(
                    Some(u),
                    Some(true),
                    false,
                    None,
                    None,
                    Some(StatusFailure::MissingConfig),
                );
                StatusStart::Report(rec, exit)
            },
            Some(t) => StatusStart::Check { config: Config { base_url: base, token: t }, url: u },
        },
    }
}

/// The report once the connection check has answered.
pub fn status_finish(url: String, outcome: Result<(), AppError>) -> (r: (Record, u8))
    ensures
        states(
            r.0,
            facts_after_check(
                url@,
                match outcome {
                    Ok(()) => Ok(()),
                    Err(e) => Err(e@),
                },
            ),
        ),
        r.1 == facts_exit(
            facts_after_check(
                url@,
                match outcome {
                    Ok(()) => Ok(()),
                    Err(e) => Err(e@),
                },
            ),
        ),
{
    match outcome {
        Ok(()) => status_record(Some(url), Some(true), true, Some(true), Some(true), None),
        Err(e) => {
            let code = e.code();
            if code == ErrorCode::NetworkError {
                status_record(Some(url), Some(true), true, Some(false), None, Some(StatusFailure::Network))
            } else if code == ErrorCode::Authentication {
                status_record(
                    Some(url),
                    Some(true),
                    true,
                    Some(true),
                    Some(false),
                    Some(StatusFailure::Authentication),
                )
            } else {
                status_record(
                    Some(url),
                    Some(true),
                    true,
                    Some(true),
                    Some(false),
                    Some(StatusFailure::ApiResponse),
                )
            }
        },
    }
}

/// Whether `t` occurs in `s` as a run of consecutive characters.
pub open spec fn occurs_in(t: Seq<char>, s: Seq<char>) -> bool {
    exists|k: int| 0 <= k && k + t.len() <= s.len() && #[trigger] s.subrange(k, k + t.len()) == t
}

/// The texts a status record is made of besides the URL: its field names, its type, the error
/// names, the hints, and the words that JSON writes for booleans and null.
pub open spec fn is_status_fixed_text(x: Seq<char>) -> bool {
    ||| x == "ok"@ || x == "type"@ || x == "url"@ || x == "url_configured"@
    ||| x == "url_valid"@ || x == "token_configured"@ || x == "server_reachable"@
    ||| x == "authenticated"@ || x == "error"@ || x == "hint"@ || x == "status"@
    ||| x == "true"@ || x == "false"@ || x == "null"@
    ||| exists|c: ErrorCode| x == code_name(c)
    ||| exists|f: StatusFailure| x == failure_hint(f)
}

/// Every field name of a status record, and every text in it, is a fixed text or the URL the
/// report shows; no other value reaches the record.
pub proof fn status_record_texts(r: Record, f: StatusFacts)
    requires
        states(r, f),
    ensures
        forall|i: int|
            0 <= i < r.fields@.len() ==> is_status_fixed_text((#[trigger] r.fields@[i]).0@)
                && !(r.fields@[i].1 is Int) && (r.fields@[i].1 matches Scalar::Text(x) ==> (
            is_status_fixed_text(x@) || f.url == Some(x@))),
{
    let fs = r.fields@;
    assert forall|i: int| 0 <= i < fs.len() implies is_status_fixed_text((#[trigger] fs[i]).0@)
        && !(fs[i].1 is Int) && (fs[i].1 matches Scalar::Text(x) ==> (is_status_fixed_text(x@)
        || f.url == Some(x@))) by {
        if i == 8 {
            if let Some(x) = f.failure {
                assert(is_status_fixed_text(code_name(failure_code(x))));
            }
        }
        if i == 9 {
            if let Some(x) = f.failure {
                assert(is_status_fixed_text(failure_hint(x)));
            }
        }
    }
}

/// The URL a report shows is the configured one.
pub proof fn status_facts_show_the_configured_url(env: Seq<(String, String)>, outcome: Result<(), ErrorView>)
    ensures
        facts_before_check(env) matches Some(f) ==> f.url == setting(env, "MEALIE_URL"@),
        setting(env, "MEALIE_URL"@) matches Some(u) ==> facts_after_check(u, outcome).url
            == Some(u),
{
}

/// The token is never shown: where the token does not occur in the configured URL nor in any
/// fixed text of the report, no field name or text of a status record about that configuration
/// contains it. The record reports the token only as `token_configured`.
pub proof fn status_never_shows_token(
    env: Seq<(String, String)>,
    r: Record,
    f: StatusFacts,
    t: Seq<char>,
)
    requires
        setting(env, "MEALIE_TOKEN"@) == Some(t),
        forall|x: Seq<char>| is_status_fixed_text(x) ==> !occurs_in(t, x),
        setting(env, "MEALIE_URL"@) matches Some(u) ==> !occurs_in(t, u),
        f.url == setting(env, "MEALIE_URL"@),
        states(r, f),
    ensures
        forall|i: int|
            0 <= i < r.fields@.len() ==> !occurs_in(t, (#[trigger] r.fields@[i]).0@) && (
            r.fields@[i].1 matches Scalar::Text(x) ==> !occurs_in(t, x@)),
{
    status_record_texts(r, f);
}

/// A report says the token is configured exactly when `MEALIE_TOKEN` holds a non-blank value,
/// whatever the URL checks found: before the connection check, and after it (the check is made
/// only with a token).
pub proof fn status_reports_the_token_setting(env: Seq<(String, String)>, outcome: Result<(), ErrorView>)
    ensures
        facts_before_check(env) matches Some(f) ==> f.token_configured == (setting(
            env,
            "MEALIE_TOKEN"@,
        ) is Some),
        facts_before_check(env) is None ==> setting(env, "MEALIE_TOKEN"@) is Some,
        facts_before_check(env) is None ==> match setting(env, "MEALIE_URL"@) {
            Some(u) => facts_after_check(u, outcome).token_configured,
            None => false,
        },
{
}

} // verus!
