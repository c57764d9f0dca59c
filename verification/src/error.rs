//! Stable error codes, error values, and how errors are shown to people and to scripts.
use vstd::prelude::*;

use crate::bindings::{json_string_literal, serde_json_string_literal};
use crate::text::{append_str, starts_with, starts_with_str, trim_end, trim_end_str};

verus! {

/// The stable categories of failure.
#[derive(Debug, Clone, Copy, PartialEq, Eq, Structural)]
pub enum ErrorCode {
    MissingConfig,
    InvalidArgs,
    Authentication,
    NotFound,
    Ambiguous,
    ApiError,
    NetworkError,
}

/// The stable machine-readable name of each code.
pub open spec fn code_name(code: ErrorCode) -> Seq<char> {
    match code {
        ErrorCode::MissingConfig => "missing_config"@,
        ErrorCode::InvalidArgs => "invalid_args"@,
        ErrorCode::Authentication => "authentication"@,
        ErrorCode::NotFound => "not_found"@,
        ErrorCode::Ambiguous => "ambiguous"@,
        ErrorCode::ApiError => "api_error"@,
        ErrorCode::NetworkError => "network_error"@,
    }
}

/// The recovery hint shown with each code, where there is one.
pub open spec fn code_hint(code: ErrorCode) -> Option<Seq<char>> {
    match code {
        ErrorCode::MissingConfig => Some(
            "Set MEALIE_URL and MEALIE_TOKEN, then run the command again."@,
        ),
        ErrorCode::Authentication => Some(
            "Check MEALIE_TOKEN and confirm it has access to this Mealie instance."@,
        ),
        ErrorCode::NetworkError => Some(
            "Check MEALIE_URL and confirm the Mealie server is reachable."@,
        ),
        _ => None,
    }
}

/// The process exit status of each code.
pub open spec fn code_exit(code: ErrorCode) -> u8 {
    match code {
        ErrorCode::InvalidArgs | ErrorCode::MissingConfig => 2,
        ErrorCode::NotFound => 3,
        ErrorCode::Authentication => 4,
        ErrorCode::NetworkError => 5,
        ErrorCode::Ambiguous | ErrorCode::ApiError => 1,
    }
}

impl ErrorCode {
    pub fn as_str(self) -> (r: &'static str)
        ensures
            r@ == code_name(self),
    {
        match self {
            ErrorCode::MissingConfig => "missing_config",
            ErrorCode::InvalidArgs => "invalid_args",
            ErrorCode::Authentication => "authentication",
            ErrorCode::NotFound => "not_found",
            ErrorCode::Ambiguous => "ambiguous",
            ErrorCode::ApiError => "api_error",
            ErrorCode::NetworkError => "network_error",
        }
    }
}

/// An error: a stable code and a human-readable message.
#[derive(Debug, Clone)]
pub struct AppError {
    code: ErrorCode,
    message: String,
}

/// The mathematical content of an [`AppError`].
pub struct ErrorView {
    pub code: ErrorCode,
    pub message: Seq<char>,
}

impl View for AppError {
    type V = ErrorView;

    closed spec fn view(&self) -> ErrorView {
        ErrorView { code: self.code, message: self.message@ }
    }
}

/// The error with `code` and `message`.
pub open spec fn error_of(code: ErrorCode, message: Seq<char>) -> ErrorView {
    ErrorView { code, message }
}

/// What `to_human` shows for an error.
pub open spec fn human_text(e: ErrorView) -> Seq<char> {
    if e.code == ErrorCode::InvalidArgs && starts_with(e.message, "error:"@) {
        trim_end(e.message)
    } else if e.code == ErrorCode::NotFound {
        "Error "@ + e.message
    } else {
        match code_hint(e.code) {
            Some(h) => "Error: "@ + e.message + "\nHint: "@ + h,
            None => "Error: "@ + e.message,
        }
    }
}

/// The fallback record written when an error cannot be encoded as JSON.
pub open spec fn json_fallback() -> Seq<char> {
    "{\"ok\":false,\"error\":\"api_error\",\"message\":\"failed to serialize error\"}"@
}

/// The one-line JSON envelope for an error: `ok`, `error`, `message` and, where the code has
/// one, `hint`, in that order; each string encoded by serde_json.
pub open spec fn json_line(e: ErrorView) -> Seq<char> {
    let code = serde_json_string_literal(code_name(e.code));
    let message = serde_json_string_literal(e.message);
    match (code, message) {
        (Some(c), Some(m)) => {
            let head = "{\"ok\":false,\"error\":"@ + c + ",\"message\":"@ + m;
            match code_hint(e.code) {
                None => head + "}"@,
                Some(h) => match serde_json_string_literal(h) {
                    Some(q) => head + ",\"hint\":"@ + q + "}"@,
                    None => json_fallback(),
                },
            }
        },
        _ => json_fallback(),
    }
}

impl AppError {
    pub fn new(code: ErrorCode, message: String) -> (r: AppError)
        ensures
            r@ == error_of(code, message@),
    {
        AppError { code, message }
    }

    /// An `InvalidArgs` error carrying the argument parser's message.
    pub fn invalid_args(message: &str) -> (r: AppError)
        ensures
            r@ == error_of(ErrorCode::InvalidArgs, message@),
    {
        AppError { code: ErrorCode::InvalidArgs, message: message.to_owned() }
    }

    /// The error for a request that could not be completed: a response body that could not be
    /// decoded is an API error, anything else a network error.
    pub fn from_request_failure(decode: bool, message: String) -> (r: AppError)
        ensures
            r@ == error_of(
                if decode {
                    ErrorCode::ApiError
                } else {
                    ErrorCode::NetworkError
                },
                message@,
            ),
    {
        if decode {
            AppError { code: ErrorCode::ApiError, message }
        } else {
            AppError { code: ErrorCode::NetworkError, message }
        }
    }

    pub fn code(&self) -> (r: ErrorCode)
        ensures
            r == self@.code,
    {
        self.code
    }

    /// The message (what the error displays as).
    pub fn to_string(&self) -> (r: String)
        ensures
            r@ == self@.message,
    {
        self.message.clone()
    }

    pub fn hint(&self) -> (r: Option<&'static str>)
        ensures
            r is Some == code_hint(self@.code) is Some,
            r matches Some(h) ==> code_hint(self@.code) == Some(h@),
    {
        match self.code {
            ErrorCode::MissingConfig => Some(
                "Set MEALIE_URL and MEALIE_TOKEN, then run the command again.",
            ),
            ErrorCode::Authentication => Some(
                "Check MEALIE_TOKEN and confirm it has access to this Mealie instance.",
            ),
            ErrorCode::NetworkError => Some(
                "Check MEALIE_URL and confirm the Mealie server is reachable.",
            ),
            _ => None,
        }
    }

    pub fn exit_code(&self) -> (r: u8)
        ensures
            r == code_exit(self@.code),
    {
        match self.code {
            ErrorCode::InvalidArgs | ErrorCode::MissingConfig => 2,
            ErrorCode::NotFound => 3,
            ErrorCode::Authentication => 4,
            ErrorCode::NetworkError => 5,
            ErrorCode::Ambiguous | ErrorCode::ApiError => 1,
        }
    }

    /// The error as shown to a person on stderr.
    pub fn to_human(&self) -> (r: String)
        ensures
            r@ == human_text(self@),
    {
        if self.code == ErrorCode::InvalidArgs && starts_with_str(self.message.as_str(), "error:") {
            return trim_end_str(self.message.as_str());
        }
        if self.code == ErrorCode::NotFound {
            let mut r = String::new();
            append_str(&mut r, "Error ");
            append_str(&mut r, self.message.as_str());
            return r;
        }
        let mut r = String::new();
        append_str(&mut r, "Error: ");
        append_str(&mut r, self.message.as_str());
        match self.hint() {
            Some(h) => {
                append_str(&mut r, "\nHint: ");
                append_str(&mut r, h);
            },
            None => {},
        }
        r
    }

    /// The error as one machine-readable JSON line.
    pub fn to_json_line(&self) -> (r: String)
        ensures
            r@ == json_line(self@),
    {
        let fallback = "{\"ok\":false,\"error\":\"api_error\",\"message\":\"failed to serialize error\"}";
        let code = json_string_literal(self.code.as_str());
        let message = json_string_literal(self.message.as_str());
        match (code, message) {
            (Some(c), Some(m)) => {
                let mut r = String::new();
                append_str(&mut r, "{\"ok\":false,\"error\":");
                append_str(&mut r, c.as_str());
                append_str(&mut r, ",\"message\":");
                append_str(&mut r, m.as_str());
                match self.hint() {
                    None => {
                        append_str(&mut r, "}");
                        r
                    },
                    Some(h) => match json_string_literal(h) {
                        Some(q) => {
                            append_str(&mut r, ",\"hint\":");
                            append_str(&mut r, q.as_str());
                            append_str(&mut r, "}");
                            r
                        },
                        None => fallback.to_owned(),
                    },
                }
            },
            _ => fallback.to_owned(),
        }
    }
}

/// Every error ends the program with a non-zero exit status, which tells the kinds of failure
/// apart.
pub proof fn errors_exit_nonzero(code: ErrorCode)
    ensures
        1 <= code_exit(code) <= 5,
        code_exit(code) == 1 <==> (code == ErrorCode::Ambiguous || code == ErrorCode::ApiError),
        code_exit(code) == 2 <==> (code == ErrorCode::InvalidArgs || code == ErrorCode::MissingConfig),
{
}

} // verus!
