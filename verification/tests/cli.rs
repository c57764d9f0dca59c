use mealie_cli::config::Config;
use mealie_cli::output::{write_status, Record, Scalar};
use mealie_cli::status::{status_finish, status_start, StatusStart};
use mealie_cli::{AppError, ErrorCode};

fn env(pairs: &[(&str, &str)]) -> Vec<(String, String)> {
    pairs.iter().map(|(k, v)| (k.to_string(), v.to_string())).collect()
}

fn field<'a>(r: &'a Record, key: &str) -> Option<&'a Scalar> {
    r.fields.iter().rev().find(|(k, _)| k == key).map(|(_, v)| v)
}

fn report(env: Vec<(String, String)>) -> (Record, u8) {
    match status_start(&env) {
        StatusStart::Report(r, exit) => (r, exit),
        StatusStart::Check { .. } => panic!("no connection check expected"),
    }
}

fn record_text(r: &Record) -> String {
    format!("{:?}", r.fields)
}

#[test]
fn status_reports_missing_configuration_and_exits_with_missing_config_code() {
    let (record, exit) = report(Vec::new());

    assert_eq!(exit, 2);
    let stdout = write_status(&record);
    assert!(stdout.contains("Mealie status: action required"));
    assert!(stdout.contains("URL:            not configured"));
    assert!(stdout.contains("Token:          not configured"));
    assert!(stdout.contains("Server:         not checked"));
    assert!(stdout.contains("Authentication: not checked"));
    assert!(
        stdout.contains(
            "Next step: Set MEALIE_URL and MEALIE_TOKEN, then run `mealie status` again."
        )
    );
}

#[test]
fn status_uses_authentication_exit_code_for_a_rejected_token() {
    let started = status_start(&env(&[
        ("MEALIE_URL", "http://127.0.0.1:1234"),
        ("MEALIE_TOKEN", "do-not-print-me"),
        ("USE_INSECURE_HTTP", "yes"),
    ]));
    let url = match started {
        StatusStart::Check { url, .. } => url,
        StatusStart::Report(..) => panic!("a connection check was expected"),
    };
    let (record, exit) = status_finish(
        url,
        Err(AppError::new(
            ErrorCode::Authentication,
            "check authentication failed (HTTP 401 Unauthorized)".to_string(),
        )),
    );

    assert_eq!(exit, 4);
    assert_eq!(field(&record, "error"), Some(&Scalar::Text("authentication".to_string())));
    assert_eq!(field(&record, "server_reachable"), Some(&Scalar::Bool(true)));
    assert_eq!(field(&record, "authenticated"), Some(&Scalar::Bool(false)));
    assert_eq!(
        field(&record, "hint"),
        Some(&Scalar::Text(
            "Check MEALIE_TOKEN and confirm it has access to this Mealie instance, then run `mealie status` again."
                .to_string()
        ))
    );
    assert!(!record_text(&record).contains("do-not-print-me"));
}

#[test]
fn status_reports_an_invalid_url_before_attempting_connectivity() {
    let (record, exit) = report(env(&[
        ("MEALIE_URL", "not a URL"),
        ("MEALIE_TOKEN", "do-not-print-me"),
        ("USE_INSECURE_HTTP", "yes"),
    ]));

    assert_eq!(exit, 2);
    assert_eq!(field(&record, "error"), Some(&Scalar::Text("invalid_args".to_string())));
    assert_eq!(field(&record, "url_configured"), Some(&Scalar::Bool(true)));
    assert_eq!(field(&record, "url_valid"), Some(&Scalar::Bool(false)));
    assert_eq!(field(&record, "server_reachable"), Some(&Scalar::Null));
    assert_eq!(field(&record, "authenticated"), Some(&Scalar::Null));
    assert!(!record_text(&record).contains("do-not-print-me"));
}

#[test]
fn status_calls_plain_http_insecure_without_the_switch() {
    let (record, exit) = report(env(&[
        ("MEALIE_URL", "http://mealie.example"),
        ("MEALIE_TOKEN", "token"),
    ]));

    assert_eq!(exit, 2);
    assert_eq!(
        field(&record, "hint"),
        Some(&Scalar::Text(
            "Use an HTTPS MEALIE_URL, or set USE_INSECURE_HTTP=yes only for a trusted local server, then run `mealie status` again."
                .to_string()
        ))
    );
    assert!(write_status(&record).contains("URL:            configured but invalid"));
}

#[test]
fn status_without_a_token_is_missing_configuration() {
    let (record, exit) = report(env(&[("MEALIE_URL", "https://mealie.example/")]));

    assert_eq!(exit, 2);
    assert_eq!(field(&record, "url_valid"), Some(&Scalar::Bool(true)));
    assert_eq!(field(&record, "token_configured"), Some(&Scalar::Bool(false)));
    assert_eq!(field(&record, "error"), Some(&Scalar::Text("missing_config".to_string())));
    assert_eq!(field(&record, "url"), Some(&Scalar::Text("https://mealie.example/".to_string())));
}

#[test]
fn requires_config() {
    let error = Config::from_env(Vec::new()).err().expect("config should be required");

    assert_eq!(error.code(), ErrorCode::MissingConfig);
}

#[test]
fn human_errors_use_stderr_and_actionable_exit_code() {
    let error = Config::from_env(Vec::new()).err().expect("config should be required");

    assert_eq!(error.exit_code(), 2);
    let stderr = format!("{}\n", error.to_human());
    assert!(stderr.starts_with("Error: MEALIE_URL is required\n"));
    assert!(stderr.contains("Hint: Set MEALIE_URL and MEALIE_TOKEN"));
}

#[test]
fn json_errors_remain_machine_readable_on_stderr() {
    let error = Config::from_env(Vec::new()).err().expect("config should be required");

    assert_eq!(error.exit_code(), 2);
    let value: serde_json::Value =
        serde_json::from_str(&error.to_json_line()).expect("JSON error");
    assert_eq!(value["error"], "missing_config");
    assert!(value["hint"].as_str().is_some());
}

#[test]
fn error_lines_have_a_stable_envelope() {
    let error = AppError::new(ErrorCode::NotFound, "get recipe returned \"404\"".to_string());

    assert_eq!(
        error.to_json_line(),
        r#"{"ok":false,"error":"not_found","message":"get recipe returned \"404\""}"#
    );
    assert_eq!(error.to_human(), "Error get recipe returned \"404\"");
    assert_eq!(error.exit_code(), 3);
    assert_eq!(error.hint(), None);
}

#[test]
fn argument_errors_from_the_parser_keep_their_own_text() {
    let error = AppError::invalid_args("error: unexpected argument '--nope' found\n\n");

    assert_eq!(error.code(), ErrorCode::InvalidArgs);
    assert_eq!(error.to_human(), "error: unexpected argument '--nope' found");
    let plain = AppError::invalid_args("recipe search query cannot be empty");
    assert_eq!(plain.to_human(), "Error: recipe search query cannot be empty");
}

#[test]
fn every_code_has_its_exit_status_and_name() {
    let cases = [
        (ErrorCode::MissingConfig, 2, "missing_config"),
        (ErrorCode::InvalidArgs, 2, "invalid_args"),
        (ErrorCode::Authentication, 4, "authentication"),
        (ErrorCode::NotFound, 3, "not_found"),
        (ErrorCode::Ambiguous, 1, "ambiguous"),
        (ErrorCode::ApiError, 1, "api_error"),
        (ErrorCode::NetworkError, 5, "network_error"),
    ];
    for (code, exit, name) in cases {
        let error = AppError::new(code, "x".to_string());
        assert_eq!(error.exit_code(), exit);
        assert_eq!(code.as_str(), name);
    }
}

#[test]
fn request_failures_split_decoding_from_transport() {
    assert_eq!(
        AppError::from_request_failure(true, "bad body".to_string()).code(),
        ErrorCode::ApiError
    );
    assert_eq!(
        AppError::from_request_failure(false, "timed out".to_string()).code(),
        ErrorCode::NetworkError
    );
}

#[test]
fn network_errors_carry_a_hint() {
    let error = AppError::new(ErrorCode::NetworkError, "timed out".to_string());

    assert_eq!(
        error.to_human(),
        "Error: timed out\nHint: Check MEALIE_URL and confirm the Mealie server is reachable."
    );
    let value: serde_json::Value = serde_json::from_str(&error.to_json_line()).unwrap();
    assert_eq!(
        value["hint"],
        "Check MEALIE_URL and confirm the Mealie server is reachable."
    );
}

#[test]
fn error_lines_escape_control_characters() {
    let error = AppError::new(ErrorCode::ApiError, "a\tb\u{1}c\\d\u{7f}é".to_string());

    assert_eq!(
        error.to_json_line(),
        "{\"ok\":false,\"error\":\"api_error\",\"message\":\"a\\tb\\u0001c\\\\d\u{7f}é\"}"
    );
}
