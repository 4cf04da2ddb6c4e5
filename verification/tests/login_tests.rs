use cdr::config::{save_config, Config};
use cdr::errors::CliError;
use cdr::login::{
    login_begin, login_finish, login_request_body, parse_login_response, resolve_field,
    LoginRequest,
};

#[test]
fn resolve_prefers_the_flag_untrimmed() {
    assert_eq!(resolve_field(Some(" flagged "), "ignored"), " flagged ");
}

#[test]
fn resolve_trims_the_prompted_line() {
    assert_eq!(resolve_field(None, "  typed@example.com \n"), "typed@example.com");
}

#[test]
fn resolve_trims_unicode_whitespace_as_str_trim_does() {
    let line = "\u{2000}\u{a0}x y\u{3000}\r\n";
    assert_eq!(resolve_field(None, line), line.trim());
    assert_eq!(resolve_field(None, line), "x y");
}

#[test]
fn login_body_exact_text() {
    let req = LoginRequest {
        email: String::from("a@b.com"),
        password: String::from("secret"),
    };
    assert_eq!(
        login_request_body(&req),
        "{\"email\":\"a@b.com\",\"password\":\"secret\"}"
    );
}

#[test]
fn login_body_escapes_special_characters() {
    let req = LoginRequest {
        email: String::from("a\"b"),
        password: String::from("p\\w\nd"),
    };
    assert_eq!(
        login_request_body(&req),
        "{\"email\":\"a\\\"b\",\"password\":\"p\\\\w\\nd\"}"
    );
}

#[test]
fn login_body_is_valid_json_to_serde() {
    let req = LoginRequest {
        email: String::from("a\"b@x.com"),
        password: String::from("p\u{7}w"),
    };
    let body = login_request_body(&req);
    let value: serde_json::Value = serde_json::from_str(&body).unwrap();
    assert_eq!(value["email"].as_str(), Some("a\"b@x.com"));
    assert_eq!(value["password"].as_str(), Some("p\u{7}w"));
}

#[test]
fn login_with_empty_email_is_rejected() {
    let cfg = "{\"api_url\": \"http://x\"}";
    assert_eq!(
        login_begin("", "secret", Some(cfg)).unwrap_err(),
        CliError::ValidationError
    );
}

#[test]
fn login_with_empty_password_is_rejected() {
    let cfg = "{\"api_url\": \"http://x\"}";
    assert_eq!(
        login_begin("a@b.com", "", Some(cfg)).unwrap_err(),
        CliError::ValidationError
    );
}

#[test]
fn login_validation_precedes_config_lookup() {
    assert_eq!(login_begin("", "", None).unwrap_err(), CliError::ValidationError);
}

#[test]
fn login_without_config_is_rejected() {
    assert_eq!(
        login_begin("a@b.com", "secret", None).unwrap_err(),
        CliError::ConfigMissing
    );
}

#[test]
fn login_call_targets_the_login_endpoint() {
    let call = login_begin("a@b.com", "secret", Some("{\"api_url\": \"http://x\"}")).unwrap();
    assert_eq!(call.url, "http://x/users/login");
    assert_eq!(call.body, "{\"email\":\"a@b.com\",\"password\":\"secret\"}");
}

#[test]
fn response_with_token_parses() {
    let resp = parse_login_response(" {\"accessToken\": \"tok123\"} ").unwrap();
    assert_eq!(resp.access_token, "tok123");
}

#[test]
fn response_without_token_member_is_rejected() {
    assert!(parse_login_response("{\"token\": \"tok123\"}").is_none());
    assert!(parse_login_response("{\"accessToken\": null}").is_none());
    assert!(parse_login_response("{}").is_none());
    assert!(parse_login_response("").is_none());
}

#[test]
fn failed_status_reports_the_status() {
    let cfg = "{\"api_url\": \"http://x\"}";
    assert_eq!(
        login_finish(cfg, 401, "{\"accessToken\": \"tok\"}").unwrap_err(),
        CliError::HttpStatusError(401)
    );
}

#[test]
fn malformed_login_body_is_rejected() {
    let cfg = "{\"api_url\": \"http://x\"}";
    assert_eq!(
        login_finish(cfg, 200, "oops").unwrap_err(),
        CliError::ResponseParseError
    );
}

#[test]
fn successful_login_keeps_url_and_stores_token() {
    let cfg = "{\"api_url\": \"http://x\"}";
    let new = login_finish(cfg, 200, "{\"accessToken\": \"tok123\"}").unwrap();
    assert_eq!(new.api_url, "http://x");
    assert_eq!(new.access_token.as_deref(), Some("tok123"));
}

#[test]
fn login_end_to_end_updates_the_saved_config() {
    let start = Config { api_url: String::from("http://x"), access_token: None };
    let content = save_config(&start);
    let call = login_begin("a@b.com", "secret", Some(&content)).unwrap();
    assert_eq!(call.url, "http://x/users/login");
    assert_eq!(call.body, "{\"email\":\"a@b.com\",\"password\":\"secret\"}");
    let new = login_finish(&content, 200, "{\"accessToken\":\"tok123\"}").unwrap();
    assert_eq!(
        save_config(&new),
        "{\n  \"api_url\": \"http://x\",\n  \"access_token\": \"tok123\"\n}"
    );
}

#[test]
fn relogin_overwrites_a_previous_token() {
    let start = Config {
        api_url: String::from("http://x"),
        access_token: Some(String::from("old")),
    };
    let content = save_config(&start);
    let new = login_finish(&content, 200, "{\"accessToken\":\"fresh\"}").unwrap();
    assert_eq!(new.api_url, "http://x");
    assert_eq!(new.access_token.as_deref(), Some("fresh"));
}
