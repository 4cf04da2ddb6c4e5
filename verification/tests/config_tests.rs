use cdr::config::{
    get_api_url, get_config_file, load_config, parse_config, save_config, setup_next_config,
    Config,
};
use cdr::errors::CliError;

#[test]
fn save_without_token_exact_text() {
    let c = Config { api_url: String::from("http://x"), access_token: None };
    assert_eq!(save_config(&c), "{\n  \"api_url\": \"http://x\"\n}");
}

#[test]
fn save_with_token_exact_text() {
    let c = Config { api_url: String::from("http://x"), access_token: Some(String::from("tok")) };
    assert_eq!(
        save_config(&c),
        "{\n  \"api_url\": \"http://x\",\n  \"access_token\": \"tok\"\n}"
    );
}

#[test]
fn round_trip_without_token() {
    let c = Config { api_url: String::from("http://x"), access_token: None };
    let text = save_config(&c);
    let back = parse_config(&text).unwrap();
    assert_eq!(back.api_url, "http://x");
    assert_eq!(back.access_token, None);
}

#[test]
fn round_trip_with_token() {
    let c = Config {
        api_url: String::from("https://api.example.com"),
        access_token: Some(String::from("abc123")),
    };
    let text = save_config(&c);
    let back = parse_config(&text).unwrap();
    assert_eq!(back.api_url, "https://api.example.com");
    assert_eq!(back.access_token.as_deref(), Some("abc123"));
}

#[test]
fn round_trip_with_special_characters() {
    let c = Config {
        api_url: String::from("a\"b\\c\nd\te\u{1}f"),
        access_token: Some(String::from("t\rok\u{8}\u{c}")),
    };
    let text = save_config(&c);
    let back = parse_config(&text).unwrap();
    assert_eq!(back.api_url, "a\"b\\c\nd\te\u{1}f");
    assert_eq!(back.access_token.as_deref(), Some("t\rok\u{8}\u{c}"));
}

#[test]
fn saved_text_is_valid_json_to_serde() {
    let c = Config {
        api_url: String::from("http://x/\"quoted\""),
        access_token: Some(String::from("a\\b")),
    };
    let text = save_config(&c);
    let value: serde_json::Value = serde_json::from_str(&text).unwrap();
    assert_eq!(value["api_url"].as_str(), Some("http://x/\"quoted\""));
    assert_eq!(value["access_token"].as_str(), Some("a\\b"));
}

#[test]
fn parse_accepts_reversed_member_order() {
    let back = parse_config("{\"access_token\": \"t\", \"api_url\": \"u\"}").unwrap();
    assert_eq!(back.api_url, "u");
    assert_eq!(back.access_token.as_deref(), Some("t"));
}

#[test]
fn parse_accepts_null_token() {
    let back = parse_config("{\"api_url\": \"u\", \"access_token\": null}").unwrap();
    assert_eq!(back.api_url, "u");
    assert_eq!(back.access_token, None);
}

#[test]
fn parse_accepts_surrounding_whitespace() {
    let back = parse_config("  \n{ \"api_url\" : \"u\" }\n  ").unwrap();
    assert_eq!(back.api_url, "u");
}

#[test]
fn parse_decodes_unicode_escape() {
    let back = parse_config("{\"api_url\": \"\\u0041\\u00e9\"}").unwrap();
    assert_eq!(back.api_url, "A\u{e9}");
}

#[test]
fn parse_rejects_malformed_text() {
    assert_eq!(parse_config("").unwrap_err(), CliError::ConfigParseError);
    assert_eq!(parse_config("not json").unwrap_err(), CliError::ConfigParseError);
    assert_eq!(parse_config("{}").unwrap_err(), CliError::ConfigParseError);
    assert_eq!(
        parse_config("{\"access_token\": \"t\"}").unwrap_err(),
        CliError::ConfigParseError
    );
    assert_eq!(
        parse_config("{\"api_url\": \"u\"} extra").unwrap_err(),
        CliError::ConfigParseError
    );
    assert_eq!(
        parse_config("{\"api_url\": \"u\", \"api_url\": \"v\"}").unwrap_err(),
        CliError::ConfigParseError
    );
    assert_eq!(
        parse_config("{\"api_url\": null}").unwrap_err(),
        CliError::ConfigParseError
    );
    assert_eq!(
        parse_config("{\"api_url\": \"\\ud800\"}").unwrap_err(),
        CliError::ConfigParseError
    );
}

#[test]
fn load_missing_file_is_config_missing() {
    assert_eq!(load_config(None).unwrap_err(), CliError::ConfigMissing);
}

#[test]
fn get_api_url_reads_the_url() {
    assert_eq!(get_api_url(Some("{\"api_url\": \"http://x\"}")).unwrap(), "http://x");
    assert_eq!(get_api_url(None).unwrap_err(), CliError::ConfigMissing);
    assert_eq!(get_api_url(Some("nope")).unwrap_err(), CliError::ConfigParseError);
}

#[test]
fn config_file_path_is_under_the_config_dir() {
    assert_eq!(get_config_file("/home/u/.config"), "/home/u/.config/cdr/config.json");
}

#[test]
fn setup_blank_input_keeps_existing_config() {
    let existing = Config {
        api_url: String::from("http://old"),
        access_token: Some(String::from("tok")),
    };
    let next = setup_next_config(Some(existing), "  \n").unwrap();
    assert_eq!(next.api_url, "http://old");
    assert_eq!(next.access_token.as_deref(), Some("tok"));
}

#[test]
fn setup_new_url_keeps_existing_token() {
    let existing = Config {
        api_url: String::from("http://old"),
        access_token: Some(String::from("tok")),
    };
    let next = setup_next_config(Some(existing), " http://new \n").unwrap();
    assert_eq!(next.api_url, "http://new");
    assert_eq!(next.access_token.as_deref(), Some("tok"));
}

#[test]
fn setup_without_config_rejects_blank_url() {
    assert_eq!(
        setup_next_config(None, "   \n").unwrap_err(),
        CliError::ValidationError
    );
}

#[test]
fn setup_without_config_creates_tokenless_config() {
    let next = setup_next_config(None, "http://fresh\n").unwrap();
    assert_eq!(next.api_url, "http://fresh");
    assert_eq!(next.access_token, None);
}

#[test]
fn info_text_lists_path_url_and_token() {
    let c = Config { api_url: String::from("http://x"), access_token: Some(String::from("t")) };
    let text = cdr::config::config_info_text("/tmp/cfg.json", &c);
    assert_eq!(
        text,
        "Current API Configuration:\nFile: /tmp/cfg.json\nValues: \n  API URL: http://x\n  Access Token: t\n"
    );
    let bare = Config { api_url: String::from("http://x"), access_token: None };
    let text2 = cdr::config::config_info_text("/tmp/cfg.json", &bare);
    assert_eq!(
        text2,
        "Current API Configuration:\nFile: /tmp/cfg.json\nValues: \n  API URL: http://x\n  Access Token: \n"
    );
}

#[test]
fn error_messages_name_the_failure() {
    assert_eq!(
        CliError::ConfigMissing.message(),
        "No configuration found. Please run 'cdr config setup' first."
    );
    assert_eq!(
        CliError::HttpStatusError(404).message(),
        "Request failed with status: 404"
    );
    assert_eq!(CliError::NetworkError.message(), "The request could not be sent.");
    assert_eq!(
        CliError::ValidationError.message(),
        "A required value cannot be empty."
    );
    assert_eq!(
        CliError::ConfigParseError.message(),
        "Failed to parse the configuration file."
    );
    assert_eq!(
        CliError::ResponseParseError.message(),
        "Failed to parse the response body."
    );
}
