use cdr::errors::CliError;
use cdr::resource_template::{
    build_create_request, create_request_body, create_resource_template_call,
    create_resource_template_finish, parse_templates_response, render_template,
    resource_templates_url, CreateResourceTemplateRequest,
};
use cdr::text::parse_u8;

#[test]
fn all_flags_build_the_request_directly() {
    let req = build_create_request(Some("N"), Some("T"), Some("D"), Some(5)).unwrap();
    assert_eq!(req.name, "N");
    assert_eq!(req.resource_template_type, "T");
    assert_eq!(req.description, "D");
    assert_eq!(req.provider, 5);
}

#[test]
fn a_missing_flag_forces_prompting() {
    assert!(build_create_request(Some("N"), Some("T"), Some("D"), None).is_none());
    assert!(build_create_request(None, Some("T"), Some("D"), Some(5)).is_none());
    assert!(build_create_request(Some("N"), None, Some("D"), Some(5)).is_none());
    assert!(build_create_request(Some("N"), Some("T"), None, Some(5)).is_none());
}

#[test]
fn provider_input_accepts_bytes_only() {
    assert_eq!(parse_u8("0"), Some(0));
    assert_eq!(parse_u8("5"), Some(5));
    assert_eq!(parse_u8("255"), Some(255));
    assert_eq!(parse_u8("+42"), Some(42));
    assert_eq!(parse_u8("007"), Some(7));
    assert_eq!(parse_u8("256"), None);
    assert_eq!(parse_u8("999999999999"), None);
    assert_eq!(parse_u8("-1"), None);
    assert_eq!(parse_u8("abc"), None);
    assert_eq!(parse_u8("1a"), None);
    assert_eq!(parse_u8(""), None);
    assert_eq!(parse_u8("+"), None);
    assert_eq!(parse_u8(" 5"), None);
}

#[test]
fn provider_input_parses_exactly_as_rust_does() {
    let cases = [
        "0", "5", "255", "256", "-1", "+7", "007", "", " 5", "5 ", "1a", "+", "0x10",
        "00255", "99999999999999999999", "\u{660}",
    ];
    for s in cases {
        assert_eq!(parse_u8(s), s.parse::<u8>().ok(), "input {:?}", s);
    }
}

#[test]
fn create_body_is_valid_json_to_serde() {
    let req = CreateResourceTemplateRequest {
        name: String::from("N\"x"),
        resource_template_type: String::from("T"),
        description: String::from("D\n"),
        provider: 5,
    };
    let body = create_request_body(&req);
    let value: serde_json::Value = serde_json::from_str(&body).unwrap();
    assert_eq!(value["name"].as_str(), Some("N\"x"));
    assert_eq!(value["type"].as_str(), Some("T"));
    assert_eq!(value["description"].as_str(), Some("D\n"));
    assert_eq!(value["provider"].as_u64(), Some(5));
}

#[test]
fn create_body_exact_text() {
    let req = CreateResourceTemplateRequest {
        name: String::from("N"),
        resource_template_type: String::from("T"),
        description: String::from("D"),
        provider: 5,
    };
    assert_eq!(
        create_request_body(&req),
        "{\"name\":\"N\",\"type\":\"T\",\"description\":\"D\",\"provider\":5}"
    );
}

#[test]
fn create_body_escapes_and_counts() {
    let req = CreateResourceTemplateRequest {
        name: String::from("a\"b"),
        resource_template_type: String::from("t\\t"),
        description: String::from("line\nbreak"),
        provider: 255,
    };
    assert_eq!(
        create_request_body(&req),
        "{\"name\":\"a\\\"b\",\"type\":\"t\\\\t\",\"description\":\"line\\nbreak\",\"provider\":255}"
    );
}

#[test]
fn create_call_targets_the_templates_endpoint() {
    let req = CreateResourceTemplateRequest {
        name: String::from("N"),
        resource_template_type: String::from("T"),
        description: String::from("D"),
        provider: 5,
    };
    let call = create_resource_template_call(Some("{\"api_url\": \"http://x\"}"), &req).unwrap();
    assert_eq!(call.url, "http://x/resource-templates");
    assert_eq!(
        call.body,
        "{\"name\":\"N\",\"type\":\"T\",\"description\":\"D\",\"provider\":5}"
    );
}

#[test]
fn create_call_without_config_is_rejected() {
    let req = CreateResourceTemplateRequest {
        name: String::from("N"),
        resource_template_type: String::from("T"),
        description: String::from("D"),
        provider: 5,
    };
    assert_eq!(
        create_resource_template_call(None, &req).unwrap_err(),
        CliError::ConfigMissing
    );
    assert_eq!(
        create_resource_template_call(Some("bad"), &req).unwrap_err(),
        CliError::ConfigParseError
    );
}

#[test]
fn creation_succeeds_only_on_status_200() {
    assert_eq!(
        create_resource_template_finish(200, "N").unwrap(),
        "Created resource template \"N\""
    );
    assert_eq!(
        create_resource_template_finish(201, "N").unwrap_err(),
        CliError::HttpStatusError(201)
    );
    assert_eq!(
        create_resource_template_finish(500, "N").unwrap_err(),
        CliError::HttpStatusError(500)
    );
}

#[test]
fn templates_url_comes_from_the_config() {
    assert_eq!(
        resource_templates_url(Some("{\"api_url\": \"http://x\"}")).unwrap(),
        "http://x/resource-templates"
    );
    assert_eq!(resource_templates_url(None).unwrap_err(), CliError::ConfigMissing);
}

#[test]
fn empty_listing_parses_to_no_templates() {
    let resp = parse_templates_response("{\"resourceTemplates\":[]}").unwrap();
    assert_eq!(resp.resource_templates.len(), 0);
}

#[test]
fn empty_listing_tolerates_whitespace() {
    let resp = parse_templates_response(" {\n  \"resourceTemplates\": [ ]\n} ").unwrap();
    assert_eq!(resp.resource_templates.len(), 0);
}

#[test]
fn one_template_parses_with_members_in_any_order() {
    let body = "{\"resourceTemplates\":[{\"type\":\"T\",\"id\":\"1\",\"description\":\"D\",\"name\":\"N\"}]}";
    let resp = parse_templates_response(body).unwrap();
    assert_eq!(resp.resource_templates.len(), 1);
    let t = &resp.resource_templates[0];
    assert_eq!(t.id, "1");
    assert_eq!(t.name, "N");
    assert_eq!(t.resource_template_type, "T");
    assert_eq!(t.description, "D");
}

#[test]
fn two_templates_keep_their_order() {
    let body = "{\"resourceTemplates\":[\
        {\"id\":\"1\",\"name\":\"A\",\"type\":\"t1\",\"description\":\"d1\"},\
        {\"id\":\"2\",\"name\":\"B\",\"type\":\"t2\",\"description\":\"d2\"}]}";
    let resp = parse_templates_response(body).unwrap();
    assert_eq!(resp.resource_templates.len(), 2);
    assert_eq!(resp.resource_templates[0].name, "A");
    assert_eq!(resp.resource_templates[1].name, "B");
}

#[test]
fn malformed_listings_are_rejected() {
    assert_eq!(
        parse_templates_response("").unwrap_err(),
        CliError::ResponseParseError
    );
    assert_eq!(
        parse_templates_response("{\"resourceTemplates\":{}}").unwrap_err(),
        CliError::ResponseParseError
    );
    assert_eq!(
        parse_templates_response("{\"other\":[]}").unwrap_err(),
        CliError::ResponseParseError
    );
    assert_eq!(
        parse_templates_response("{\"resourceTemplates\":[{\"id\":\"1\"}]}").unwrap_err(),
        CliError::ResponseParseError
    );
    assert_eq!(
        parse_templates_response(
            "{\"resourceTemplates\":[{\"id\":null,\"name\":\"N\",\"type\":\"T\",\"description\":\"D\"}]}"
        )
        .unwrap_err(),
        CliError::ResponseParseError
    );
    assert_eq!(
        parse_templates_response("{\"resourceTemplates\":[]} trailing").unwrap_err(),
        CliError::ResponseParseError
    );
}

#[test]
fn rendered_template_lists_every_field() {
    let body = "{\"resourceTemplates\":[{\"id\":\"1\",\"name\":\"N\",\"type\":\"T\",\"description\":\"D\"}]}";
    let resp = parse_templates_response(body).unwrap();
    let text = render_template(&resp.resource_templates[0]);
    assert_eq!(
        text,
        "Id: 1\nName: N\nType: T\nDescription: D\n---------------------------------------"
    );
}
