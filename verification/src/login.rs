use vstd::prelude::*;
use vstd::slice::slice_subrange;
use vstd::string::StringExecFns;
use crate::config::{get_api_url, parse_config, parse_config_spec, Config};
use crate::errors::CliError;
use crate::json::{escape_chars, escape_seq, parse_pair_spec, parse_pair_x, skip_ws_spec, skip_ws_x};
use crate::text::{chars_eq, chars_to_string, str_to_chars, trim_spec};

verus! {

/// The body sent to the login endpoint.
#[derive(Debug)]
pub struct LoginRequest {
    pub email: String,
    pub password: String,
}

/// The body the login endpoint answers with.
#[derive(Debug)]
pub struct LoginResponse {
    pub access_token: String,
}

/// A fully prepared HTTP request: where to send it and what to send.
#[derive(Debug)]
pub struct ApiCall {
    pub url: String,
    pub body: String,
}

/// An argument resolved from a flag when given, else from the trimmed
/// prompted line.
pub fn resolve_field(flag: Option<&str>, prompt_line: &str) -> (r: String)
    ensures
        r@ == (match flag {
            Some(f) => f@,
            None => trim_spec(prompt_line@),
        }),
{
    match flag {
        Some(f) => String::from_str(f),
        None => crate::text::trim_str(prompt_line),
    }
}

// ------------------------------------------------------------------
// The login request body
// ------------------------------------------------------------------

/// The exact JSON body sent for a login: the email and the password.
pub open spec fn login_body_spec(email: Seq<char>, password: Seq<char>) -> Seq<char> {
    "{\"email\":\""@ + escape_seq(email) + "\",\"password\":\""@ + escape_seq(password) + "\"}"@
}

/// Renders the login request body.
pub fn login_request_body(req: &LoginRequest) -> (r: String)
    ensures
        r@ == login_body_spec(req.email@, req.password@),
{
    let mut out = String::from_str("{\"email\":\"");
    let email_chars = str_to_chars(req.email.as_str());
    let email_esc = escape_chars(&email_chars);
    let email_str = chars_to_string(&email_esc);
    out.append(email_str.as_str());
    out.append("\",\"password\":\"");
    let pw_chars = str_to_chars(req.password.as_str());
    let pw_esc = escape_chars(&pw_chars);
    let pw_str = chars_to_string(&pw_esc);
    out.append(pw_str.as_str());
    out.append("\"}");
    out
}

// ------------------------------------------------------------------
// The login response body
// ------------------------------------------------------------------

/// Parses the login response: an object holding exactly one member,
/// `accessToken`, a string, with nothing after the object.
pub open spec fn parse_login_response_spec(s: Seq<char>) -> Option<Seq<char>> {
    let s0 = skip_ws_spec(s);
    if s0.len() > 0 && s0[0] == '{' {
        match parse_pair_spec(s0.drop_first()) {
            Some(p) => {
                let s3 = skip_ws_spec(p.2);
                if s3.len() > 0 && s3[0] == '}' && skip_ws_spec(s3.drop_first()).len() == 0 {
                    if p.0 == "accessToken"@ {
                        match p.1 {
                            Some(t) => Some(t),
                            None => None,
                        }
                    } else {
                        None
                    }
                } else {
                    None
                }
            },
            None => None,
        }
    } else {
        None
    }
}

/// Decodes the login response body, as [`parse_login_response_spec`]
/// reads it.
pub fn parse_login_response(body: &str) -> (r: Option<LoginResponse>)
    ensures
        match r {
            Some(resp) => parse_login_response_spec(body@) == Some(resp.access_token@),
            None => parse_login_response_spec(body@) is None,
        },
{
    let chars = str_to_chars(body);
    let s = chars.as_slice();
    let s0 = skip_ws_x(s);
    if !(s0.len() > 0 && s0[0] == '{') {
        return None;
    }
    let s1 = slice_subrange(s0, 1, s0.len());
    proof {
        assert(s1@ =~= s0@.drop_first());
    }
    match parse_pair_x(s1) {
        None => None,
        Some((key, value, rest)) => {
            let s3 = skip_ws_x(rest);
            if !(s3.len() > 0 && s3[0] == '}') {
                return None;
            }
            let tail = slice_subrange(s3, 1, s3.len());
            proof {
                assert(tail@ =~= s3@.drop_first());
            }
            if skip_ws_x(tail).len() != 0 {
                return None;
            }
            let expected = str_to_chars("accessToken");
            if !chars_eq(&key, &expected) {
                return None;
            }
            match value {
                Some(t) => Some(LoginResponse { access_token: chars_to_string(&t) }),
                None => None,
            }
        },
    }
}

// ------------------------------------------------------------------
// The login flow decisions
// ------------------------------------------------------------------

/// Prepares the login request.  Empty credentials are rejected before
/// anything else, so nothing is sent for them; otherwise the request
/// goes to `{api_url}/users/login` with the exact JSON body.
pub fn login_begin(email: &str, password: &str, config_content: Option<&str>) -> (r: Result<
    ApiCall,
    CliError,
>)
    ensures
        (if email@.len() == 0 || password@.len() == 0 {
            r == Err::<ApiCall, CliError>(CliError::ValidationError)
        } else {
            match config_content {
                None => r == Err::<ApiCall, CliError>(CliError::ConfigMissing),
                Some(text) => match parse_config_spec(text@) {
                    Some(c) => r matches Ok(call) && call.url@ == c.api_url + "/users/login"@
                        && call.body@ == login_body_spec(email@, password@),
                    None => r == Err::<ApiCall, CliError>(CliError::ConfigParseError),
                },
            }
        }),
{
    if email.is_empty() || password.is_empty() {
        return Err(CliError::ValidationError);
    }
    let url = match get_api_url(config_content) {
        Ok(u) => u,
        Err(e) => {
            return Err(e);
        },
    };
    let mut full = url;
    full.append("/users/login");
    let req = LoginRequest { email: String::from_str(email), password: String::from_str(password) };
    let body = login_request_body(&req);
    Ok(ApiCall { url: full, body })
}

/// Decides what the login answer means.  A non-success status fails with
/// that status; a malformed body fails to parse; otherwise the new
/// configuration keeps the stored URL and carries the returned token.
pub fn login_finish(config_content: &str, status: u16, body: &str) -> (r: Result<Config, CliError>)
    ensures
        (if !(200 <= status && status < 300) {
            r == Err::<Config, CliError>(CliError::HttpStatusError(status))
        } else {
            match parse_login_response_spec(body@) {
                None => r == Err::<Config, CliError>(CliError::ResponseParseError),
                Some(tok) => match parse_config_spec(config_content@) {
                    None => r == Err::<Config, CliError>(CliError::ConfigParseError),
                    Some(c) => r matches Ok(n) && n@.api_url == c.api_url && n@.access_token
                        == Some(tok),
                },
            }
        }),
{
    if !(200 <= status && status < 300) {
        return Err(CliError::HttpStatusError(status));
    }
    let resp = match parse_login_response(body) {
        Some(resp) => resp,
        None => {
            return Err(CliError::ResponseParseError);
        },
    };
    let current = match parse_config(config_content) {
        Ok(c) => c,
        Err(_) => {
            return Err(CliError::ConfigParseError);
        },
    };
    Ok(Config { api_url: current.api_url, access_token: Some(resp.access_token) })
}

} // verus!
