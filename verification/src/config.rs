use vstd::prelude::*;
use vstd::slice::slice_subrange;
use vstd::string::StringExecFns;
use crate::errors::CliError;
use crate::json::{
    escape_chars, escape_seq, lemma_parse_escaped_body, lemma_parse_plain_body,
    lemma_skip_ws_prefix, parse_pair_spec, parse_pair_x, skip_ws_spec, skip_ws_x,
};
use crate::text::{chars_eq, chars_to_string, str_to_chars, trim_spec, trim_str};

verus! {

/// The persisted configuration: the API base URL and, after a successful
/// login, the access token.
#[derive(Debug)]
pub struct Config {
    pub api_url: String,
    pub access_token: Option<String>,
}

/// The mathematical content of a [`Config`].
pub ghost struct ConfigV {
    pub api_url: Seq<char>,
    pub access_token: Option<Seq<char>>,
}

impl View for Config {
    type V = ConfigV;

    open spec fn view(&self) -> ConfigV {
        ConfigV {
            api_url: self.api_url@,
            access_token: match self.access_token {
                Some(t) => Some(t@),
                None => None,
            },
        }
    }
}

// ------------------------------------------------------------------
// The configuration file text
// ------------------------------------------------------------------

/// The exact text written for a configuration: a pretty-printed JSON
/// object with `api_url` always present and `access_token` only when a
/// token is stored.
pub open spec fn config_json_spec(c: ConfigV) -> Seq<char> {
    match c.access_token {
        Some(t) => "{\n  \"api_url\": \""@ + escape_seq(c.api_url)
            + "\",\n  \"access_token\": \""@ + escape_seq(t) + "\"\n}"@,
        None => "{\n  \"api_url\": \""@ + escape_seq(c.api_url) + "\"\n}"@,
    }
}

/// Renders the configuration file text for `config`.
pub fn save_config(config: &Config) -> (r: String)
    ensures
        r@ == config_json_spec(config@),
{
    let mut out = String::from_str("{\n  \"api_url\": \"");
    let url_chars = str_to_chars(self_str(&config.api_url));
    let esc = escape_chars(&url_chars);
    let esc_str = chars_to_string(&esc);
    out.append(esc_str.as_str());
    match &config.access_token {
        Some(t) => {
            out.append("\",\n  \"access_token\": \"");
            let tok_chars = str_to_chars(self_str(t));
            let tok_esc = escape_chars(&tok_chars);
            let tok_str = chars_to_string(&tok_esc);
            out.append(tok_str.as_str());
            out.append("\"\n}");
        },
        None => {
            out.append("\"\n}");
        },
    }
    out
}

fn self_str(s: &String) -> (r: &str)
    ensures
        r@ == s@,
{
    s.as_str()
}

// ------------------------------------------------------------------
// Parsing the configuration file text
// ------------------------------------------------------------------

/// The configuration described by a single-member object.
pub open spec fn config_of_one(k: Seq<char>, v: Option<Seq<char>>) -> Option<ConfigV> {
    match v {
        Some(u) => if k == "api_url"@ {
            Some(ConfigV { api_url: u, access_token: None })
        } else {
            None
        },
        None => None,
    }
}

/// The configuration described by a two-member object, in either key
/// order; a `null` token reads as no token.
pub open spec fn config_of_two(
    k1: Seq<char>,
    v1: Option<Seq<char>>,
    k2: Seq<char>,
    v2: Option<Seq<char>>,
) -> Option<ConfigV> {
    if k1 == "api_url"@ && k2 == "access_token"@ {
        match v1 {
            Some(u) => Some(ConfigV { api_url: u, access_token: v2 }),
            None => None,
        }
    } else if k1 == "access_token"@ && k2 == "api_url"@ {
        match v2 {
            Some(u) => Some(ConfigV { api_url: u, access_token: v1 }),
            None => None,
        }
    } else {
        None
    }
}

/// Parses a whole configuration file: a JSON object holding `api_url` (a
/// string) and optionally `access_token` (a string or `null`), in either
/// order, with nothing after the object.
pub open spec fn parse_config_spec(s: Seq<char>) -> Option<ConfigV> {
    let s0 = skip_ws_spec(s);
    if s0.len() > 0 && s0[0] == '{' {
        match parse_pair_spec(s0.drop_first()) {
            Some(p1) => {
                let s3 = skip_ws_spec(p1.2);
                if s3.len() > 0 && s3[0] == '}' {
                    if skip_ws_spec(s3.drop_first()).len() == 0 {
                        config_of_one(p1.0, p1.1)
                    } else {
                        None
                    }
                } else if s3.len() > 0 && s3[0] == ',' {
                    match parse_pair_spec(s3.drop_first()) {
                        Some(p2) => {
                            let s5 = skip_ws_spec(p2.2);
                            if s5.len() > 0 && s5[0] == '}' {
                                if skip_ws_spec(s5.drop_first()).len() == 0 {
                                    config_of_two(p1.0, p1.1, p2.0, p2.1)
                                } else {
                                    None
                                }
                            } else {
                                None
                            }
                        },
                        None => None,
                    }
                } else {
                    None
                }
            },
            None => None,
        }
    } else {
        None
    }
}

fn is_api_url_key(k: &Vec<char>) -> (r: bool)
    ensures
        r == (k@ == "api_url"@),
{
    let expected = str_to_chars("api_url");
    chars_eq(k, &expected)
}

fn is_access_token_key(k: &Vec<char>) -> (r: bool)
    ensures
        r == (k@ == "access_token"@),
{
    let expected = str_to_chars("access_token");
    chars_eq(k, &expected)
}

pub(crate) fn opt_chars_to_string(v: Option<Vec<char>>) -> (r: Option<String>)
    ensures
        match r {
            Some(t) => crate::json::opt_chars_view(v) == Some(t@),
            None => crate::json::opt_chars_view(v) is None,
        },
{
    match v {
        Some(t) => Some(chars_to_string(&t)),
        None => None,
    }
}

/// Parses configuration file text, as [`parse_config_spec`] reads it.
pub fn parse_config(text: &str) -> (r: Result<Config, CliError>)
    ensures
        match r {
            Ok(c) => parse_config_spec(text@) == Some(c@),
            Err(e) => e == CliError::ConfigParseError && parse_config_spec(text@) is None,
        },
{
    let chars = str_to_chars(text);
    let s = chars.as_slice();
    let s0 = skip_ws_x(s);
    if !(s0.len() > 0 && s0[0] == '{') {
        return Err(CliError::ConfigParseError);
    }
    let s1 = slice_subrange(s0, 1, s0.len());
    proof {
        assert(s1@ =~= s0@.drop_first());
    }
    match parse_pair_x(s1) {
        None => Err(CliError::ConfigParseError),
        Some((k1, v1, rest1)) => {
            let s3 = skip_ws_x(rest1);
            if s3.len() > 0 && s3[0] == '}' {
                let tail = slice_subrange(s3, 1, s3.len());
                proof {
                    assert(tail@ =~= s3@.drop_first());
                }
                if skip_ws_x(tail).len() != 0 {
                    return Err(CliError::ConfigParseError);
                }
                if !is_api_url_key(&k1) {
                    return Err(CliError::ConfigParseError);
                }
                match v1 {
                    Some(u) => Ok(Config { api_url: chars_to_string(&u), access_token: None }),
                    None => Err(CliError::ConfigParseError),
                }
            } else if s3.len() > 0 && s3[0] == ',' {
                let after_comma = slice_subrange(s3, 1, s3.len());
                proof {
                    assert(after_comma@ =~= s3@.drop_first());
                }
                match parse_pair_x(after_comma) {
                    None => Err(CliError::ConfigParseError),
                    Some((k2, v2, rest2)) => {
                        let s5 = skip_ws_x(rest2);
                        if !(s5.len() > 0 && s5[0] == '}') {
                            return Err(CliError::ConfigParseError);
                        }
                        let tail = slice_subrange(s5, 1, s5.len());
                        proof {
                            assert(tail@ =~= s5@.drop_first());
                        }
                        if skip_ws_x(tail).len() != 0 {
                            return Err(CliError::ConfigParseError);
                        }
                        if is_api_url_key(&k1) && is_access_token_key(&k2) {
                            match v1 {
                                Some(u) => Ok(
                                    Config {
                                        api_url: chars_to_string(&u),
                                        access_token: opt_chars_to_string(v2),
                                    },
                                ),
                                None => Err(CliError::ConfigParseError),
                            }
                        } else if is_access_token_key(&k1) && is_api_url_key(&k2) {
                            match v2 {
                                Some(u) => Ok(
                                    Config {
                                        api_url: chars_to_string(&u),
                                        access_token: opt_chars_to_string(v1),
                                    },
                                ),
                                None => Err(CliError::ConfigParseError),
                            }
                        } else {
                            Err(CliError::ConfigParseError)
                        }
                    },
                }
            } else {
                Err(CliError::ConfigParseError)
            }
        },
    }
}

/// Reads a configuration from the file content, when the file exists.
/// `None` stands for an absent file.
pub fn load_config(content: Option<&str>) -> (r: Result<Config, CliError>)
    ensures
        match content {
            None => r == Err::<Config, CliError>(CliError::ConfigMissing),
            Some(text) => match r {
                Ok(c) => parse_config_spec(text@) == Some(c@),
                Err(e) => e == CliError::ConfigParseError && parse_config_spec(text@) is None,
            },
        },
{
    match content {
        None => Err(CliError::ConfigMissing),
        Some(text) => parse_config(text),
    }
}

/// The API URL held in the configuration file content, when the file
/// exists and parses.
pub fn get_api_url(content: Option<&str>) -> (r: Result<String, CliError>)
    ensures
        match content {
            None => r == Err::<String, CliError>(CliError::ConfigMissing),
            Some(text) => match r {
                Ok(u) => parse_config_spec(text@) matches Some(c) && c.api_url == u@,
                Err(e) => e == CliError::ConfigParseError && parse_config_spec(text@) is None,
            },
        },
{
    match load_config(content) {
        Ok(c) => Ok(c.api_url),
        Err(e) => Err(e),
    }
}

/// The path of the configuration file inside the per-user configuration
/// directory `config_dir`.
pub fn get_config_file(config_dir: &str) -> (r: String)
    ensures
        r@ == config_dir@ + "/cdr/config.json"@,
{
    let mut r = String::from_str(config_dir);
    r.append("/cdr/config.json");
    r
}

// ------------------------------------------------------------------
// The `config` command decisions
// ------------------------------------------------------------------

/// The decision of `config setup`: the next configuration, given the
/// existing one (if any) and the line read from the prompt.  A blank
/// line keeps the current URL and token; with no existing configuration
/// a blank line is rejected, and a new configuration starts without a
/// token.
pub fn setup_next_config(existing: Option<Config>, input_line: &str) -> (r: Result<
    Config,
    CliError,
>)
    ensures
        match existing {
            Some(c) => r matches Ok(n) && (if trim_spec(input_line@).len() == 0 {
                n@ == c@
            } else {
                n@.api_url == trim_spec(input_line@) && n@.access_token == c@.access_token
            }),
            None => (if trim_spec(input_line@).len() == 0 {
                r == Err::<Config, CliError>(CliError::ValidationError)
            } else {
                r matches Ok(n) && n@.api_url == trim_spec(input_line@) && n@.access_token
                    is None
            }),
        },
{
    let t = trim_str(input_line);
    match existing {
        Some(c) => {
            if t.as_str().is_empty() {
                Ok(c)
            } else {
                Ok(Config { api_url: t, access_token: c.access_token })
            }
        },
        None => {
            if t.as_str().is_empty() {
                Err(CliError::ValidationError)
            } else {
                Ok(Config { api_url: t, access_token: None })
            }
        },
    }
}

// ------------------------------------------------------------------
// The round trip
// ------------------------------------------------------------------

proof fn lemma_parse_rendered_pair(w: Seq<char>, key: Seq<char>, value: Seq<char>, rest: Seq<char>)
    requires
        forall|k: int| 0 <= k < w.len() ==> crate::json::is_ws(w[k]),
        forall|k: int|
            0 <= k < key.len() ==> key[k] != '"' && key[k] != '\\' && (key[k] as u32) >= 0x20,
    ensures
        parse_pair_spec(
            w + seq!['"'] + key + seq!['"', ':', ' ', '"'] + escape_seq(value) + seq!['"'] + rest,
        ) == Some((key, Some(value), rest)),
{
    let t1 = seq!['"'] + (key + (seq!['"', ':', ' ', '"'] + (escape_seq(value) + (seq!['"']
        + rest))));
    assert(w + seq!['"'] + key + seq!['"', ':', ' ', '"'] + escape_seq(value) + seq!['"'] + rest
        =~= w + t1);
    lemma_skip_ws_prefix(w, t1);
    let after_key = seq![':', ' ', '"'] + escape_seq(value) + seq!['"'] + rest;
    assert(t1.drop_first() =~= key + seq!['"'] + after_key);
    lemma_parse_plain_body(key, after_key);
    let v_start = seq!['"'] + escape_seq(value) + seq!['"'] + rest;
    assert(after_key[0] == ':');
    assert(after_key.drop_first() =~= seq![' '] + v_start);
    lemma_skip_ws_prefix(seq![' '], v_start);
    assert(v_start.drop_first() =~= escape_seq(value) + seq!['"'] + rest);
    lemma_parse_escaped_body(value, rest);
}

/// Saving a configuration and loading it back yields the same
/// configuration: the URL and, when a token is stored, the token.
#[verifier::rlimit(50)]
pub proof fn lemma_config_round_trip(c: ConfigV)
    ensures
        parse_config_spec(config_json_spec(c)) == Some(c),
{
    reveal_strlit("{\n  \"api_url\": \"");
    reveal_strlit("\",\n  \"access_token\": \"");
    reveal_strlit("\"\n}");
    reveal_strlit("api_url");
    reveal_strlit("access_token");
    let key1 = "api_url"@;
    let key2 = "access_token"@;
    let ws = seq!['\n', ' ', ' '];
    let s_all = config_json_spec(c);
    match c.access_token {
        Some(t) => {
            let rest_b = seq!['\n', '}'];
            let rest_a = seq![','] + ws + seq!['"'] + key2 + seq!['"', ':', ' ', '"'] + escape_seq(
                t,
            ) + seq!['"'] + rest_b;
            assert(s_all[0] == '{');
            assert(skip_ws_spec(s_all) == s_all);
            let d1 = s_all.drop_first();
            assert(d1 =~= w_pair(ws, key1, c.api_url, rest_a));
            lemma_parse_rendered_pair(ws, key1, c.api_url, rest_a);
            assert(parse_pair_spec(d1) == Some((key1, Some(c.api_url), rest_a)));
            assert(rest_a[0] == ',');
            assert(skip_ws_spec(rest_a) == rest_a);
            assert(rest_a.drop_first() =~= w_pair(ws, key2, t, rest_b));
            lemma_parse_rendered_pair(ws, key2, t, rest_b);
            assert(parse_pair_spec(rest_a.drop_first()) == Some((key2, Some(t), rest_b)));
            assert(rest_b =~= seq!['\n'] + seq!['}']);
            lemma_skip_ws_prefix(seq!['\n'], seq!['}']);
            assert(skip_ws_spec(rest_b) == seq!['}']);
            assert(seq!['}'].drop_first() =~= Seq::<char>::empty());
            assert(skip_ws_spec(Seq::<char>::empty()).len() == 0);
            assert(config_of_two(key1, Some(c.api_url), key2, Some(t)) == Some(c));
        },
        None => {
            let rest_b = seq!['\n', '}'];
            assert(s_all[0] == '{');
            assert(skip_ws_spec(s_all) == s_all);
            let d1 = s_all.drop_first();
            assert(d1 =~= w_pair(ws, key1, c.api_url, rest_b));
            lemma_parse_rendered_pair(ws, key1, c.api_url, rest_b);
            assert(parse_pair_spec(d1) == Some((key1, Some(c.api_url), rest_b)));
            assert(rest_b =~= seq!['\n'] + seq!['}']);
            lemma_skip_ws_prefix(seq!['\n'], seq!['}']);
            assert(skip_ws_spec(rest_b) == seq!['}']);
            assert(seq!['}'].drop_first() =~= Seq::<char>::empty());
            assert(skip_ws_spec(Seq::<char>::empty()).len() == 0);
            assert(config_of_one(key1, Some(c.api_url)) == Some(c));
        },
    }
}

/// The text of one rendered object member, as the saver writes it.
spec fn w_pair(w: Seq<char>, key: Seq<char>, value: Seq<char>, rest: Seq<char>) -> Seq<char> {
    w + seq!['"'] + key + seq!['"', ':', ' ', '"'] + escape_seq(value) + seq!['"'] + rest
}

/// The text `config info` prints for an existing configuration: the file
/// path, the URL, and the token (blank when none is stored).
pub open spec fn info_text_spec(path: Seq<char>, c: ConfigV) -> Seq<char> {
    "Current API Configuration:\nFile: "@ + path + "\nValues: \n  API URL: "@ + c.api_url
        + "\n  Access Token: "@ + (match c.access_token {
        Some(t) => t,
        None => Seq::<char>::empty(),
    }) + "\n"@
}

/// Renders what `config info` prints.
pub fn config_info_text(config_file: &str, config: &Config) -> (r: String)
    ensures
        r@ == info_text_spec(config_file@, config@),
{
    let mut out = String::from_str("Current API Configuration:\nFile: ");
    out.append(config_file);
    out.append("\nValues: \n  API URL: ");
    out.append(self_str(&config.api_url));
    out.append("\n  Access Token: ");
    match &config.access_token {
        Some(t) => {
            out.append(self_str(t));
        },
        None => {},
    }
    out.append("\n");
    proof {
        assert(out@ =~= info_text_spec(config_file@, config@));
    }
    out
}

} // verus!
