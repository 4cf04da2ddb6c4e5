use vstd::prelude::*;
use vstd::slice::slice_subrange;
use vstd::string::StringExecFns;
use crate::config::{get_api_url, opt_chars_to_string, parse_config_spec};
use crate::errors::CliError;
use crate::json::{
    escape_chars, escape_seq, lemma_parse_pair_len, lemma_parse_string_body_len, lemma_skip_ws_len,
    opt_chars_view, parse_pair_spec, parse_pair_x, parse_string_spec, parse_string_x,
    skip_ws_spec, skip_ws_x,
};
use crate::login::ApiCall;
use crate::text::{chars_eq, chars_to_string, dec_digits, fmt_u16, str_to_chars};

verus! {

/// A resource template as the server describes it.
#[derive(Debug)]
pub struct ResourceTemplate {
    pub id: String,
    pub name: String,
    pub resource_template_type: String,
    pub description: String,
}

/// The mathematical content of a [`ResourceTemplate`].
pub ghost struct TemplateV {
    pub id: Seq<char>,
    pub name: Seq<char>,
    pub resource_template_type: Seq<char>,
    pub description: Seq<char>,
}

impl View for ResourceTemplate {
    type V = TemplateV;

    open spec fn view(&self) -> TemplateV {
        TemplateV {
            id: self.id@,
            name: self.name@,
            resource_template_type: self.resource_template_type@,
            description: self.description@,
        }
    }
}

/// The templates listed by the server.
#[derive(Debug)]
pub struct GetResourceTemplatesResponse {
    pub resource_templates: Vec<ResourceTemplate>,
}

/// What the client asks the server to create.
#[derive(Debug)]
pub struct CreateResourceTemplateRequest {
    pub name: String,
    pub resource_template_type: String,
    pub description: String,
    pub provider: u8,
}

/// The views of a sequence of templates.
pub open spec fn templates_view(ts: Seq<ResourceTemplate>) -> Seq<TemplateV> {
    ts.map_values(|t: ResourceTemplate| t@)
}

// ------------------------------------------------------------------
// The creation request
// ------------------------------------------------------------------

/// The exact JSON body sent to create a template.
pub open spec fn create_body_spec(
    name: Seq<char>,
    rt_type: Seq<char>,
    description: Seq<char>,
    provider: u8,
) -> Seq<char> {
    "{\"name\":\""@ + escape_seq(name) + "\",\"type\":\""@ + escape_seq(rt_type)
        + "\",\"description\":\""@ + escape_seq(description) + "\",\"provider\":"@ + dec_digits(
        provider as nat,
    ) + "}"@
}

/// Renders the creation request body.
pub fn create_request_body(req: &CreateResourceTemplateRequest) -> (r: String)
    ensures
        r@ == create_body_spec(
            req.name@,
            req.resource_template_type@,
            req.description@,
            req.provider,
        ),
{
    let mut out = String::from_str("{\"name\":\"");
    let name_chars = str_to_chars(req.name.as_str());
    let name_esc = escape_chars(&name_chars);
    let name_str = chars_to_string(&name_esc);
    out.append(name_str.as_str());
    out.append("\",\"type\":\"");
    let ty_chars = str_to_chars(req.resource_template_type.as_str());
    let ty_esc = escape_chars(&ty_chars);
    let ty_str = chars_to_string(&ty_esc);
    out.append(ty_str.as_str());
    out.append("\",\"description\":\"");
    let d_chars = str_to_chars(req.description.as_str());
    let d_esc = escape_chars(&d_chars);
    let d_str = chars_to_string(&d_esc);
    out.append(d_str.as_str());
    out.append("\",\"provider\":");
    let digits = fmt_u16(req.provider as u16);
    out.append(digits.as_str());
    out.append("}");
    out
}

/// Builds the creation request from the command's flags alone: the
/// request exists exactly when all four flags were given, and then it
/// carries them unchanged.
pub fn build_create_request(
    name: Option<&str>,
    rt_type: Option<&str>,
    description: Option<&str>,
    provider: Option<u8>,
) -> (r: Option<CreateResourceTemplateRequest>)
    ensures
        r is Some <==> (name is Some && rt_type is Some && description is Some && provider
            is Some),
        r matches Some(req) ==> {
            &&& name matches Some(n) && req.name@ == n@
            &&& rt_type matches Some(t) && req.resource_template_type@ == t@
            &&& description matches Some(d) && req.description@ == d@
            &&& provider matches Some(p) && req.provider == p
        },
{
    match (name, rt_type, description, provider) {
        (Some(n), Some(t), Some(d), Some(p)) => Some(
            CreateResourceTemplateRequest {
                name: String::from_str(n),
                resource_template_type: String::from_str(t),
                description: String::from_str(d),
                provider: p,
            },
        ),
        _ => None,
    }
}

/// Prepares the creation request: the endpoint and the exact body.
pub fn create_resource_template_call(
    config_content: Option<&str>,
    request: &CreateResourceTemplateRequest,
) -> (r: Result<ApiCall, CliError>)
    ensures
        match config_content {
            None => r == Err::<ApiCall, CliError>(CliError::ConfigMissing),
            Some(text) => match parse_config_spec(text@) {
                Some(c) => r matches Ok(call) && call.url@ == c.api_url + "/resource-templates"@
                    && call.body@ == create_body_spec(
                    request.name@,
                    request.resource_template_type@,
                    request.description@,
                    request.provider,
                ),
                None => r == Err::<ApiCall, CliError>(CliError::ConfigParseError),
            },
        },
{
    let url = match get_api_url(config_content) {
        Ok(u) => u,
        Err(e) => {
            return Err(e);
        },
    };
    let mut full = url;
    full.append("/resource-templates");
    let body = create_request_body(request);
    Ok(ApiCall { url: full, body })
}

/// Decides what the creation answer means: HTTP 200 succeeds with a
/// confirmation naming the template; any other status is that status's
/// error.
pub fn create_resource_template_finish(status: u16, name: &str) -> (r: Result<String, CliError>)
    ensures
        status == 200 ==> (r matches Ok(m) && m@ == "Created resource template \""@ + name@
            + "\""@),
        status != 200 ==> r == Err::<String, CliError>(CliError::HttpStatusError(status)),
{
    if status == 200 {
        let mut out = String::from_str("Created resource template \"");
        out.append(name);
        out.append("\"");
        Ok(out)
    } else {
        Err(CliError::HttpStatusError(status))
    }
}

/// The endpoint templates are listed from and created at.
pub fn resource_templates_url(config_content: Option<&str>) -> (r: Result<String, CliError>)
    ensures
        match config_content {
            None => r == Err::<String, CliError>(CliError::ConfigMissing),
            Some(text) => match parse_config_spec(text@) {
                Some(c) => r matches Ok(u) && u@ == c.api_url + "/resource-templates"@,
                None => r == Err::<String, CliError>(CliError::ConfigParseError),
            },
        },
{
    let url = match get_api_url(config_content) {
        Ok(u) => u,
        Err(e) => {
            return Err(e);
        },
    };
    let mut full = url;
    full.append("/resource-templates");
    Ok(full)
}

// ------------------------------------------------------------------
// The listing response
// ------------------------------------------------------------------

/// The member of a four-member object that carries `key`, if any: the
/// first matching key wins.
pub open spec fn member_lookup(
    key: Seq<char>,
    k1: Seq<char>,
    v1: Option<Seq<char>>,
    k2: Seq<char>,
    v2: Option<Seq<char>>,
    k3: Seq<char>,
    v3: Option<Seq<char>>,
    k4: Seq<char>,
    v4: Option<Seq<char>>,
) -> Option<Option<Seq<char>>> {
    if k1 == key {
        Some(v1)
    } else if k2 == key {
        Some(v2)
    } else if k3 == key {
        Some(v3)
    } else if k4 == key {
        Some(v4)
    } else {
        None
    }
}

/// The template described by four object members: each of `id`, `name`,
/// `type` and `description` must be present as a string.
pub open spec fn template_of_members(
    k1: Seq<char>,
    v1: Option<Seq<char>>,
    k2: Seq<char>,
    v2: Option<Seq<char>>,
    k3: Seq<char>,
    v3: Option<Seq<char>>,
    k4: Seq<char>,
    v4: Option<Seq<char>>,
) -> Option<TemplateV> {
    match (
        member_lookup("id"@, k1, v1, k2, v2, k3, v3, k4, v4),
        member_lookup("name"@, k1, v1, k2, v2, k3, v3, k4, v4),
        member_lookup("type"@, k1, v1, k2, v2, k3, v3, k4, v4),
        member_lookup("description"@, k1, v1, k2, v2, k3, v3, k4, v4),
    ) {
        (Some(Some(id)), Some(Some(name)), Some(Some(ty)), Some(Some(d))) => Some(
            TemplateV { id: id, name: name, resource_template_type: ty, description: d },
        ),
        _ => None,
    }
}

/// Parses one template object: four members in any order.
pub open spec fn parse_template_obj_spec(s: Seq<char>) -> Option<(TemplateV, Seq<char>)> {
    let s0 = skip_ws_spec(s);
    if s0.len() > 0 && s0[0] == '{' {
        match parse_pair_spec(s0.drop_first()) {
            Some(p1) => {
                let t1 = skip_ws_spec(p1.2);
                if t1.len() > 0 && t1[0] == ',' {
                    match parse_pair_spec(t1.drop_first()) {
                        Some(p2) => {
                            let t2 = skip_ws_spec(p2.2);
                            if t2.len() > 0 && t2[0] == ',' {
                                match parse_pair_spec(t2.drop_first()) {
                                    Some(p3) => {
                                        let t3 = skip_ws_spec(p3.2);
                                        if t3.len() > 0 && t3[0] == ',' {
                                            match parse_pair_spec(t3.drop_first()) {
                                                Some(p4) => {
                                                    let t4 = skip_ws_spec(p4.2);
                                                    if t4.len() > 0 && t4[0] == '}' {
                                                        match template_of_members(
                                                            p1.0,
                                                            p1.1,
                                                            p2.0,
                                                            p2.1,
                                                            p3.0,
                                                            p3.1,
                                                            p4.0,
                                                            p4.1,
                                                        ) {
                                                            Some(t) => Some((t, t4.drop_first())),
                                                            None => None,
                                                        }
                                                    } else {
                                                        None
                                                    }
                                                },
                                                None => None,
                                            }
                                        } else {
                                            None
                                        }
                                    },
                                    None => None,
                                }
                            } else {
                                None
                            }
                        },
                        None => None,
                    }
                } else {
                    None
                }
            },
            None => None,
        }
    } else {
        None
    }
}

/// A decoded template object consumes at least part of the text.
proof fn lemma_parse_template_obj_len(s: Seq<char>)
    ensures
        parse_template_obj_spec(s) matches Some(p) ==> p.1.len() < s.len(),
{
    let s0 = skip_ws_spec(s);
    lemma_skip_ws_len(s);
    if s0.len() > 0 && s0[0] == '{' {
        lemma_parse_pair_len(s0.drop_first());
        match parse_pair_spec(s0.drop_first()) {
            Some(p1) => {
                let t1 = skip_ws_spec(p1.2);
                lemma_skip_ws_len(p1.2);
                if t1.len() > 0 && t1[0] == ',' {
                    lemma_parse_pair_len(t1.drop_first());
                    match parse_pair_spec(t1.drop_first()) {
                        Some(p2) => {
                            let t2 = skip_ws_spec(p2.2);
                            lemma_skip_ws_len(p2.2);
                            if t2.len() > 0 && t2[0] == ',' {
                                lemma_parse_pair_len(t2.drop_first());
                                match parse_pair_spec(t2.drop_first()) {
                                    Some(p3) => {
                                        let t3 = skip_ws_spec(p3.2);
                                        lemma_skip_ws_len(p3.2);
                                        if t3.len() > 0 && t3[0] == ',' {
                                            lemma_parse_pair_len(t3.drop_first());
                                            match parse_pair_spec(t3.drop_first()) {
                                                Some(p4) => {
                                                    lemma_skip_ws_len(p4.2);
                                                },
                                                None => {},
                                            }
                                        }
                                    },
                                    None => {},
                                }
                            }
                        },
                        None => {},
                    }
                }
            },
            None => {},
        }
    }
}

/// Parses the rest of a template array, standing just after an element:
/// either the closing bracket, or a comma and a further element.
pub open spec fn parse_items_rest_spec(s: Seq<char>) -> Option<(Seq<TemplateV>, Seq<char>)>
    decreases s.len(),
    via lemma_parse_items_rest_decreases
{
    let s0 = skip_ws_spec(s);
    if s0.len() > 0 && s0[0] == ']' {
        Some((Seq::empty(), s0.drop_first()))
    } else if s0.len() > 0 && s0[0] == ',' {
        match parse_template_obj_spec(s0.drop_first()) {
            Some(p) => match parse_items_rest_spec(p.1) {
                Some(q) => Some((seq![p.0] + q.0, q.1)),
                None => None,
            },
            None => None,
        }
    } else {
        None
    }
}

#[via_fn]
proof fn lemma_parse_items_rest_decreases(s: Seq<char>) {
    lemma_skip_ws_len(s);
    let s0 = skip_ws_spec(s);
    if s0.len() > 0 && s0[0] == ',' {
        lemma_parse_template_obj_len(s0.drop_first());
    }
}

/// Parses a whole template array, standing just after the opening
/// bracket.
pub open spec fn parse_items_spec(s: Seq<char>) -> Option<(Seq<TemplateV>, Seq<char>)> {
    let s0 = skip_ws_spec(s);
    if s0.len() > 0 && s0[0] == ']' {
        Some((Seq::empty(), s0.drop_first()))
    } else {
        match parse_template_obj_spec(s) {
            Some(p) => match parse_items_rest_spec(p.1) {
                Some(q) => Some((seq![p.0] + q.0, q.1)),
                None => None,
            },
            None => None,
        }
    }
}

/// Parses the listing response: an object holding exactly one member,
/// `resourceTemplates`, an array of template objects, with nothing after
/// the object.
pub open spec fn parse_templates_spec(s: Seq<char>) -> Option<Seq<TemplateV>> {
    let s0 = skip_ws_spec(s);
    if s0.len() > 0 && s0[0] == '{' {
        match parse_string_spec(skip_ws_spec(s0.drop_first())) {
            Some(kp) => if kp.0 == "resourceTemplates"@ {
                let s2 = skip_ws_spec(kp.1);
                if s2.len() > 0 && s2[0] == ':' {
                    let s3 = skip_ws_spec(s2.drop_first());
                    if s3.len() > 0 && s3[0] == '[' {
                        match parse_items_spec(s3.drop_first()) {
                            Some(q) => {
                                let s4 = skip_ws_spec(q.1);
                                if s4.len() > 0 && s4[0] == '}' && skip_ws_spec(
                                    s4.drop_first(),
                                ).len() == 0 {
                                    Some(q.0)
                                } else {
                                    None
                                }
                            },
                            None => None,
                        }
                    } else {
                        None
                    }
                } else {
                    None
                }
            } else {
                None
            },
            None => None,
        }
    } else {
        None
    }
}

/// The view of an optional string member: `Some` for a string, `None`
/// for `null`.
pub open spec fn opt_str_view(o: Option<String>) -> Option<Seq<char>> {
    match o {
        Some(s) => Some(s@),
        None => None,
    }
}

/// The view of a looked-up member: found or not, string or `null`.
pub open spec fn opt2_view(o: Option<Option<String>>) -> Option<Option<Seq<char>>> {
    match o {
        Some(v) => Some(opt_str_view(v)),
        None => None,
    }
}

fn clone_opt_string(o: &Option<String>) -> (r: Option<String>)
    ensures
        r == *o,
{
    match o {
        Some(s) => Some(s.clone()),
        None => None,
    }
}

fn lookup_x(
    key: &Vec<char>,
    k1: &Vec<char>,
    v1: &Option<String>,
    k2: &Vec<char>,
    v2: &Option<String>,
    k3: &Vec<char>,
    v3: &Option<String>,
    k4: &Vec<char>,
    v4: &Option<String>,
) -> (r: Option<Option<String>>)
    ensures
        opt2_view(r) == member_lookup(
            key@,
            k1@,
            opt_str_view(*v1),
            k2@,
            opt_str_view(*v2),
            k3@,
            opt_str_view(*v3),
            k4@,
            opt_str_view(*v4),
        ),
{
    if chars_eq(k1, key) {
        Some(clone_opt_string(v1))
    } else if chars_eq(k2, key) {
        Some(clone_opt_string(v2))
    } else if chars_eq(k3, key) {
        Some(clone_opt_string(v3))
    } else if chars_eq(k4, key) {
        Some(clone_opt_string(v4))
    } else {
        None
    }
}

fn template_of_members_x(
    k1: &Vec<char>,
    v1: &Option<String>,
    k2: &Vec<char>,
    v2: &Option<String>,
    k3: &Vec<char>,
    v3: &Option<String>,
    k4: &Vec<char>,
    v4: &Option<String>,
) -> (r: Option<ResourceTemplate>)
    ensures
        match r {
            Some(t) => template_of_members(
                k1@,
                opt_str_view(*v1),
                k2@,
                opt_str_view(*v2),
                k3@,
                opt_str_view(*v3),
                k4@,
                opt_str_view(*v4),
            ) == Some(t@),
            None => template_of_members(
                k1@,
                opt_str_view(*v1),
                k2@,
                opt_str_view(*v2),
                k3@,
                opt_str_view(*v3),
                k4@,
                opt_str_view(*v4),
            ) is None,
        },
{
    let id_key = str_to_chars("id");
    let name_key = str_to_chars("name");
    let type_key = str_to_chars("type");
    let desc_key = str_to_chars("description");
    let id_m = lookup_x(&id_key, k1, v1, k2, v2, k3, v3, k4, v4);
    let name_m = lookup_x(&name_key, k1, v1, k2, v2, k3, v3, k4, v4);
    let type_m = lookup_x(&type_key, k1, v1, k2, v2, k3, v3, k4, v4);
    let desc_m = lookup_x(&desc_key, k1, v1, k2, v2, k3, v3, k4, v4);
    match (id_m, name_m, type_m, desc_m) {
        (Some(Some(id)), Some(Some(name)), Some(Some(ty)), Some(Some(d))) => Some(
            ResourceTemplate {
                id: id,
                name: name,
                resource_template_type: ty,
                description: d,
            },
        ),
        _ => None,
    }
}

/// Decodes one template object.
fn parse_template_obj_x<'a>(s: &'a [char]) -> (r: Option<(ResourceTemplate, &'a [char])>)
    ensures
        match r {
            Some(p) => parse_template_obj_spec(s@) == Some((p.0@, p.1@)),
            None => parse_template_obj_spec(s@) is None,
        },
{
    let s0 = skip_ws_x(s);
    if !(s0.len() > 0 && s0[0] == '{') {
        return None;
    }
    let s1 = slice_subrange(s0, 1, s0.len());
    proof {
        assert(s1@ =~= s0@.drop_first());
    }
    let (k1, v1, r1) = match parse_pair_x(s1) {
        Some(p) => p,
        None => {
            return None;
        },
    };
    let t1 = skip_ws_x(r1);
    if !(t1.len() > 0 && t1[0] == ',') {
        return None;
    }
    let t1b = slice_subrange(t1, 1, t1.len());
    proof {
        assert(t1b@ =~= t1@.drop_first());
    }
    let (k2, v2, r2) = match parse_pair_x(t1b) {
        Some(p) => p,
        None => {
            return None;
        },
    };
    let t2 = skip_ws_x(r2);
    if !(t2.len() > 0 && t2[0] == ',') {
        return None;
    }
    let t2b = slice_subrange(t2, 1, t2.len());
    proof {
        assert(t2b@ =~= t2@.drop_first());
    }
    let (k3, v3, r3) = match parse_pair_x(t2b) {
        Some(p) => p,
        None => {
            return None;
        },
    };
    let t3 = skip_ws_x(r3);
    if !(t3.len() > 0 && t3[0] == ',') {
        return None;
    }
    let t3b = slice_subrange(t3, 1, t3.len());
    proof {
        assert(t3b@ =~= t3@.drop_first());
    }
    let (k4, v4, r4) = match parse_pair_x(t3b) {
        Some(p) => p,
        None => {
            return None;
        },
    };
    let t4 = skip_ws_x(r4);
    if !(t4.len() > 0 && t4[0] == '}') {
        return None;
    }
    let rest = slice_subrange(t4, 1, t4.len());
    proof {
        assert(rest@ =~= t4@.drop_first());
    }
    let sv1 = opt_chars_to_string(v1);
    let sv2 = opt_chars_to_string(v2);
    let sv3 = opt_chars_to_string(v3);
    let sv4 = opt_chars_to_string(v4);
    match template_of_members_x(&k1, &sv1, &k2, &sv2, &k3, &sv3, &k4, &sv4) {
        Some(t) => Some((t, rest)),
        None => None,
    }
}

/// Decodes the rest of a template array, after an element.
fn parse_items_rest_x<'a>(s: &'a [char]) -> (r: Option<(Vec<ResourceTemplate>, &'a [char])>)
    ensures
        match r {
            Some(p) => parse_items_rest_spec(s@) == Some((templates_view(p.0@), p.1@)),
            None => parse_items_rest_spec(s@) is None,
        },
    decreases s@.len(),
{
    let s0 = skip_ws_x(s);
    if s0.len() > 0 && s0[0] == ']' {
        let rest = slice_subrange(s0, 1, s0.len());
        let out: Vec<ResourceTemplate> = Vec::new();
        proof {
            assert(rest@ =~= s0@.drop_first());
            assert(templates_view(out@) =~= Seq::<TemplateV>::empty());
        }
        return Some((out, rest));
    }
    if !(s0.len() > 0 && s0[0] == ',') {
        return None;
    }
    let s1 = slice_subrange(s0, 1, s0.len());
    proof {
        assert(s1@ =~= s0@.drop_first());
    }
    match parse_template_obj_x(s1) {
        None => None,
        Some((t, r1)) => {
            proof {
                lemma_skip_ws_len(s@);
                lemma_parse_template_obj_len(s1@);
            }
            match parse_items_rest_x(r1) {
                None => None,
                Some((ts, rest)) => {
                    let mut out = ts;
                    out.insert(0, t);
                    proof {
                        assert(templates_view(out@) =~= seq![t@] + templates_view(
                            out@.drop_first(),
                        ));
                    }
                    Some((out, rest))
                },
            }
        },
    }
}

/// Decodes a whole template array, after the opening bracket.
fn parse_items_x<'a>(s: &'a [char]) -> (r: Option<(Vec<ResourceTemplate>, &'a [char])>)
    ensures
        match r {
            Some(p) => parse_items_spec(s@) == Some((templates_view(p.0@), p.1@)),
            None => parse_items_spec(s@) is None,
        },
{
    let s0 = skip_ws_x(s);
    if s0.len() > 0 && s0[0] == ']' {
        let rest = slice_subrange(s0, 1, s0.len());
        let out: Vec<ResourceTemplate> = Vec::new();
        proof {
            assert(rest@ =~= s0@.drop_first());
            assert(templates_view(out@) =~= Seq::<TemplateV>::empty());
        }
        return Some((out, rest));
    }
    match parse_template_obj_x(s) {
        None => None,
        Some((t, r1)) => {
            match parse_items_rest_x(r1) {
                None => None,
                Some((ts, rest)) => {
                    let mut out = ts;
                    out.insert(0, t);
                    proof {
                        assert(templates_view(out@) =~= seq![t@] + templates_view(
                            out@.drop_first(),
                        ));
                    }
                    Some((out, rest))
                },
            }
        },
    }
}

/// Decodes the listing response, as [`parse_templates_spec`] reads it.
pub fn parse_templates_response(body: &str) -> (r: Result<GetResourceTemplatesResponse, CliError>)
    ensures
        match r {
            Ok(resp) => parse_templates_spec(body@) == Some(
                templates_view(resp.resource_templates@),
            ),
            Err(e) => e == CliError::ResponseParseError && parse_templates_spec(body@) is None,
        },
{
    let chars = str_to_chars(body);
    let s = chars.as_slice();
    let s0 = skip_ws_x(s);
    if !(s0.len() > 0 && s0[0] == '{') {
        return Err(CliError::ResponseParseError);
    }
    let s1 = slice_subrange(s0, 1, s0.len());
    proof {
        assert(s1@ =~= s0@.drop_first());
    }
    let (key, after_key) = match parse_string_x(skip_ws_x(s1)) {
        Some(p) => p,
        None => {
            return Err(CliError::ResponseParseError);
        },
    };
    let expected = str_to_chars("resourceTemplates");
    if !chars_eq(&key, &expected) {
        return Err(CliError::ResponseParseError);
    }
    let s2 = skip_ws_x(after_key);
    if !(s2.len() > 0 && s2[0] == ':') {
        return Err(CliError::ResponseParseError);
    }
    let s2b = slice_subrange(s2, 1, s2.len());
    proof {
        assert(s2b@ =~= s2@.drop_first());
    }
    let s3 = skip_ws_x(s2b);
    if !(s3.len() > 0 && s3[0] == '[') {
        return Err(CliError::ResponseParseError);
    }
    let s3b = slice_subrange(s3, 1, s3.len());
    proof {
        assert(s3b@ =~= s3@.drop_first());
    }
    let (items, after_items) = match parse_items_x(s3b) {
        Some(p) => p,
        None => {
            return Err(CliError::ResponseParseError);
        },
    };
    let s4 = skip_ws_x(after_items);
    if !(s4.len() > 0 && s4[0] == '}') {
        return Err(CliError::ResponseParseError);
    }
    let tail = slice_subrange(s4, 1, s4.len());
    proof {
        assert(tail@ =~= s4@.drop_first());
    }
    if skip_ws_x(tail).len() != 0 {
        return Err(CliError::ResponseParseError);
    }
    Ok(GetResourceTemplatesResponse { resource_templates: items })
}

// ------------------------------------------------------------------
// Printing a template
// ------------------------------------------------------------------

/// The lines printed for one listed template, separator included.
pub open spec fn template_text_spec(t: TemplateV) -> Seq<char> {
    "Id: "@ + t.id + "\nName: "@ + t.name + "\nType: "@ + t.resource_template_type
        + "\nDescription: "@ + t.description + "\n---------------------------------------"@
}

/// Renders the lines printed for one listed template.
pub fn render_template(t: &ResourceTemplate) -> (r: String)
    ensures
        r@ == template_text_spec(t@),
{
    let mut out = String::from_str("Id: ");
    out.append(t.id.as_str());
    out.append("\nName: ");
    out.append(t.name.as_str());
    out.append("\nType: ");
    out.append(t.resource_template_type.as_str());
    out.append("\nDescription: ");
    out.append(t.description.as_str());
    out.append("\n---------------------------------------");
    out
}

} // verus!
