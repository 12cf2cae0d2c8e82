//! The library's error type, and the summary of a Google Ads API error body.

use vstd::prelude::*;

use crate::json::{json_parse, parse_json, Json, JsonValue};
use crate::text::{
    contains, contains_lowercased, decimal, lower, push_decimal, push_str, starts_with, str_eq,
    string_of, trim, trim_str,
};

verus! {

/// Everything that can go wrong in a Google Ads request, with the details it reports.
/// `Auth` and `Http` hold the message of the authentication or transport failure.
#[derive(Debug)]
pub enum GoogleAdsError {
    Auth(String),
    Http(String),
    Api { status: u16, message: String },
    MissingEnvVar(String),
    InvalidCustomerId { field: &'static str, value: String },
    InvalidResponse(String),
    QueryBuild(String),
    InvalidArgument(String),
}

/// The message of an `InvalidCustomerId` error.
pub open spec fn invalid_id_text(field: Seq<char>, value: Seq<char>) -> Seq<char> {
    "invalid customer id for "@ + field + ": "@ + value + " (expected digits only, no hyphens)"@
}

/// The message that each error displays.
pub open spec fn error_text(e: GoogleAdsError) -> Seq<char> {
    match e {
        GoogleAdsError::Auth(m) => "authentication failed: "@ + m@,
        GoogleAdsError::Http(m) => "HTTP request failed: "@ + m@,
        GoogleAdsError::Api { status, message } => "API error (status "@ + decimal(status as nat)
            + "): "@ + message@,
        GoogleAdsError::MissingEnvVar(m) => "missing environment variable: "@ + m@,
        GoogleAdsError::InvalidCustomerId { field, value } => invalid_id_text(field@, value@),
        GoogleAdsError::InvalidResponse(m) => "invalid response: "@ + m@,
        GoogleAdsError::QueryBuild(m) => "query build error: "@ + m@,
        GoogleAdsError::InvalidArgument(m) => "invalid argument: "@ + m@,
    }
}

impl GoogleAdsError {
    /// An API error for a response with `status` and `body`, its message summarized.
    pub fn api(status: u16, body: String) -> (r: GoogleAdsError)
        ensures
            r matches GoogleAdsError::Api { status: s, message } && s == status && message@
                == summary_of(status, body@),
    {
        GoogleAdsError::Api { status, message: summarize_api_error(status, body.as_str()) }
    }

    /// The message of the error.
    pub fn to_string(&self) -> (r: String)
        ensures
            r@ == error_text(*self),
    {
        let mut out = String::new();
        match self {
            GoogleAdsError::Auth(m) => {
                push_str(&mut out, "authentication failed: ");
                push_str(&mut out, m.as_str());
            },
            GoogleAdsError::Http(m) => {
                push_str(&mut out, "HTTP request failed: ");
                push_str(&mut out, m.as_str());
            },
            GoogleAdsError::Api { status, message } => {
                push_str(&mut out, "API error (status ");
                push_decimal(&mut out, *status as u64);
                push_str(&mut out, "): ");
                push_str(&mut out, message.as_str());
            },
            GoogleAdsError::MissingEnvVar(m) => {
                push_str(&mut out, "missing environment variable: ");
                push_str(&mut out, m.as_str());
            },
            GoogleAdsError::InvalidCustomerId { field, value } => {
                push_str(&mut out, "invalid customer id for ");
                push_str(&mut out, field);
                push_str(&mut out, ": ");
                push_str(&mut out, value.as_str());
                push_str(&mut out, " (expected digits only, no hyphens)");
            },
            GoogleAdsError::InvalidResponse(m) => {
                push_str(&mut out, "invalid response: ");
                push_str(&mut out, m.as_str());
            },
            GoogleAdsError::QueryBuild(m) => {
                push_str(&mut out, "query build error: ");
                push_str(&mut out, m.as_str());
            },
            GoogleAdsError::InvalidArgument(m) => {
                push_str(&mut out, "invalid argument: ");
                push_str(&mut out, m.as_str());
            },
        }
        assert(out@ =~= error_text(*self));
        out
    }
}

/// The fields read out of a Google Ads error body.
#[derive(Debug)]
pub struct ParsedApiError {
    pub status: Option<String>,
    pub message: Option<String>,
    pub code: Option<String>,
    pub request_id: Option<String>,
}

/// Model of the fields read out of an error body.
pub struct ApiErrorFields {
    pub status: Option<Seq<char>>,
    pub message: Option<Seq<char>>,
    pub code: Option<Seq<char>>,
    pub request_id: Option<Seq<char>>,
}

pub open spec fn opt_view(o: Option<String>) -> Option<Seq<char>> {
    match o {
        Some(s) => Some(s@),
        None => None,
    }
}

impl ParsedApiError {
    pub open spec fn view(&self) -> ApiErrorFields {
        ApiErrorFields {
            status: opt_view(self.status),
            message: opt_view(self.message),
            code: opt_view(self.code),
            request_id: opt_view(self.request_id),
        }
    }
}

pub open spec fn opt_str(v: Option<Json>) -> Option<Seq<char>> {
    match v {
        Some(j) => j.as_str(),
        None => None,
    }
}

/// The error object of a body: its `error` member, or else the `error` member of the
/// first element of an array body.
pub open spec fn error_object(j: Json) -> Option<Json> {
    match j.get("error"@) {
        Some(e) => Some(e),
        None => match j {
            Json::Arr(items) => if items.len() > 0 {
                items[0].get("error"@)
            } else {
                None
            },
            _ => None,
        },
    }
}

/// The first member value of an object that is a string.
pub open spec fn first_str_value(e: Seq<(Seq<char>, Json)>) -> Option<Seq<char>>
    decreases e.len(),
{
    if e.len() == 0 {
        None
    } else {
        match e[0].1.as_str() {
            Some(s) => Some(s),
            None => first_str_value(e.drop_first()),
        }
    }
}

/// The error code of one detail: the first string in the `errorCode` object of its
/// first `errors` element.
pub open spec fn detail_code(detail: Json) -> Option<Seq<char>> {
    match detail.get("errors"@) {
        Some(Json::Arr(errs)) => if errs.len() > 0 {
            match errs[0].get("errorCode"@) {
                Some(Json::Obj(e)) => first_str_value(e),
                _ => None,
            }
        } else {
            None
        },
        _ => None,
    }
}

pub open spec fn detail_request_id(detail: Json) -> Option<Seq<char>> {
    opt_str(detail.get("requestId"@))
}

/// The first detail that has an error code gives the code.
pub open spec fn first_code(details: Seq<Json>) -> Option<Seq<char>>
    decreases details.len(),
{
    if details.len() == 0 {
        None
    } else {
        match detail_code(details[0]) {
            Some(c) => Some(c),
            None => first_code(details.drop_first()),
        }
    }
}

/// The first detail that has a request id gives the request id.
pub open spec fn first_request_id(details: Seq<Json>) -> Option<Seq<char>>
    decreases details.len(),
{
    if details.len() == 0 {
        None
    } else {
        match detail_request_id(details[0]) {
            Some(c) => Some(c),
            None => first_request_id(details.drop_first()),
        }
    }
}

pub open spec fn details_of(e: Json) -> Seq<Json> {
    match e.get("details"@) {
        Some(Json::Arr(d)) => d,
        _ => Seq::empty(),
    }
}

/// The fields of an error object.
pub open spec fn fields_of(e: Json) -> ApiErrorFields {
    ApiErrorFields {
        status: opt_str(e.get("status"@)),
        message: opt_str(e.get("message"@)),
        code: first_code(details_of(e)),
        request_id: first_request_id(details_of(e)),
    }
}

/// The fields of a parsed error body; `None` where it has no error object.
pub open spec fn fields_of_json(j: Json) -> Option<ApiErrorFields> {
    match error_object(j) {
        Some(e) => Some(fields_of(e)),
        None => None,
    }
}

/// The fields of an error body; `None` where the body is not JSON or has no error object.
pub open spec fn api_error_model(body: Seq<char>) -> Option<ApiErrorFields> {
    match json_parse(body) {
        Ok(j) => fields_of_json(j),
        Err(_) => None,
    }
}

pub open spec fn hint_invalid_login() -> Seq<char> {
    "Set login-customer-id to digits only (no hyphens) and ensure the MCC is accessible."@
}

pub open spec fn hint_permission_denied() -> Seq<char> {
    "If this is a direct account, unset login-customer-id. If it's an MCC path, use a linked manager account."@
}

pub open spec fn hint_quota_project() -> Seq<char> {
    "Run `gcloud auth application-default set-quota-project <PROJECT_ID>` or set GOOGLE_CLOUD_QUOTA_PROJECT."@
}

/// The hint for an error code and message.
pub open spec fn hint_spec(code: Option<Seq<char>>, message: Option<Seq<char>>) -> Option<Seq<char>> {
    if code == Some("INVALID_LOGIN_CUSTOMER_ID"@) {
        Some(hint_invalid_login())
    } else if code == Some("USER_PERMISSION_DENIED"@) {
        Some(hint_permission_denied())
    } else if contains(
        lower(
            match message {
                Some(m) => m,
                None => Seq::empty(),
            },
        ),
        "requires a quota project"@,
    ) {
        Some(hint_quota_project())
    } else {
        None
    }
}

/// `s` trimmed, and cut to `max` characters with `...` appended when it is longer.
pub open spec fn truncated(s: Seq<char>, max: nat) -> Seq<char> {
    if trim(s).len() <= max {
        trim(s)
    } else {
        trim(s).take(max as int) + "..."@
    }
}

pub open spec fn part(prefix: Seq<char>, v: Option<Seq<char>>, suffix: Seq<char>) -> Seq<char> {
    match v {
        Some(x) => prefix + x + suffix,
        None => Seq::empty(),
    }
}

/// The summary for the fields of a Google Ads error body.
pub open spec fn summary_with(status: u16, p: ApiErrorFields) -> Seq<char> {
    "HTTP "@ + decimal(status as nat) + part(" "@, p.status, Seq::empty()) + part(
        ": "@,
        p.message,
        Seq::empty(),
    ) + part(" [code="@, p.code, "]"@) + part(" [request_id="@, p.request_id, "]"@) + part(
        " Hint: "@,
        hint_spec(p.code, p.message),
        Seq::empty(),
    )
}

/// The one-line summary of an error response with status `status` and body `body`, given
/// what parsing the body as JSON gave.
pub open spec fn summary_for(status: u16, body: Seq<char>, parsed: Result<Json, Seq<char>>) -> Seq<char> {
    let fields = match parsed {
        Ok(j) => fields_of_json(j),
        Err(_) => None,
    };
    match fields {
        None => "HTTP "@ + decimal(status as nat) + ": "@ + truncated(body, 320),
        Some(p) => summary_with(status, p),
    }
}

/// The one-line summary of an error response.
pub open spec fn summary_of(status: u16, body: Seq<char>) -> Seq<char> {
    summary_for(status, body, json_parse(body))
}

/// Every summary begins with `HTTP ` and the status code, whatever the body holds.
pub proof fn lemma_summary_starts_with_status(status: u16, body: Seq<char>)
    ensures
        starts_with(summary_of(status, body), "HTTP "@ + decimal(status as nat)),
{
    let head = "HTTP "@ + decimal(status as nat);
    let s = summary_of(status, body);
    match api_error_model(body) {
        None => {
            assert(s =~= head + (": "@ + truncated(body, 320)));
        },
        Some(p) => {
            assert(s =~= head + (part(" "@, p.status, Seq::empty()) + part(": "@, p.message, Seq::empty())
                + part(" [code="@, p.code, "]"@) + part(" [request_id="@, p.request_id, "]"@)
                + part(" Hint: "@, hint_spec(p.code, p.message), Seq::empty())));
        },
    }
    assert(s.take(head.len() as int) =~= head);
}

fn opt_string(s: Option<&str>) -> (r: Option<String>)
    ensures
        opt_view(r) == match s {
            Some(x) => Some(x@),
            None => None::<Seq<char>>,
        },
{
    match s {
        Some(x) => Some(string_of(x)),
        None => None,
    }
}

/// The error object of a parsed error body.
pub fn extract_error_object(json: &JsonValue) -> (r: Option<&JsonValue>)
    ensures
        match r {
            Some(e) => error_object(json@) == Some(e@),
            None => error_object(json@) is None,
        },
{
    if let Some(error) = json.get("error") {
        return Some(error);
    }
    match json.as_array() {
        Some(items) => {
            if items.len() > 0 {
                items[0].get("error")
            } else {
                None
            }
        },
        None => None,
    }
}

/// The error code of one entry of `details`.
pub fn extract_error_code(detail: &JsonValue) -> (r: Option<String>)
    ensures
        opt_view(r) == detail_code(detail@),
{
    let errors = match detail.get("errors") {
        Some(e) => e,
        None => return None,
    };
    let list = match errors.as_array() {
        Some(l) => l,
        None => return None,
    };
    if list.len() == 0 {
        return None;
    }
    let code_obj = match list[0].get("errorCode") {
        Some(c) => c,
        None => return None,
    };
    match code_obj {
        JsonValue::Object(entries) => {
            proof {
                code_obj.lemma_view_object();
            }
            let ghost e = crate::json::entry_views(entries@);
            assert(detail_code(detail@) == first_str_value(e));
            assert(e.subrange(0, e.len() as int) =~= e);
            let mut i: usize = 0;
            while i < entries.len()
                invariant
                    e == crate::json::entry_views(entries@),
                    detail_code(detail@) == first_str_value(e),
                    i <= entries.len(),
                    first_str_value(e) == first_str_value(e.subrange(i as int, e.len() as int)),
                decreases entries.len() - i,
            {
                let ghost sub = e.subrange(i as int, e.len() as int);
                assert(sub[0] == e[i as int]);
                assert(sub.drop_first() =~= e.subrange(i + 1, e.len() as int));
                if let Some(s) = entries[i].1.as_str() {
                    return Some(string_of(s));
                }
                i = i + 1;
            }
            None
        },
        _ => None,
    }
}

/// The status, message, code and request id of a parsed error body; `None` where it holds
/// no error object.
pub fn api_error_fields(json: &JsonValue) -> (r: Option<ParsedApiError>)
    ensures
        match r {
            Some(p) => fields_of_json(json@) == Some(p@),
            None => fields_of_json(json@) is None,
        },
{
    let error_obj = match extract_error_object(json) {
        Some(e) => e,
        None => return None,
    };
    let status = match error_obj.get("status") {
        Some(v) => opt_string(v.as_str()),
        None => None,
    };
    let message = match error_obj.get("message") {
        Some(v) => opt_string(v.as_str()),
        None => None,
    };
    let mut code: Option<String> = None;
    let mut request_id: Option<String> = None;
    let ghost e = error_obj@;
    if let Some(d) = error_obj.get("details") {
        if let Some(details) = d.as_array() {
            let ghost ds = crate::json::views(details@);
            assert(details_of(e) == ds);
            assert(ds.subrange(0, ds.len() as int) =~= ds);
            let mut i: usize = 0;
            while i < details.len()
                invariant
                    ds == crate::json::views(details@),
                    i <= details.len(),
                    first_code(ds) == match code {
                        Some(c) => Some(c@),
                        None => first_code(ds.subrange(i as int, ds.len() as int)),
                    },
                    first_request_id(ds) == match request_id {
                        Some(c) => Some(c@),
                        None => first_request_id(ds.subrange(i as int, ds.len() as int)),
                    },
                decreases details.len() - i,
            {
                let ghost sub = ds.subrange(i as int, ds.len() as int);
                assert(sub[0] == ds[i as int]);
                assert(sub.drop_first() =~= ds.subrange(i + 1, ds.len() as int));
                if request_id.is_none() {
                    request_id = match details[i].get("requestId") {
                        Some(v) => opt_string(v.as_str()),
                        None => None,
                    };
                }
                if code.is_none() {
                    code = extract_error_code(&details[i]);
                }
                i = i + 1;
            }
            assert(ds.subrange(i as int, ds.len() as int) =~= Seq::<Json>::empty());
        }
    }
    assert(details_of(e).len() == 0 ==> first_code(details_of(e)) is None);
    Some(ParsedApiError { status, message, code, request_id })
}

/// The fields of a Google Ads error body; `None` where the body is not JSON or has no error
/// object.
pub fn parse_api_error(body: &str) -> (r: Option<ParsedApiError>)
    ensures
        match r {
            Some(p) => api_error_model(body@) == Some(p@),
            None => api_error_model(body@) is None,
        },
{
    match parse_json(body) {
        Ok(j) => api_error_fields(&j),
        Err(_) => None,
    }
}

/// The hint that a known error code or message calls for.
pub fn hint_for_error(code: Option<&str>, message: Option<&str>) -> (r: Option<&'static str>)
    ensures
        match r {
            Some(h) => hint_spec(
                match code {
                    Some(c) => Some(c@),
                    None => None,
                },
                match message {
                    Some(m) => Some(m@),
                    None => None,
                },
            ) == Some(h@),
            None => hint_spec(
                match code {
                    Some(c) => Some(c@),
                    None => None,
                },
                match message {
                    Some(m) => Some(m@),
                    None => None,
                },
            ) is None,
        },
{
    if let Some(c) = code {
        if str_eq(c, "INVALID_LOGIN_CUSTOMER_ID") {
            return Some(
                "Set login-customer-id to digits only (no hyphens) and ensure the MCC is accessible.",
            );
        }
        if str_eq(c, "USER_PERMISSION_DENIED") {
            return Some(
                "If this is a direct account, unset login-customer-id. If it's an MCC path, use a linked manager account.",
            );
        }
    }
    let quota = match message {
        Some(m) => contains_lowercased(m, "requires a quota project"),
        None => {
            proof {
                reveal_strlit("requires a quota project");
                let empty = lower(Seq::<char>::empty());
                assert forall|i: int| !crate::text::occurs_at(empty, "requires a quota project"@, i) by {}
            }
            false
        },
    };
    if quota {
        return Some(
            "Run `gcloud auth application-default set-quota-project <PROJECT_ID>` or set GOOGLE_CLOUD_QUOTA_PROJECT.",
        );
    }
    None
}

/// `s` trimmed, and cut to `max_len` characters with `...` appended when it is longer.
pub fn truncate(s: &str, max_len: usize) -> (r: String)
    ensures
        r@ == truncated(s@, max_len as nat),
{
    let trimmed = trim_str(s);
    let n = trimmed.as_str().unicode_len();
    if n <= max_len {
        return trimmed;
    }
    let mut out = string_of(trimmed.as_str().substring_char(0, max_len));
    push_str(&mut out, "...");
    out
}

fn push_part(s: &mut String, prefix: &str, v: &Option<String>, suffix: &str)
    ensures
        final(s)@ == old(s)@ + part(prefix@, opt_view(*v), suffix@),
{
    if let Some(x) = v {
        push_str(s, prefix);
        push_str(s, x.as_str());
        push_str(s, suffix);
        assert(final(s)@ =~= old(s)@ + part(prefix@, opt_view(*v), suffix@));
    } else {
        assert(final(s)@ =~= old(s)@ + part(prefix@, opt_view(*v), suffix@));
    }
}

fn opt_as_str(o: &Option<String>) -> (r: Option<&str>)
    ensures
        match r {
            Some(x) => opt_view(*o) == Some(x@),
            None => opt_view(*o) is None,
        },
{
    match o {
        Some(x) => Some(x.as_str()),
        None => None,
    }
}

fn summary_from_fields(status: u16, parsed: &ParsedApiError) -> (r: String)
    ensures
        r@ == summary_with(status, parsed@),
{
    let mut summary = string_of("HTTP ");
    push_decimal(&mut summary, status as u64);
    let ghost s1 = summary@;
    push_part(&mut summary, " ", &parsed.status, "");
    let ghost s2 = summary@;
    push_part(&mut summary, ": ", &parsed.message, "");
    let ghost s3 = summary@;
    push_part(&mut summary, " [code=", &parsed.code, "]");
    let ghost s4 = summary@;
    push_part(&mut summary, " [request_id=", &parsed.request_id, "]");
    let ghost s5 = summary@;
    let hint = hint_for_error(opt_as_str(&parsed.code), opt_as_str(&parsed.message));
    let hint_string: Option<String> = match hint {
        Some(h) => Some(string_of(h)),
        None => None,
    };
    assert(opt_view(hint_string) == hint_spec(parsed@.code, parsed@.message));
    push_part(&mut summary, " Hint: ", &hint_string, "");
    proof {
        reveal_strlit("");
    }
    assert(summary@ =~= summary_with(status, parsed@));
    summary
}

/// The summary of an error response, given what parsing its body as JSON gave.
pub fn summarize_parsed_error(status: u16, body: &str, parsed: Result<JsonValue, String>) -> (r: String)
    ensures
        r@ == summary_for(
            status,
            body@,
            match parsed {
                Ok(j) => Ok::<Json, Seq<char>>(j@),
                Err(m) => Err::<Json, Seq<char>>(m@),
            },
        ),
{
    let fields = match parsed {
        Ok(j) => api_error_fields(&j),
        Err(_) => None,
    };
    match fields {
        Some(p) => summary_from_fields(status, &p),
        None => {
            let mut out = string_of("HTTP ");
            push_decimal(&mut out, status as u64);
            push_str(&mut out, ": ");
            let t = truncate(body, 320);
            push_str(&mut out, t.as_str());
            out
        },
    }
}

/// The one-line summary of an error response: the HTTP status, then the API status,
/// message, error code, request id and a hint where the body gives them; the trimmed body,
/// cut to 320 characters, where it is not a Google Ads error.
pub fn summarize_api_error(status: u16, body: &str) -> (r: String)
    ensures
        r@ == summary_of(status, body@),
{
    summarize_parsed_error(status, body, parse_json(body))
}

} // verus!
