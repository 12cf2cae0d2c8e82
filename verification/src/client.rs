//! What a Google Ads API request is made of: credentials and headers taken from the
//! environment and the profile, request URLs, and the reading of replies.

use vstd::prelude::*;

use crate::error::{opt_view, GoogleAdsError};
use crate::ids::{normalize_customer_id, valid_customer_id};
use crate::json::{entry_views, json_parse, parse_json, views, Json, JsonValue};
use crate::profile::opt_str_view;
use crate::text::{is_alnum, is_alpha, push_str, string_of, trim, trim_str};

verus! {

pub open spec fn api_base() -> Seq<char> {
    "https://googleads.googleapis.com/v21"@
}

/// A mutate service name: a letter followed by letters and digits.
pub open spec fn valid_service(t: Seq<char>) -> bool {
    t.len() > 0 && is_alpha(t[0]) && forall|i: int| 1 <= i < t.len() ==> #[trigger] is_alnum(t[i])
}

pub fn is_service_name(t: &str) -> (r: bool)
    ensures
        r == valid_service(t@),
{
    let n = t.unicode_len();
    if n == 0 {
        return false;
    }
    let c0 = t.get_char(0);
    if !(('a' <= c0 && c0 <= 'z') || ('A' <= c0 && c0 <= 'Z')) {
        return false;
    }
    let mut i: usize = 1;
    while i < n
        invariant
            n == t@.len(),
            1 <= i <= n,
            forall|j: int| 1 <= j < i ==> #[trigger] is_alnum(t@[j]),
        decreases n - i,
    {
        let c = t.get_char(i);
        if !(('a' <= c && c <= 'z') || ('A' <= c && c <= 'Z') || ('0' <= c && c <= '9')) {
            assert(!is_alnum(t@[i as int]));
            return false;
        }
        i = i + 1;
    }
    true
}

pub open spec fn empty_service_message() -> Seq<char> {
    "mutate service must not be empty"@
}

pub open spec fn bad_service_message(t: Seq<char>) -> Seq<char> {
    "invalid mutate service '"@ + t
        + "' (expected something like campaigns, adGroups, adGroupAds)"@
}

/// The trimmed mutate service name; an `InvalidArgument` error when it is empty or not a
/// letter followed by letters and digits.
pub fn normalize_mutate_service(service: &str) -> (r: Result<String, GoogleAdsError>)
    ensures
        match r {
            Ok(s) => valid_service(trim(service@)) && s@ == trim(service@),
            Err(e) => !valid_service(trim(service@)) && (e matches GoogleAdsError::InvalidArgument(m)
                && m@ == if trim(service@).len() == 0 {
                empty_service_message()
            } else {
                bad_service_message(trim(service@))
            }),
        },
{
    let trimmed = trim_str(service);
    if trimmed.as_str().unicode_len() == 0 {
        return Err(GoogleAdsError::InvalidArgument(string_of("mutate service must not be empty")));
    }
    if !is_service_name(trimmed.as_str()) {
        let mut m = string_of("invalid mutate service '");
        push_str(&mut m, trimmed.as_str());
        push_str(&mut m, "' (expected something like campaigns, adGroups, adGroupAds)");
        return Err(GoogleAdsError::InvalidArgument(m));
    }
    Ok(trimmed)
}

pub open spec fn missing_token_message() -> Seq<char> {
    "GOOGLE_ADS_DEVELOPER_TOKEN (or set via `gads config set developer-token <TOKEN>`)"@
}

/// The developer token chosen from the environment value and the saved one.
pub open spec fn developer_token_spec(env: Option<Seq<char>>, saved: Option<Seq<char>>) -> Option<
    Seq<char>,
> {
    if env is Some && trim(env->0).len() > 0 {
        Some(trim(env->0))
    } else {
        saved
    }
}

/// The login customer ID chosen from the environment value and the saved one; `Err` where
/// the chosen value is not a valid customer ID.
pub open spec fn login_spec(env: Option<Seq<char>>, saved: Option<Seq<char>>) -> Result<
    Option<Seq<char>>,
    (),
> {
    if env is Some && trim(env->0).len() > 0 {
        if valid_customer_id(env->0) {
            Ok(Some(trim(env->0)))
        } else {
            Err(())
        }
    } else {
        match saved {
            Some(id) => if valid_customer_id(id) {
                Ok(Some(trim(id)))
            } else {
                Err(())
            },
            None => Ok(None),
        }
    }
}

/// The developer token: `GOOGLE_ADS_DEVELOPER_TOKEN` trimmed when it is not blank, else the
/// token saved in the profile, else a `MissingEnvVar` error.
pub fn resolve_developer_token(env_value: Option<&str>, saved: Option<String>) -> (r: Result<
    String,
    GoogleAdsError,
>)
    ensures
        match r {
            Ok(t) => developer_token_spec(opt_str_view(env_value), opt_view(saved)) == Some(t@),
            Err(_) => developer_token_spec(opt_str_view(env_value), opt_view(saved)) is None,
        },
        match r {
            Ok(t) => if env_value is Some && trim(env_value->0@).len() > 0 {
                t@ == trim(env_value->0@)
            } else {
                saved is Some && t@ == saved->0@
            },
            Err(e) => !(env_value is Some && trim(env_value->0@).len() > 0) && saved is None && (
            e matches GoogleAdsError::MissingEnvVar(m) && m@ == missing_token_message()),
        },
{
    if let Some(value) = env_value {
        let trimmed = trim_str(value);
        if trimmed.as_str().unicode_len() > 0 {
            return Ok(trimmed);
        }
    }
    if let Some(token) = saved {
        return Ok(token);
    }
    Err(
        GoogleAdsError::MissingEnvVar(
            string_of(
                "GOOGLE_ADS_DEVELOPER_TOKEN (or set via `gads config set developer-token <TOKEN>`)",
            ),
        ),
    )
}

/// The login customer ID: `GOOGLE_ADS_LOGIN_CUSTOMER_ID` when it is not blank, else the
/// one saved in the profile, else none; the chosen value must be a valid customer ID.
pub fn resolve_login_customer_id(env_value: Option<&str>, saved: Option<String>) -> (r: Result<
    Option<String>,
    GoogleAdsError,
>)
    ensures
        match r {
            Ok(v) => login_spec(opt_str_view(env_value), opt_view(saved)) == Ok::<
                Option<Seq<char>>,
                (),
            >(opt_view(v)),
            Err(_) => login_spec(opt_str_view(env_value), opt_view(saved)) is Err,
        },
        if env_value is Some && trim(env_value->0@).len() > 0 {
            match r {
                Ok(v) => valid_customer_id(env_value->0@) && opt_view(v) == Some(
                    trim(env_value->0@),
                ),
                Err(e) => !valid_customer_id(trim(env_value->0@)) && (
                e matches GoogleAdsError::InvalidCustomerId { field, value } && field@
                    == "GOOGLE_ADS_LOGIN_CUSTOMER_ID"@ && value@ == trim(env_value->0@)),
            }
        } else {
            match saved {
                Some(id) => match r {
                    Ok(v) => valid_customer_id(id@) && opt_view(v) == Some(trim(id@)),
                    Err(e) => !valid_customer_id(id@) && (
                    e matches GoogleAdsError::InvalidCustomerId { field, value } && field@
                        == "profile:login_customer_id"@ && value@ == id@),
                },
                None => r matches Ok(v) && v is None,
            }
        },
{
    if let Some(value) = env_value {
        let trimmed = trim_str(value);
        if trimmed.as_str().unicode_len() > 0 {
            proof {
                crate::text::lemma_trim_idempotent(value@);
            }
            return match normalize_customer_id(trimmed.as_str(), "GOOGLE_ADS_LOGIN_CUSTOMER_ID") {
                Ok(id) => Ok(Some(id)),
                Err(e) => Err(e),
            };
        }
    }
    match saved {
        Some(id) => match normalize_customer_id(id.as_str(), "profile:login_customer_id") {
            Ok(v) => Ok(Some(v)),
            Err(e) => Err(e),
        },
        None => Ok(None),
    }
}

/// The `quota_project_id` of a credentials file's JSON text, trimmed, unless it is
/// missing, blank or not a string.
/// The quota project of a parsed credentials file: its `quota_project_id` string, trimmed,
/// when it is not blank.
pub open spec fn quota_of_json(j: Json) -> Option<Seq<char>> {
    match j.get("quota_project_id"@) {
        Some(Json::Str(q)) => if trim(q).len() > 0 {
            Some(trim(q))
        } else {
            None
        },
        _ => None,
    }
}

/// The quota project of a credentials file, given its text.
pub open spec fn quota_project_of(content: Seq<char>) -> Option<Seq<char>> {
    match json_parse(content) {
        Ok(j) => quota_of_json(j),
        Err(_) => None,
    }
}

/// The quota project named in a parsed credentials file.
pub fn quota_project_in(json: &JsonValue) -> (r: Option<String>)
    ensures
        opt_view(r) == quota_of_json(json@),
{
    let v = match json.get("quota_project_id") {
        Some(v) => v,
        None => return None,
    };
    match v.as_str() {
        Some(q) => {
            let t = trim_str(q);
            if t.as_str().unicode_len() == 0 {
                None
            } else {
                Some(t)
            }
        },
        None => None,
    }
}

/// The quota project named in a credentials file, given the file's text.
pub fn read_quota_project_id(content: &str) -> (r: Option<String>)
    ensures
        opt_view(r) == quota_project_of(content@),
{
    match parse_json(content) {
        Ok(j) => quota_project_in(&j),
        Err(_) => None,
    }
}

/// The first of the candidates that is present: `GOOGLE_CLOUD_QUOTA_PROJECT`, then
/// `GOOGLE_CLOUD_PROJECT` (each trimmed, when not blank), then the quota project of the file
/// named by `GOOGLE_APPLICATION_CREDENTIALS`, then that of the default credentials file.
pub open spec fn quota_project_spec(
    quota_env: Option<Seq<char>>,
    project_env: Option<Seq<char>>,
    adc_quota: Option<Seq<char>>,
    default_quota: Option<Seq<char>>,
) -> Option<Seq<char>> {
    if quota_env is Some && trim(quota_env->0).len() > 0 {
        Some(trim(quota_env->0))
    } else if project_env is Some && trim(project_env->0).len() > 0 {
        Some(trim(project_env->0))
    } else if adc_quota is Some {
        adc_quota
    } else {
        default_quota
    }
}

fn nonblank_trimmed(v: Option<&str>) -> (r: Option<String>)
    ensures
        opt_view(r) == if v is Some && trim(v->0@).len() > 0 {
            Some(trim(v->0@))
        } else {
            None
        },
{
    match v {
        Some(s) => {
            let t = trim_str(s);
            if t.as_str().unicode_len() > 0 {
                Some(t)
            } else {
                None
            }
        },
        None => None,
    }
}

/// The quota project for the `x-goog-user-project` header.
pub fn resolve_quota_project_id(
    quota_env: Option<&str>,
    project_env: Option<&str>,
    adc_quota: Option<String>,
    default_quota: Option<String>,
) -> (r: Option<String>)
    ensures
        opt_view(r) == quota_project_spec(
            opt_str_view(quota_env),
            opt_str_view(project_env),
            opt_view(adc_quota),
            opt_view(default_quota),
        ),
{
    if let Some(q) = nonblank_trimmed(quota_env) {
        return Some(q);
    }
    if let Some(q) = nonblank_trimmed(project_env) {
        return Some(q);
    }
    if adc_quota.is_some() {
        return adc_quota;
    }
    default_quota
}

/// The credentials and settings that every request carries.
#[derive(Debug)]
pub struct ClientConfig {
    pub developer_token: String,
    pub login_customer_id: Option<String>,
    pub quota_project_id: Option<String>,
}

impl ClientConfig {
    /// The settings of a client: the developer token, the login customer ID (the override
    /// where one is given, `Some(None)` turning the header off, else the environment or the
    /// profile) and the quota project.
    pub fn resolve(
        login_customer_id_override: Option<Option<String>>,
        token_env: Option<&str>,
        saved_token: Option<String>,
        login_env: Option<&str>,
        saved_login: Option<String>,
        quota_project_id: Option<String>,
    ) -> (r: Result<ClientConfig, GoogleAdsError>)
        ensures
            match r {
                Ok(c) => {
                    &&& developer_token_spec(opt_str_view(token_env), opt_view(saved_token))
                        == Some(c.developer_token@)
                    &&& match login_customer_id_override {
                        Some(v) => opt_view(c.login_customer_id) == opt_view(v),
                        None => login_spec(opt_str_view(login_env), opt_view(saved_login)) == Ok::<
                            Option<Seq<char>>,
                            (),
                        >(opt_view(c.login_customer_id)),
                    }
                    &&& opt_view(c.quota_project_id) == opt_view(quota_project_id)
                },
                Err(e) => if developer_token_spec(opt_str_view(token_env), opt_view(saved_token))
                    is None {
                    e matches GoogleAdsError::MissingEnvVar(m) && m@ == missing_token_message()
                } else {
                    login_customer_id_override is None && login_spec(
                        opt_str_view(login_env),
                        opt_view(saved_login),
                    ) is Err && e is InvalidCustomerId
                },
            },
    {
        let developer_token = match resolve_developer_token(token_env, saved_token) {
            Ok(t) => t,
            Err(e) => return Err(e),
        };
        let login_customer_id = match login_customer_id_override {
            Some(value) => value,
            None => match resolve_login_customer_id(login_env, saved_login) {
                Ok(v) => v,
                Err(e) => return Err(e),
            },
        };
        Ok(ClientConfig { developer_token, login_customer_id, quota_project_id })
    }

    /// The headers of a request: the developer token, the login customer ID where one is
    /// set and `with_login` asks for it, and the quota project where one is set.
    pub fn headers(&self, with_login: bool) -> (r: Vec<(String, String)>)
        ensures
            header_texts(r@) == header_spec(
                self.developer_token@,
                if with_login {
                    opt_view(self.login_customer_id)
                } else {
                    None
                },
                opt_view(self.quota_project_id),
            ),
    {
        let mut out: Vec<(String, String)> = Vec::new();
        out.push((string_of("developer-token"), self.developer_token.clone()));
        if with_login {
            if let Some(id) = &self.login_customer_id {
                out.push((string_of("login-customer-id"), id.clone()));
            }
        }
        if let Some(q) = &self.quota_project_id {
            out.push((string_of("x-goog-user-project"), q.clone()));
        }
        assert(header_texts(out@) =~= header_spec(
            self.developer_token@,
            if with_login {
                opt_view(self.login_customer_id)
            } else {
                None
            },
            opt_view(self.quota_project_id),
        ));
        out
    }
}

pub open spec fn header_texts(h: Seq<(String, String)>) -> Seq<(Seq<char>, Seq<char>)> {
    h.map_values(|p: (String, String)| (p.0@, p.1@))
}

/// `developer-token`, then `login-customer-id` and `x-goog-user-project` where present.
pub open spec fn header_spec(token: Seq<char>, login: Option<Seq<char>>, quota: Option<Seq<char>>) -> Seq<
    (Seq<char>, Seq<char>),
> {
    seq![("developer-token"@, token)] + match login {
        Some(l) => seq![("login-customer-id"@, l)],
        None => Seq::empty(),
    } + match quota {
        Some(q) => seq![("x-goog-user-project"@, q)],
        None => Seq::empty(),
    }
}

/// The `searchStream` URL of a customer; the customer ID must be valid.
pub fn search_stream_url(customer_id: &str) -> (r: Result<String, GoogleAdsError>)
    ensures
        match r {
            Ok(u) => valid_customer_id(customer_id@) && u@ == api_base() + "/customers/"@ + trim(
                customer_id@,
            ) + "/googleAds:searchStream"@,
            Err(e) => !valid_customer_id(customer_id@) && (
            e matches GoogleAdsError::InvalidCustomerId { field, value } && field@
                == "customer_id"@ && value@ == customer_id@),
        },
{
    let id = match normalize_customer_id(customer_id, "customer_id") {
        Ok(id) => id,
        Err(e) => return Err(e),
    };
    let mut url = string_of("https://googleads.googleapis.com/v21");
    push_str(&mut url, "/customers/");
    push_str(&mut url, id.as_str());
    push_str(&mut url, "/googleAds:searchStream");
    Ok(url)
}

/// The mutate URL of a customer and service; both must be valid.
pub fn mutate_url(customer_id: &str, service: &str) -> (r: Result<String, GoogleAdsError>)
    ensures
        match r {
            Ok(u) => valid_customer_id(customer_id@) && valid_service(trim(service@)) && u@
                == api_base() + "/customers/"@ + trim(customer_id@) + "/"@ + trim(service@)
                + ":mutate"@,
            Err(e) => if !valid_customer_id(customer_id@) {
                e matches GoogleAdsError::InvalidCustomerId { field, value } && field@
                    == "customer_id"@ && value@ == customer_id@
            } else {
                !valid_service(trim(service@)) && (e matches GoogleAdsError::InvalidArgument(m)
                    && m@ == if trim(service@).len() == 0 {
                    empty_service_message()
                } else {
                    bad_service_message(trim(service@))
                })
            },
        },
{
    let id = match normalize_customer_id(customer_id, "customer_id") {
        Ok(id) => id,
        Err(e) => return Err(e),
    };
    let service = match normalize_mutate_service(service) {
        Ok(s) => s,
        Err(e) => return Err(e),
    };
    let mut url = string_of("https://googleads.googleapis.com/v21");
    push_str(&mut url, "/customers/");
    push_str(&mut url, id.as_str());
    push_str(&mut url, "/");
    push_str(&mut url, service.as_str());
    push_str(&mut url, ":mutate");
    Ok(url)
}

/// The body of a `searchStream` request: `{"query": <query>}`.
pub fn search_request_body(query: &str) -> (r: JsonValue)
    ensures
        r@ == Json::Obj(seq![("query"@, Json::Str(query@))]),
{
    let mut members: Vec<(String, JsonValue)> = Vec::new();
    members.push((string_of("query"), JsonValue::String(string_of(query))));
    let r = JsonValue::Object(members);
    proof {
        r.lemma_view_object();
        assert(entry_views(members@) =~= seq![("query"@, Json::Str(query@))]);
    }
    r
}

/// The URL that lists the customers the caller can access.
pub fn list_accessible_customers_url() -> (r: String)
    ensures
        r@ == api_base() + "/customers:listAccessibleCustomers"@,
{
    let mut url = string_of("https://googleads.googleapis.com/v21");
    push_str(&mut url, "/customers:listAccessibleCustomers");
    url
}

/// A resource name with its `customers/` prefix taken off, when it has one.
pub open spec fn strip_customers(s: Seq<char>) -> Seq<char> {
    let p = "customers/"@;
    if s.len() >= p.len() && s.take(p.len() as int) == p {
        s.skip(p.len() as int)
    } else {
        s
    }
}

/// Customer IDs of the string entries of `resourceNames`, in order.
pub open spec fn customer_ids_of(names: Seq<Json>) -> Seq<Seq<char>>
    decreases names.len(),
{
    if names.len() == 0 {
        Seq::empty()
    } else {
        customer_ids_of(names.drop_last()) + match names.last().as_str() {
            Some(s) => seq![strip_customers(s)],
            None => Seq::empty(),
        }
    }
}

pub open spec fn missing_resource_names() -> Seq<char> {
    "missing resourceNames array"@
}

/// `s` without the prefix `prefix`, when it starts with it.
pub fn strip_prefix_or_keep(s: &str, prefix: &str) -> (r: String)
    ensures
        r@ == if s@.len() >= prefix@.len() && s@.take(prefix@.len() as int) == prefix@ {
            s@.skip(prefix@.len() as int)
        } else {
            s@
        },
{
    let n = s.unicode_len();
    let m = prefix.unicode_len();
    if m > n {
        return string_of(s);
    }
    let head = s.substring_char(0, m);
    if crate::text::str_eq(head, prefix) {
        string_of(s.substring_char(m, n))
    } else {
        string_of(s)
    }
}

/// The customer IDs of a `listAccessibleCustomers` reply: the string entries of
/// `resourceNames` with `customers/` taken off; an `InvalidResponse` error when there is no
/// `resourceNames` array.
pub fn parse_accessible_customers(json: &JsonValue) -> (r: Result<Vec<String>, GoogleAdsError>)
    ensures
        match r {
            Ok(ids) => json@.member("resourceNames"@).as_array() matches Some(names) && texts_of(
                ids@,
            ) == customer_ids_of(names),
            Err(e) => json@.member("resourceNames"@).as_array() is None && (
            e matches GoogleAdsError::InvalidResponse(m) && m@ == missing_resource_names()),
        },
{
    let names = match json.get("resourceNames") {
        Some(v) => match v.as_array() {
            Some(a) => a,
            None => {
                return Err(
                    GoogleAdsError::InvalidResponse(string_of("missing resourceNames array")),
                )
            },
        },
        None => {
            return Err(GoogleAdsError::InvalidResponse(string_of("missing resourceNames array")));
        },
    };
    let ghost ns = views(names@);
    let mut ids: Vec<String> = Vec::new();
    let mut i: usize = 0;
    assert(ns.take(0) =~= Seq::<Json>::empty());
    assert(texts_of(ids@) =~= Seq::<Seq<char>>::empty());
    while i < names.len()
        invariant
            ns == views(names@),
            i <= names.len(),
            texts_of(ids@) == customer_ids_of(ns.take(i as int)),
        decreases names.len() - i,
    {
        let ghost before = ids@;
        if let Some(s) = names[i].as_str() {
            let id = strip_prefix_or_keep(s, "customers/");
            ids.push(id);
        }
        proof {
            let t = ns.take(i + 1);
            assert(t.drop_last() =~= ns.take(i as int));
            assert(t.last() == names@[i as int]@);
            assert(texts_of(ids@) =~= customer_ids_of(t));
        }
        i = i + 1;
    }
    assert(ns.take(names.len() as int) =~= ns);
    Ok(ids)
}

pub open spec fn texts_of(s: Seq<String>) -> Seq<Seq<char>> {
    crate::text::texts(s)
}

/// The order in which requests pick their quota project: a non-blank
/// `GOOGLE_CLOUD_QUOTA_PROJECT`, then a non-blank `GOOGLE_CLOUD_PROJECT` (each trimmed), then
/// the project of the `GOOGLE_APPLICATION_CREDENTIALS` file, before that of the default
/// credentials file, which comes last.
pub proof fn lemma_quota_project_order(
    quota_env: Option<Seq<char>>,
    project_env: Option<Seq<char>>,
    adc_quota: Option<Seq<char>>,
    default_quota: Option<Seq<char>>,
)
    ensures
        quota_env is Some && trim(quota_env->0).len() > 0 ==> quota_project_spec(
            quota_env,
            project_env,
            adc_quota,
            default_quota,
        ) == Some(trim(quota_env->0)),
        !(quota_env is Some && trim(quota_env->0).len() > 0) && (project_env is Some && trim(project_env->0).len() > 0) ==> quota_project_spec(quota_env, project_env, adc_quota, default_quota) == Some(
            trim(project_env->0),
        ),
        !(quota_env is Some && trim(quota_env->0).len() > 0) && !(project_env is Some && trim(project_env->0).len() > 0) ==> quota_project_spec(quota_env, project_env, adc_quota, default_quota) == if adc_quota is Some {
            adc_quota
        } else {
            default_quota
        },
{
}

} // verus!
