//! The requests that the command-line subcommands send: GAQL for `search` and the list
//! commands, status updates, and free-form mutations.

use vstd::prelude::*;

use crate::cli::DeliveryStatus;
use crate::error::GoogleAdsError;
use crate::json::{
    entries_get, entry_views, insert_member, json_parse, json_pretty_text, json_to_pretty_text,
    keys_sorted, lemma_get_after_insert, lemma_insert_keeps_keys_sorted, parse_json,
    sorted_insert, views, Json, JsonValue,
};
use crate::query::{fields_required, gaql_text, resource_required, GaqlQuery};
use crate::text::{
    contains, contains_str, decimal, has_prefix, push_decimal, push_str, split, split_on,
    starts_with, string_of, texts, to_upper, trim, trim_start, trim_start_str, trim_str,
    uppercase,
};

verus! {

/// The first piece of `s` before its first space, and the rest after it; the whole of `s`
/// when it has no space (`str::splitn(2, ' ')`).
pub open spec fn first_space(s: Seq<char>) -> Option<int> {
    if exists|i: int| 0 <= i < s.len() && s[i] == ' ' {
        Some(choose|i: int| 0 <= i < s.len() && s[i] == ' ' && forall|j: int| 0 <= j < i ==> s[j] != ' ')
    } else {
        None
    }
}

/// The fields of the `resource field1,field2` shorthand: the pieces after the first space,
/// split at commas and trimmed; `resource.resource_name` when there is no space.
pub open spec fn shorthand_fields(raw: Seq<char>) -> Seq<Seq<char>> {
    match first_space(raw) {
        Some(p) => split(raw.skip(p + 1), ',').map_values(|f: Seq<char>| trim(f)),
        None => seq![raw + ".resource_name"@],
    }
}

pub open spec fn shorthand_resource(raw: Seq<char>) -> Seq<char> {
    match first_space(raw) {
        Some(p) => raw.take(p),
        None => raw,
    }
}

/// The GAQL that `gads search` sends, given the upper-case forms of the query with its
/// leading white space taken off (`head_upper`) and of the whole query (`query_upper`): a
/// query that starts with `SELECT` as it is, with ` LIMIT n` appended when a limit is given
/// and the query has no `LIMIT`; else the shorthand `resource field1,field2` built into a
/// query.
pub open spec fn gaql_of_search(
    raw: Seq<char>,
    head_upper: Seq<char>,
    query_upper: Seq<char>,
    limit: Option<u32>,
) -> Seq<char> {
    if starts_with(head_upper, "SELECT"@) {
        raw + match limit {
            Some(l) => if !contains(query_upper, "LIMIT"@) {
                " LIMIT "@ + decimal(l as nat)
            } else {
                Seq::empty()
            },
            None => Seq::empty(),
        }
    } else {
        gaql_text(shorthand_fields(raw), shorthand_resource(raw), None, None, limit)
    }
}

/// The GAQL that `gads search` sends for `raw` (in any case, after leading white space, a
/// query starting with `SELECT` is taken as GAQL).
pub open spec fn search_gaql_spec(raw: Seq<char>, limit: Option<u32>) -> Seq<char> {
    gaql_of_search(raw, uppercase(trim_start(raw)), uppercase(raw), limit)
}

pub open spec fn is_raw_gaql(raw: Seq<char>) -> bool {
    starts_with(uppercase(trim_start(raw)), "SELECT"@)
}

fn find_space(s: &str) -> (r: Option<usize>)
    ensures
        match r {
            Some(p) => first_space(s@) == Some(p as int) && p < s@.len() && s@[p as int] == ' ',
            None => first_space(s@) is None,
        },
{
    let n = s.unicode_len();
    let mut i: usize = 0;
    while i < n
        invariant
            n == s@.len(),
            i <= n,
            forall|j: int| 0 <= j < i ==> s@[j] != ' ',
        decreases n - i,
    {
        if s.get_char(i) == ' ' {
            proof {
                let p = choose|k: int| 0 <= k < s@.len() && s@[k] == ' ' && forall|j: int|
                    0 <= j < k ==> s@[j] != ' ';
                assert(0 <= i < s@.len() && s@[i as int] == ' ' && forall|j: int|
                    0 <= j < i ==> s@[j] != ' ');
                if p < i {
                } else if p > i {
                }
                assert(p == i);
            }
            return Some(i);
        }
        i = i + 1;
    }
    None
}

fn raw_gaql(raw_query: &str, query_upper: &str, limit: Option<u32>) -> (r: String)
    ensures
        r@ == raw_query@ + match limit {
            Some(l) => if !contains(query_upper@, "LIMIT"@) {
                " LIMIT "@ + decimal(l as nat)
            } else {
                Seq::empty()
            },
            None => Seq::empty(),
        },
{
    let mut q = string_of(raw_query);
    if let Some(l) = limit {
        if !contains_str(query_upper, "LIMIT") {
            push_str(&mut q, " LIMIT ");
            push_decimal(&mut q, l as u64);
        }
    }
    assert(limit is None ==> q@ =~= raw_query@ + Seq::empty());
    q
}

fn shorthand_parts(raw_query: &str) -> (r: (String, Vec<String>))
    ensures
        r.0@ == shorthand_resource(raw_query@),
        texts(r.1@) == shorthand_fields(raw_query@),
{
    let n = raw_query.unicode_len();
    match find_space(raw_query) {
        Some(p) => {
            let rest = raw_query.substring_char(p + 1, n);
            assert(rest@ =~= raw_query@.skip(p + 1));
            let pieces = split_on(rest, ',');
            let mut fields: Vec<String> = Vec::new();
            let mut i: usize = 0;
            while i < pieces.len()
                invariant
                    i <= pieces.len(),
                    fields.len() == i,
                    forall|k: int| 0 <= k < i ==> #[trigger] fields@[k]@ == trim(pieces@[k]@),
                decreases pieces.len() - i,
            {
                let t = trim_str(pieces[i].as_str());
                fields.push(t);
                i = i + 1;
            }
            assert(texts(fields@) =~= texts(pieces@).map_values(|f: Seq<char>| trim(f)));
            let head = raw_query.substring_char(0, p);
            assert(head@ =~= raw_query@.take(p as int));
            (string_of(head), fields)
        },
        None => {
            let mut f = string_of(raw_query);
            push_str(&mut f, ".resource_name");
            let mut fields: Vec<String> = Vec::new();
            fields.push(f);
            assert(texts(fields@) =~= seq![raw_query@ + ".resource_name"@]);
            (string_of(raw_query), fields)
        },
    }
}

/// The query text of `gads search`, given the upper-case forms of the query without its
/// leading white space and of the whole query; the shorthand fails as building any query
/// does.
pub fn build_search_gaql(raw_query: &str, head_upper: &str, query_upper: &str, limit: Option<u32>) -> (r:
    Result<String, GoogleAdsError>)
    ensures
        match r {
            Ok(q) => (starts_with(head_upper@, "SELECT"@) || (shorthand_fields(raw_query@).len() > 0
                && shorthand_resource(raw_query@).len() > 0)) && q@ == gaql_of_search(
                raw_query@,
                head_upper@,
                query_upper@,
                limit,
            ),
            Err(e) => !starts_with(head_upper@, "SELECT"@) && if shorthand_fields(raw_query@).len()
                == 0 {
                e matches GoogleAdsError::QueryBuild(m) && m@ == fields_required()
            } else {
                shorthand_resource(raw_query@).len() == 0 && (
                e matches GoogleAdsError::QueryBuild(m) && m@ == resource_required())
            },
        },
{
    if has_prefix(head_upper, "SELECT") {
        return Ok(raw_gaql(raw_query, query_upper, limit));
    }
    let (resource, fields) = shorthand_parts(raw_query);
    let query = GaqlQuery {
        fields: fields.as_slice(),
        resource: resource.as_str(),
        conditions: None,
        orderings: None,
        limit,
    };
    query.build()
}

/// The query text of `gads search`: the query as GAQL when it starts with `SELECT` in any
/// case, else the shorthand `resource field1,field2` built into a query.
pub fn search_gaql(raw_query: &str, limit: Option<u32>) -> (r: Result<String, GoogleAdsError>)
    ensures
        match r {
            Ok(q) => (is_raw_gaql(raw_query@) || (shorthand_fields(raw_query@).len() > 0
                && shorthand_resource(raw_query@).len() > 0)) && q@ == search_gaql_spec(
                raw_query@,
                limit,
            ),
            Err(e) => !is_raw_gaql(raw_query@) && if shorthand_fields(raw_query@).len() == 0 {
                e matches GoogleAdsError::QueryBuild(m) && m@ == fields_required()
            } else {
                shorthand_resource(raw_query@).len() == 0 && (
                e matches GoogleAdsError::QueryBuild(m) && m@ == resource_required())
            },
        },
{
    let head = trim_start_str(raw_query);
    let head_upper = to_upper(head.as_str());
    let query_upper = to_upper(raw_query);
    build_search_gaql(raw_query, head_upper.as_str(), query_upper.as_str(), limit)
}

pub open spec fn campaigns_gaql(limit: u32) -> Seq<char> {
    "SELECT campaign.id, campaign.name, campaign.status, campaign.advertising_channel_type, campaign.start_date, campaign.end_date FROM campaign WHERE campaign.status != 'REMOVED' ORDER BY campaign.id DESC LIMIT "@
        + decimal(limit as nat)
}

pub open spec fn ad_groups_gaql(limit: u32) -> Seq<char> {
    "SELECT campaign.id, campaign.name, ad_group.id, ad_group.name, ad_group.status, ad_group.type FROM ad_group WHERE ad_group.status != 'REMOVED' ORDER BY ad_group.id DESC LIMIT "@
        + decimal(limit as nat)
}

pub open spec fn ads_gaql(limit: u32) -> Seq<char> {
    "SELECT campaign.id, campaign.name, ad_group.id, ad_group.name, ad_group_ad.ad.id, ad_group_ad.status, ad_group_ad.ad.type FROM ad_group_ad WHERE ad_group_ad.status != 'REMOVED' ORDER BY ad_group_ad.ad.id DESC LIMIT "@
        + decimal(limit as nat)
}

pub open spec fn creatives_gaql(limit: u32) -> Seq<char> {
    "SELECT campaign.id, campaign.name, ad_group.id, ad_group.name, ad_group_ad.ad.id, ad_group_ad.ad.type, ad_group_ad.status, ad_group_ad.ad.final_urls, ad_group_ad.ad.responsive_search_ad.path1, ad_group_ad.ad.responsive_search_ad.path2, ad_group_ad.ad.responsive_search_ad.headlines, ad_group_ad.ad.responsive_search_ad.descriptions FROM ad_group_ad WHERE ad_group_ad.status != 'REMOVED' ORDER BY ad_group_ad.ad.id DESC LIMIT "@
        + decimal(limit as nat)
}

fn with_limit(head: &str, limit: u32) -> (r: String)
    ensures
        r@ == head@ + decimal(limit as nat),
{
    let mut q = string_of(head);
    push_decimal(&mut q, limit as u64);
    q
}

/// The query of `gads campaign list`: campaigns that are not removed, newest ID first.
pub fn campaigns_query(limit: u32) -> (r: String)
    ensures
        r@ == campaigns_gaql(limit),
{
    with_limit(
        "SELECT campaign.id, campaign.name, campaign.status, campaign.advertising_channel_type, campaign.start_date, campaign.end_date FROM campaign WHERE campaign.status != 'REMOVED' ORDER BY campaign.id DESC LIMIT ",
        limit,
    )
}

/// The query of `gads adgroup list`.
pub fn ad_groups_query(limit: u32) -> (r: String)
    ensures
        r@ == ad_groups_gaql(limit),
{
    with_limit(
        "SELECT campaign.id, campaign.name, ad_group.id, ad_group.name, ad_group.status, ad_group.type FROM ad_group WHERE ad_group.status != 'REMOVED' ORDER BY ad_group.id DESC LIMIT ",
        limit,
    )
}

/// The query of `gads ad list`.
pub fn ads_query(limit: u32) -> (r: String)
    ensures
        r@ == ads_gaql(limit),
{
    with_limit(
        "SELECT campaign.id, campaign.name, ad_group.id, ad_group.name, ad_group_ad.ad.id, ad_group_ad.status, ad_group_ad.ad.type FROM ad_group_ad WHERE ad_group_ad.status != 'REMOVED' ORDER BY ad_group_ad.ad.id DESC LIMIT ",
        limit,
    )
}

/// The query of `gads creatives`: ads with their URLs, paths, headlines and descriptions.
pub fn creatives_query(limit: u32) -> (r: String)
    ensures
        r@ == creatives_gaql(limit),
{
    with_limit(
        "SELECT campaign.id, campaign.name, ad_group.id, ad_group.name, ad_group_ad.ad.id, ad_group_ad.ad.type, ad_group_ad.status, ad_group_ad.ad.final_urls, ad_group_ad.ad.responsive_search_ad.path1, ad_group_ad.ad.responsive_search_ad.path2, ad_group_ad.ad.responsive_search_ad.headlines, ad_group_ad.ad.responsive_search_ad.descriptions FROM ad_group_ad WHERE ad_group_ad.status != 'REMOVED' ORDER BY ad_group_ad.ad.id DESC LIMIT ",
        limit,
    )
}

pub open spec fn customer_gaql() -> Seq<char> {
    "SELECT customer.id, customer.descriptive_name, customer.manager FROM customer LIMIT 1"@
}

/// The query that reads a customer's ID, name and manager flag.
pub fn customer_query() -> (r: &'static str)
    ensures
        r@ == customer_gaql(),
{
    "SELECT customer.id, customer.descriptive_name, customer.manager FROM customer LIMIT 1"
}

pub open spec fn probe_gaql() -> Seq<char> {
    "SELECT customer.id FROM customer LIMIT 1"@
}

/// The query the doctor runs to check that searching works.
pub fn probe_query() -> (r: &'static str)
    ensures
        r@ == probe_gaql(),
{
    "SELECT customer.id FROM customer LIMIT 1"
}

/// The resource name of a campaign: `customers/{customer}/campaigns/{campaign}`.
pub open spec fn campaign_resource(customer_id: Seq<char>, campaign_id: Seq<char>) -> Seq<char> {
    "customers/"@ + customer_id + "/campaigns/"@ + campaign_id
}

/// The resource name of an ad group: `customers/{customer}/adGroups/{ad_group}`.
pub open spec fn ad_group_resource(customer_id: Seq<char>, ad_group_id: Seq<char>) -> Seq<char> {
    "customers/"@ + customer_id + "/adGroups/"@ + ad_group_id
}

/// The resource name of an ad in its ad group:
/// `customers/{customer}/adGroupAds/{ad_group}~{ad}`.
pub open spec fn ad_resource(customer_id: Seq<char>, ad_group_id: Seq<char>, ad_id: Seq<char>) -> Seq<char> {
    "customers/"@ + customer_id + "/adGroupAds/"@ + ad_group_id + "~"@ + ad_id
}

/// The mutate request that sets the status of one resource:
/// `{"operations":[{"update":{"resourceName":..,"status":..},"updateMask":"status"}],"validateOnly":..}`,
/// members in the sorted order in which `serde_json` keeps them.
pub open spec fn status_payload(resource_name: Seq<char>, status: Seq<char>, validate_only: bool) -> Json {
    Json::Obj(
        seq![
            ("operations"@, Json::Arr(seq![Json::Obj(seq![
                ("update"@, Json::Obj(seq![
                    ("resourceName"@, Json::Str(resource_name)),
                    ("status"@, Json::Str(status)),
                ])),
                ("updateMask"@, Json::Str("status"@)),
            ])])),
            ("validateOnly"@, Json::Bool(validate_only)),
        ],
    )
}

fn object(entries: Vec<(String, JsonValue)>) -> (r: JsonValue)
    ensures
        r@ == Json::Obj(entry_views(entries@)),
{
    let r = JsonValue::Object(entries);
    proof {
        r.lemma_view_object();
    }
    r
}

fn member(key: &str, value: JsonValue) -> (r: (String, JsonValue))
    ensures
        r.0@ == key@,
        r.1@ == value@,
{
    (string_of(key), value)
}

fn text_value(s: &str) -> (r: JsonValue)
    ensures
        r@ == Json::Str(s@),
{
    JsonValue::String(string_of(s))
}

/// The body of a status update for `resource_name` (`gads campaign|adgroup|ad
/// pause|enable`).
pub fn status_update_payload(resource_name: &str, status: DeliveryStatus, validate_only: bool) -> (r: JsonValue)
    ensures
        r@ == status_payload(resource_name@, status.api_name(), validate_only),
{
    let mut update: Vec<(String, JsonValue)> = Vec::new();
    update.push(member("resourceName", text_value(resource_name)));
    update.push(member("status", text_value(status.as_api_status())));
    let update = object(update);
    let ghost update_model = update@;
    let mut operation: Vec<(String, JsonValue)> = Vec::new();
    operation.push(member("update", update));
    operation.push(member("updateMask", text_value("status")));
    let operation = object(operation);
    let ghost operation_model = operation@;
    let mut operations: Vec<JsonValue> = Vec::new();
    operations.push(operation);
    let operations = JsonValue::Array(operations);
    proof {
        operations.lemma_view_array();
        assert(views(operations->Array_0@) =~= seq![operation_model]);
    }
    let mut top: Vec<(String, JsonValue)> = Vec::new();
    top.push(member("operations", operations));
    top.push(member("validateOnly", JsonValue::Bool(validate_only)));
    let r = object(top);
    proof {
        assert(update_model->Obj_0 =~= seq![
            ("resourceName"@, Json::Str(resource_name@)),
            ("status"@, Json::Str(status.api_name())),
        ]);
        assert(operation_model->Obj_0 =~= seq![
            ("update"@, update_model),
            ("updateMask"@, Json::Str("status"@)),
        ]);
        assert(r@->Obj_0 =~= status_payload(resource_name@, status.api_name(), validate_only)->Obj_0);
    }
    r
}

/// The resource name of campaign `campaign_id` of customer `customer_id`.
pub fn campaign_resource_name(customer_id: &str, campaign_id: &str) -> (r: String)
    ensures
        r@ == campaign_resource(customer_id@, campaign_id@),
{
    let mut r = string_of("customers/");
    push_str(&mut r, customer_id);
    push_str(&mut r, "/campaigns/");
    push_str(&mut r, campaign_id);
    r
}

/// The resource name of ad group `ad_group_id` of customer `customer_id`.
pub fn ad_group_resource_name(customer_id: &str, ad_group_id: &str) -> (r: String)
    ensures
        r@ == ad_group_resource(customer_id@, ad_group_id@),
{
    let mut r = string_of("customers/");
    push_str(&mut r, customer_id);
    push_str(&mut r, "/adGroups/");
    push_str(&mut r, ad_group_id);
    r
}

/// The resource name of ad `ad_id` in ad group `ad_group_id` of customer `customer_id`.
pub fn ad_resource_name(customer_id: &str, ad_group_id: &str, ad_id: &str) -> (r: String)
    ensures
        r@ == ad_resource(customer_id@, ad_group_id@, ad_id@),
{
    let mut r = string_of("customers/");
    push_str(&mut r, customer_id);
    push_str(&mut r, "/adGroupAds/");
    push_str(&mut r, ad_group_id);
    push_str(&mut r, "~");
    push_str(&mut r, ad_id);
    r
}

/// Where the body of `gads mutate` comes from.
pub enum MutateBodySource {
    /// The text given with `--body`.
    Inline(String),
    /// The path given with `--body-file`.
    File(String),
}

pub open spec fn body_source_required() -> Seq<char> {
    "either --body or --body-file must be provided (and not both)"@
}

/// Exactly one of `--body` and `--body-file` must be given.
pub fn mutate_body_source(body: Option<String>, body_file: Option<String>) -> (r: Result<MutateBodySource, String>)
    ensures
        match (body, body_file) {
            (Some(b), None) => r matches Ok(MutateBodySource::Inline(t)) && t@ == b@,
            (None, Some(f)) => r matches Ok(MutateBodySource::File(p)) && p@ == f@,
            _ => r matches Err(m) && m@ == body_source_required(),
        },
{
    match (body, body_file) {
        (Some(b), None) => Ok(MutateBodySource::Inline(b)),
        (None, Some(f)) => Ok(MutateBodySource::File(f)),
        _ => Err(string_of("either --body or --body-file must be provided (and not both)")),
    }
}

pub open spec fn invalid_body_prefix() -> Seq<char> {
    "invalid JSON mutate body: "@
}

pub open spec fn body_not_object() -> Seq<char> {
    "mutate body must be a JSON object"@
}

/// What `gads mutate` makes of the parse of its body: the document when it is an object;
/// `invalid JSON mutate body: <parser message>` when it did not parse; `mutate body must be
/// a JSON object` for any other document.
pub fn check_mutate_payload(parsed: Result<JsonValue, String>) -> (r: Result<JsonValue, String>)
    ensures
        match parsed {
            Ok(v) => if v@.is_object() {
                r matches Ok(w) && w@ == v@
            } else {
                r matches Err(m) && m@ == body_not_object()
            },
            Err(e) => r matches Err(m) && m@ == invalid_body_prefix() + e@,
        },
{
    match parsed {
        Ok(v) => {
            if v.is_object() {
                Ok(v)
            } else {
                Err(string_of("mutate body must be a JSON object"))
            }
        },
        Err(e) => {
            let mut m = string_of("invalid JSON mutate body: ");
            push_str(&mut m, e.as_str());
            Err(m)
        },
    }
}

/// Parses the body of `gads mutate`, which must be a JSON object.
pub fn parse_mutate_payload(raw: &str) -> (r: Result<JsonValue, String>)
    ensures
        match json_parse(raw@) {
            Ok(v) => if v.is_object() {
                r matches Ok(w) && w@ == v
            } else {
                r matches Err(m) && m@ == body_not_object()
            },
            Err(e) => r matches Err(m) && m@ == invalid_body_prefix() + e,
        },
{
    check_mutate_payload(parse_json(raw))
}

/// The members of a mutate body after `--validate-only` and `--partial-failure`: each set
/// flag adds (or overwrites) its member with `true`.
pub open spec fn with_mutate_flags(
    e: Seq<(Seq<char>, Json)>,
    validate_only: bool,
    partial_failure: bool,
) -> Seq<(Seq<char>, Json)> {
    let e1 = if validate_only {
        sorted_insert(e, "validateOnly"@, Json::Bool(true))
    } else {
        e
    };
    if partial_failure {
        sorted_insert(e1, "partialFailure"@, Json::Bool(true))
    } else {
        e1
    }
}

/// After the flags are applied, `validateOnly` reads `true` where `--validate-only` was
/// given and `partialFailure` reads `true` where `--partial-failure` was given; every other
/// member reads as it did in the body, and a body in key order stays in key order.
pub proof fn lemma_mutate_flags(
    e: Seq<(Seq<char>, Json)>,
    validate_only: bool,
    partial_failure: bool,
    k: Seq<char>,
)
    ensures
        entries_get(with_mutate_flags(e, validate_only, partial_failure), k) == if partial_failure
            && k == "partialFailure"@ {
            Some(Json::Bool(true))
        } else if validate_only && k == "validateOnly"@ {
            Some(Json::Bool(true))
        } else {
            entries_get(e, k)
        },
        keys_sorted(e) ==> keys_sorted(with_mutate_flags(e, validate_only, partial_failure)),
{
    reveal_strlit("partialFailure");
    reveal_strlit("validateOnly");
    assert("partialFailure"@[0] != "validateOnly"@[0]);
    let e1 = if validate_only {
        sorted_insert(e, "validateOnly"@, Json::Bool(true))
    } else {
        e
    };
    if validate_only {
        lemma_get_after_insert(e, "validateOnly"@, Json::Bool(true), k);
        if keys_sorted(e) {
            lemma_insert_keeps_keys_sorted(e, "validateOnly"@, Json::Bool(true));
        }
    }
    if partial_failure {
        lemma_get_after_insert(e1, "partialFailure"@, Json::Bool(true), k);
        if keys_sorted(e1) {
            lemma_insert_keeps_keys_sorted(e1, "partialFailure"@, Json::Bool(true));
        }
    }
}

/// Sets the `validateOnly` and `partialFailure` members that the flags ask for; a body that
/// is not an object is refused.
pub fn apply_mutate_flags(payload: JsonValue, validate_only: bool, partial_failure: bool) -> (r: Result<JsonValue, String>)
    ensures
        match payload@ {
            Json::Obj(e) => r matches Ok(v) && v@ == Json::Obj(with_mutate_flags(e, validate_only, partial_failure)),
            _ => r matches Err(m) && m@ == body_not_object(),
        },
{
    proof {
        if payload is Object {
            payload.lemma_view_object();
        }
    }
    let mut entries = match payload {
        JsonValue::Object(entries) => entries,
        _ => return Err(string_of("mutate body must be a JSON object")),
    };
    if validate_only {
        insert_member(&mut entries, string_of("validateOnly"), JsonValue::Bool(true));
    }
    if partial_failure {
        insert_member(&mut entries, string_of("partialFailure"), JsonValue::Bool(true));
    }
    Ok(object(entries))
}

/// What a query command prints: the rows as an indented JSON array (`[]` when there are
/// none), ready to be piped to `jq`.
pub fn query_output(rows: Vec<JsonValue>) -> (r: String)
    ensures
        r@ == json_pretty_text(Json::Arr(views(rows@))),
{
    let arr = JsonValue::Array(rows);
    proof {
        arr.lemma_view_array();
    }
    json_to_pretty_text(&arr)
}

/// What a mutate command prints: the response as indented JSON.
pub fn mutate_output(response: &JsonValue) -> (r: String)
    ensures
        r@ == json_pretty_text(response@),
{
    json_to_pretty_text(response)
}

/// What `gads use <CUSTOMER_ID>` prints once the ID is saved at `path`.
pub fn saved_customer_message(customer_id: &str, path: &str) -> (r: String)
    ensures
        r@ == "Saved default customer ID: "@ + customer_id@ + " ("@ + path@ + ")"@,
{
    let mut r = string_of("Saved default customer ID: ");
    push_str(&mut r, customer_id);
    push_str(&mut r, " (");
    push_str(&mut r, path);
    push_str(&mut r, ")");
    r
}

pub open spec fn no_default_customer() -> Seq<char> {
    "No default customer ID. Run `gads use <CUSTOMER_ID>` first."@
}

/// What `gads use` prints without an argument: the saved default customer ID, or how to set one.
pub fn current_customer_message(saved: Option<&str>) -> (r: String)
    ensures
        r@ == match saved {
            Some(id) => id@,
            None => no_default_customer(),
        },
{
    match saved {
        Some(id) => string_of(id),
        None => string_of("No default customer ID. Run `gads use <CUSTOMER_ID>` first."),
    }
}

} // verus!
