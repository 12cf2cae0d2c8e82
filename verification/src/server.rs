//! The logic of the MCP tools: the `search` tool's description, its query, and the text
//! of its answer and of `list_accessible_customers`.

use vstd::prelude::*;

use crate::error::GoogleAdsError;
use crate::format::{all_rows, flatten_search_response, format_rows_as_text, rows_text};
use crate::ids::{normalize_customer_id, valid_customer_id};
use crate::json::{views, Json, JsonValue};
use crate::query::{fields_required, gaql_text, resource_required, GaqlQuery};
use crate::text::{join, push_joined, push_str, string_of, texts, trim};

verus! {

/// The arguments of the `search` tool.
#[derive(Debug)]
pub struct SearchParams {
    /// The customer ID (numbers only, no hyphens). Example: "1234567890"
    pub customer_id: String,
    /// The fields to fetch. Must be fully qualified field names from the resources table.
    pub fields: Vec<String>,
    /// The resource to query. Example: `campaign`, `ad_group`, `ad_group_ad`
    pub resource: String,
    /// Conditions to filter data, combined using AND clauses.
    pub conditions: Option<Vec<String>>,
    /// Ordering specification. Example: `metrics.clicks DESC`
    pub orderings: Option<Vec<String>>,
    /// Maximum number of rows to return.
    pub limit: Option<u32>,
}

pub open spec fn opt_vec_texts(s: Option<Vec<String>>) -> Option<Seq<Seq<char>>> {
    match s {
        Some(x) => Some(texts(x@)),
        None => None,
    }
}

impl SearchParams {
    /// The GAQL text that the arguments describe.
    pub open spec fn gaql(&self) -> Seq<char> {
        gaql_text(
            texts(self.fields@),
            self.resource@,
            opt_vec_texts(self.conditions),
            opt_vec_texts(self.orderings),
            self.limit,
        )
    }
}

/// The GAQL query and the customer ID of a `search` call: the query is built first, then
/// the customer ID is checked.
pub fn prepare_search(params: &SearchParams) -> (r: Result<(String, String), GoogleAdsError>)
    ensures
        match r {
            Ok((q, id)) => params.fields@.len() > 0 && params.resource@.len() > 0
                && valid_customer_id(params.customer_id@) && q@ == params.gaql() && id@ == trim(
                params.customer_id@,
            ),
            Err(e) => if params.fields@.len() == 0 {
                e matches GoogleAdsError::QueryBuild(m) && m@ == fields_required()
            } else if params.resource@.len() == 0 {
                e matches GoogleAdsError::QueryBuild(m) && m@ == resource_required()
            } else {
                !valid_customer_id(params.customer_id@) && (
                e matches GoogleAdsError::InvalidCustomerId { field, value } && field@
                    == "customer_id"@ && value@ == params.customer_id@)
            },
        },
{
    let conditions: Option<&[String]> = match &params.conditions {
        Some(c) => Some(c.as_slice()),
        None => None,
    };
    let orderings: Option<&[String]> = match &params.orderings {
        Some(o) => Some(o.as_slice()),
        None => None,
    };
    let query = GaqlQuery {
        fields: params.fields.as_slice(),
        resource: params.resource.as_str(),
        conditions,
        orderings,
        limit: params.limit,
    };
    let gaql = match query.build() {
        Ok(q) => q,
        Err(e) => return Err(e),
    };
    let customer_id = match normalize_customer_id(params.customer_id.as_str(), "customer_id") {
        Ok(id) => id,
        Err(e) => return Err(e),
    };
    Ok((gaql, customer_id))
}

/// The text that the `search` tool answers with for a `searchStream` response.
pub fn search_result_text(response: &JsonValue) -> (r: Result<String, GoogleAdsError>)
    ensures
        match r {
            Ok(t) => response@.as_array() matches Some(bs) && t@ == rows_text(all_rows(bs)),
            Err(e) => response@.as_array() is None && e is InvalidResponse,
        },
{
    let rows = match flatten_search_response(response) {
        Ok(rows) => rows,
        Err(e) => return Err(e),
    };
    Ok(format_rows_as_text(rows.as_slice()))
}

pub open spec fn no_customers() -> Seq<char> {
    "No accessible customers found."@
}

/// The text that `list_accessible_customers` answers with: one customer ID per line.
pub fn accessible_customers_text(ids: &[String]) -> (r: String)
    ensures
        r@ == if ids@.len() == 0 {
            no_customers()
        } else {
            join(texts(ids@), "\n"@)
        },
{
    if ids.len() == 0 {
        return string_of("No accessible customers found.");
    }
    let mut out = String::new();
    push_joined(&mut out, ids, "\n");
    assert(out@ =~= join(texts(ids@), "\n"@));
    out
}

pub open spec fn instructions() -> Seq<char> {
    "Google Ads MCP Server. Query Google Ads data using GAQL and list accessible customer accounts."@
}

/// The instructions that the server announces to its clients.
pub fn server_instructions() -> (r: String)
    ensures
        r@ == instructions(),
{
    string_of("Google Ads MCP Server. Query Google Ads data using GAQL and list accessible customer accounts.")
}

pub open spec fn search_description_head() -> Seq<char> {
    "Fetches data from the Google Ads API using GAQL (Google Ads Query Language).

### Hints
- Language Grammar: https://developers.google.com/google-ads/api/docs/query/grammar
- All resources and descriptions: https://developers.google.com/google-ads/api/fields/v21/overview
- For Conversion issues try looking in offline_conversion_upload_conversion_action_summary

### Hint for customer_id
- Should be a string of numbers without punctuation
- If presented as 123-456-7890, remove hyphens and use 1234567890

### Hints for Dates
- All dates must be in YYYY-MM-DD format with dashes
- Date literals from the Grammar must NEVER be used
- Date ranges must be finite with start and end dates

### Hints for limits
- Requests to resource change_event must specify a LIMIT <= 10000

### Hints for conversions questions
- https://developers.google.com/google-ads/api/docs/conversions/upload-summaries

### Available fields
What follows is a table of resources and their selectable fields (fields), filterable fields (used in the condition) and sortable fields (use in the ordering).
Fields are comma separated, the whole field must be used, wildcards and partial fields are not allowed.
All fields must come from this table and be prefixed with the resource being searched.
"@
}

/// The description of the `search` tool: usage hints followed by the table of GAQL
/// resources and their fields.
pub fn search_description(resources: &str) -> (r: String)
    ensures
        r@ == search_description_head() + resources@,
{
    let mut out = string_of(
        "Fetches data from the Google Ads API using GAQL (Google Ads Query Language).

### Hints
- Language Grammar: https://developers.google.com/google-ads/api/docs/query/grammar
- All resources and descriptions: https://developers.google.com/google-ads/api/fields/v21/overview
- For Conversion issues try looking in offline_conversion_upload_conversion_action_summary

### Hint for customer_id
- Should be a string of numbers without punctuation
- If presented as 123-456-7890, remove hyphens and use 1234567890

### Hints for Dates
- All dates must be in YYYY-MM-DD format with dashes
- Date literals from the Grammar must NEVER be used
- Date ranges must be finite with start and end dates

### Hints for limits
- Requests to resource change_event must specify a LIMIT <= 10000

### Hints for conversions questions
- https://developers.google.com/google-ads/api/docs/conversions/upload-summaries

### Available fields
What follows is a table of resources and their selectable fields (fields), filterable fields (used in the condition) and sortable fields (use in the ordering).
Fields are comma separated, the whole field must be used, wildcards and partial fields are not allowed.
All fields must come from this table and be prefixed with the resource being searched.
",
    );
    push_str(&mut out, resources);
    out
}

} // verus!
