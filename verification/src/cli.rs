//! The decisions of the command-line tool: argument checks, labels and markers, the
//! customer overview, the doctor's checks, and the queries and mutations it sends.

use vstd::prelude::*;
use vstd::utf8::{decode_utf8, encode_utf8};

use crate::client::{is_service_name, quota_project_spec, valid_service};
use crate::error::{invalid_id_text, opt_view, GoogleAdsError};
use crate::ids::{all_ascii_digits, normalize_customer_id, valid_customer_id};
use crate::format::{all_rows, flatten_search_response};
use crate::json::{views, Json, JsonNumber, JsonValue};
use crate::profile::{join_path, opt_str_view, path_join};
use crate::text::{
    all_digits, decimal, lemma_str_lt_total, lemma_str_lt_transitive, push_decimal,
    push_signed_decimal, push_str, signed_decimal, str_eq, str_lt, string_of, trim, trim_str,
};

verus! {

/// The delivery status that a status command sets.
#[derive(Debug, Clone, Copy, PartialEq, Eq, Structural)]
pub enum DeliveryStatus {
    Enabled,
    Paused,
}

impl DeliveryStatus {
    pub open spec fn api_name(self) -> Seq<char> {
        match self {
            DeliveryStatus::Enabled => "ENABLED"@,
            DeliveryStatus::Paused => "PAUSED"@,
        }
    }

    /// The status as the API names it.
    pub fn as_api_status(self) -> (r: &'static str)
        ensures
            r@ == self.api_name(),
    {
        match self {
            DeliveryStatus::Enabled => "ENABLED",
            DeliveryStatus::Paused => "PAUSED",
        }
    }
}

/// The verdict of one doctor check.
#[derive(Debug, Clone, Copy, PartialEq, Eq, Structural)]
pub enum DoctorStatus {
    Pass,
    Warn,
    Fail,
}

impl DoctorStatus {
    pub open spec fn label(self) -> Seq<char> {
        match self {
            DoctorStatus::Pass => "OK"@,
            DoctorStatus::Warn => "WARN"@,
            DoctorStatus::Fail => "FAIL"@,
        }
    }

    pub fn as_str(self) -> (r: &'static str)
        ensures
            r@ == self.label(),
    {
        match self {
            DoctorStatus::Pass => "OK",
            DoctorStatus::Warn => "WARN",
            DoctorStatus::Fail => "FAIL",
        }
    }
}

/// ` (name)` for a name that is not blank, else nothing.
pub open spec fn name_suffix(name: Option<Seq<char>>) -> Seq<char> {
    match name {
        Some(n) => if trim(n).len() > 0 {
            " ("@ + n + ")"@
        } else {
            Seq::empty()
        },
        None => Seq::empty(),
    }
}

pub fn render_name(name: Option<&str>) -> (r: String)
    ensures
        r@ == name_suffix(opt_str_view(name)),
{
    match name {
        Some(n) => {
            let t = trim_str(n);
            if t.as_str().unicode_len() > 0 {
                let mut out = string_of(" (");
                push_str(&mut out, n);
                push_str(&mut out, ")");
                out
            } else {
                String::new()
            }
        },
        None => String::new(),
    }
}

/// ` [LOGIN]`, ` [DEFAULT]` or ` [LOGIN,DEFAULT]` for the customer that is the login
/// customer or the default customer, else nothing.
pub open spec fn markers(id: Seq<char>, login: Option<Seq<char>>, default: Option<Seq<char>>) -> Seq<
    char,
> {
    let is_login = login == Some(id);
    let is_default = default == Some(id);
    if is_login && is_default {
        " [LOGIN,DEFAULT]"@
    } else if is_login {
        " [LOGIN]"@
    } else if is_default {
        " [DEFAULT]"@
    } else {
        Seq::empty()
    }
}

fn opt_is(o: Option<&str>, id: &str) -> (r: bool)
    ensures
        r == (opt_str_view(o) == Some(id@)),
{
    match o {
        Some(x) => str_eq(x, id),
        None => false,
    }
}

pub fn marker_suffix(id: &str, login_customer_id: Option<&str>, default_customer_id: Option<&str>) -> (r:
    String)
    ensures
        r@ == markers(id@, opt_str_view(login_customer_id), opt_str_view(default_customer_id)),
{
    let is_login = opt_is(login_customer_id, id);
    let is_default = opt_is(default_customer_id, id);
    if is_login && is_default {
        string_of(" [LOGIN,DEFAULT]")
    } else if is_login {
        string_of(" [LOGIN]")
    } else if is_default {
        string_of(" [DEFAULT]")
    } else {
        String::new()
    }
}

/// `***` followed by the last four bytes of a secret longer than six bytes; `***` alone
/// for a shorter one.
pub open spec fn masked(bytes: Seq<u8>) -> Seq<char> {
    if bytes.len() <= 6 {
        "***"@
    } else {
        "***"@ + decode_utf8(bytes.subrange(bytes.len() - 4, bytes.len() as int))
    }
}

/// Masks a secret for display. The last four bytes must start at a character boundary,
/// as slicing the text there requires.
pub fn mask_secret(value: &str) -> (r: String)
    requires
        encode_utf8(value@).len() <= usize::MAX,
        encode_utf8(value@).len() <= 6 || vstd::utf8::is_char_boundary(
            encode_utf8(value@),
            encode_utf8(value@).len() - 4,
        ),
    ensures
        r@ == masked(encode_utf8(value@)),
{
    let n = value.len();
    assert(n == encode_utf8(value@).len());
    if n <= 6 {
        return string_of("***");
    }
    let (_, suffix) = value.split_at(n - 4);
    proof {
        vstd::utf8::encode_utf8_decode_utf8(suffix@);
    }
    let mut out = string_of("***");
    push_str(&mut out, suffix);
    out
}

/// The login customer ID override of a command: `Some(None)` with `--no-login-customer-id`,
/// `Some(Some(id))` with `--login-customer-id`, else none.
pub fn login_customer_id_override(no_login_customer_id: bool, login_customer_id: Option<String>) -> (r:
    Option<Option<String>>)
    ensures
        no_login_customer_id ==> r == Some(None::<String>),
        !no_login_customer_id ==> match login_customer_id {
            Some(id) => r == Some(Some(id)),
            None => r is None,
        },
{
    if no_login_customer_id {
        Some(None)
    } else {
        match login_customer_id {
            Some(id) => Some(Some(id)),
            None => None,
        }
    }
}

pub open spec fn customer_id_required() -> Seq<char> {
    "customer ID is required. Pass --customer-id or run `gads use <CUSTOMER_ID>`."@
}

/// The customer ID of a command: the one given, else the saved default.
pub fn resolve_customer_id(given: Option<String>, saved: Option<String>) -> (r: Result<String, String>)
    ensures
        match given {
            Some(g) => r == Ok::<String, String>(g),
            None => match saved {
                Some(s) => r == Ok::<String, String>(s),
                None => r matches Err(m) && m@ == customer_id_required(),
            },
        },
{
    if let Some(customer_id) = given {
        return Ok(customer_id);
    }
    if let Some(saved_customer_id) = saved {
        return Ok(saved_customer_id);
    }
    Err(string_of("customer ID is required. Pass --customer-id or run `gads use <CUSTOMER_ID>`."))
}

pub open spec fn resource_id_help() -> Seq<char> {
    "must be digits only (no hyphens), e.g. 1234567890"@
}

/// Parses a resource ID given on the command line: trimmed, a non-empty run of digits.
pub fn parse_resource_id_arg(value: &str) -> (r: Result<String, String>)
    ensures
        match r {
            Ok(v) => valid_customer_id(value@) && v@ == trim(value@),
            Err(m) => !valid_customer_id(value@) && m@ == resource_id_help(),
        },
{
    let trimmed = trim_str(value);
    if trimmed.as_str().unicode_len() == 0 || !all_ascii_digits(trimmed.as_str()) {
        return Err(string_of("must be digits only (no hyphens), e.g. 1234567890"));
    }
    Ok(trimmed)
}

pub open spec fn service_empty_help() -> Seq<char> {
    "service must not be empty"@
}

pub open spec fn service_name_help() -> Seq<char> {
    "service must be an API service name like campaigns, adGroups, adGroupAds"@
}

/// Parses a mutate service name given on the command line.
pub fn parse_mutate_service_arg(value: &str) -> (r: Result<String, String>)
    ensures
        match r {
            Ok(v) => valid_service(trim(value@)) && v@ == trim(value@),
            Err(m) => !valid_service(trim(value@)) && m@ == if trim(value@).len() == 0 {
                service_empty_help()
            } else {
                service_name_help()
            },
        },
{
    let trimmed = trim_str(value);
    if trimmed.as_str().unicode_len() == 0 {
        return Err(string_of("service must not be empty"));
    }
    if !is_service_name(trimmed.as_str()) {
        return Err(string_of("service must be an API service name like campaigns, adGroups, adGroupAds"));
    }
    Ok(trimmed)
}

/// A value read as text: a string as it is, an integer in decimal; nothing for others.
pub open spec fn value_string(v: Option<Json>) -> Option<Seq<char>> {
    match v {
        Some(x) => match x.as_str() {
            Some(s) => Some(s),
            None => match x.as_i64() {
                Some(i) => Some(signed_decimal(i as int)),
                None => match x.as_u64() {
                    Some(u) => Some(decimal(u as nat)),
                    None => None,
                },
            },
        },
        None => None,
    }
}

pub open spec fn opt_json(v: Option<&JsonValue>) -> Option<Json> {
    match v {
        Some(x) => Some(x@),
        None => None,
    }
}

pub fn value_as_string(v: Option<&JsonValue>) -> (r: Option<String>)
    ensures
        opt_view(r) == value_string(opt_json(v)),
{
    let x = match v {
        Some(x) => x,
        None => return None,
    };
    if let Some(s) = x.as_str() {
        return Some(string_of(s));
    }
    if let Some(i) = x.as_i64() {
        let mut out = String::new();
        push_signed_decimal(&mut out, i);
        assert(out@ =~= signed_decimal(i as int));
        return Some(out);
    }
    if let Some(u) = x.as_u64() {
        let mut out = String::new();
        push_decimal(&mut out, u);
        assert(out@ =~= decimal(u as nat));
        return Some(out);
    }
    None
}

/// A customer ID from the environment, when it is a valid one.
pub fn normalized_env_customer_id(raw: Option<&str>) -> (r: Option<String>)
    ensures
        match raw {
            Some(v) => if valid_customer_id(v@) {
                opt_view(r) == Some(trim(v@))
            } else {
                r is None
            },
            None => r is None,
        },
{
    match raw {
        Some(v) => match normalize_customer_id(v, "env") {
            Ok(id) => Some(id),
            Err(_) => None,
        },
        None => None,
    }
}

/// What is known of one customer: its ID, its name, and whether it is a manager (MCC).
#[derive(Debug)]
pub struct CustomerSummary {
    pub id: String,
    pub name: Option<String>,
    pub is_manager: Option<bool>,
}

/// Model of a customer summary.
pub struct SummaryView {
    pub id: Seq<char>,
    pub name: Option<Seq<char>>,
    pub is_manager: Option<bool>,
}

impl CustomerSummary {
    pub open spec fn view(&self) -> SummaryView {
        SummaryView { id: self.id@, name: opt_view(self.name), is_manager: self.is_manager }
    }

    /// A copy of the summary.
    pub fn copy(&self) -> (r: CustomerSummary)
        ensures
            r@ == self@,
    {
        CustomerSummary {
            id: self.id.clone(),
            name: match &self.name {
                Some(n) => Some(n.clone()),
                None => None,
            },
            is_manager: self.is_manager,
        }
    }
}

pub open spec fn summary_views(s: Seq<CustomerSummary>) -> Seq<SummaryView> {
    s.map_values(|x: CustomerSummary| x@)
}

/// A child account found under a manager account.
#[derive(Debug)]
pub struct CustomerRelation {
    pub child: CustomerSummary,
}

/// `MCC`, `ACCOUNT` or `UNKNOWN`.
pub open spec fn role(m: Option<bool>) -> Seq<char> {
    match m {
        Some(true) => "MCC"@,
        Some(false) => "ACCOUNT"@,
        None => "UNKNOWN"@,
    }
}

pub fn role_label(is_manager: Option<bool>) -> (r: &'static str)
    ensures
        r@ == role(is_manager),
{
    match is_manager {
        Some(true) => "MCC",
        Some(false) => "ACCOUNT",
        None => "UNKNOWN",
    }
}

/// Inserts `x` after the last summary whose ID does not sort after its own.
pub open spec fn insert_by_id(sorted: Seq<SummaryView>, x: SummaryView) -> Seq<SummaryView>
    decreases sorted.len(),
{
    if sorted.len() == 0 {
        seq![x]
    } else if crate::text::str_lt(x.id, sorted.last().id) {
        insert_by_id(sorted.drop_last(), x).push(sorted.last())
    } else {
        sorted.push(x)
    }
}

/// The summaries ordered by ID, equal IDs keeping their order (a stable sort).
pub open spec fn sort_by_id(s: Seq<SummaryView>) -> Seq<SummaryView>
    decreases s.len(),
{
    if s.len() == 0 {
        Seq::empty()
    } else {
        insert_by_id(sort_by_id(s.drop_last()), s.last())
    }
}

proof fn lemma_insert_by_id_at(sorted: Seq<SummaryView>, x: SummaryView, j: int)
    requires
        0 <= j <= sorted.len(),
        forall|k: int| j <= k < sorted.len() ==> crate::text::str_lt(x.id, #[trigger] sorted[k].id),
        j > 0 ==> !crate::text::str_lt(x.id, sorted[j - 1].id),
    ensures
        insert_by_id(sorted, x) == sorted.take(j).push(x) + sorted.skip(j),
    decreases sorted.len(),
{
    if sorted.len() == j {
        assert(sorted.take(j) =~= sorted);
        assert(sorted.skip(j) =~= Seq::<SummaryView>::empty());
        if j > 0 {
            assert(sorted.last() == sorted[j - 1]);
        }
        assert(sorted.take(j).push(x) + sorted.skip(j) =~= sorted.push(x));
    } else {
        lemma_insert_by_id_at(sorted.drop_last(), x, j);
        assert(sorted.drop_last().take(j) =~= sorted.take(j));
        assert(sorted.drop_last().skip(j).push(sorted.last()) =~= sorted.skip(j));
        assert((sorted.take(j).push(x) + sorted.drop_last().skip(j)).push(sorted.last())
            =~= sorted.take(j).push(x) + sorted.skip(j));
    }
}

/// No summary sorts after a later one.
pub open spec fn sorted_by_id(s: Seq<SummaryView>) -> bool {
    forall|i: int, j: int| 0 <= i < j < s.len() ==> !str_lt(#[trigger] s[j].id, #[trigger] s[i].id)
}

proof fn lemma_insert_by_id_multiset(sorted: Seq<SummaryView>, x: SummaryView)
    ensures
        insert_by_id(sorted, x).to_multiset() == sorted.to_multiset().insert(x),
    decreases sorted.len(),
{
    broadcast use vstd::seq_lib::group_to_multiset_ensures;

    if sorted.len() == 0 {
        assert(seq![x] =~= Seq::<SummaryView>::empty().push(x));
    } else if str_lt(x.id, sorted.last().id) {
        lemma_insert_by_id_multiset(sorted.drop_last(), x);
        assert(sorted =~= sorted.drop_last().push(sorted.last()));
    }
}

proof fn lemma_insert_by_id_sorted(sorted: Seq<SummaryView>, x: SummaryView)
    requires
        sorted_by_id(sorted),
    ensures
        sorted_by_id(insert_by_id(sorted, x)),
    decreases sorted.len(),
{
    if sorted.len() == 0 {
    } else if str_lt(x.id, sorted.last().id) {
        let last = sorted.last();
        let init = sorted.drop_last();
        lemma_insert_by_id_sorted(init, x);
        lemma_insert_by_id_multiset(init, x);
        let m = insert_by_id(init, x);
        assert forall|i: int| 0 <= i < m.len() implies !str_lt(last.id, #[trigger] m[i].id) by {
            broadcast use vstd::seq_lib::group_to_multiset_ensures, vstd::multiset::group_multiset_axioms;

            assert(m.contains(m[i]));
            assert(m.to_multiset().count(m[i]) > 0);
            if m[i] == x {
                lemma_str_lt_total(x.id, last.id);
            } else {
                assert(init.to_multiset().count(m[i]) > 0);
                assert(init.contains(m[i]));
                let k = choose|k: int| 0 <= k < init.len() && init[k] == m[i];
                assert(sorted[k] == m[i]);
                assert(sorted[sorted.len() - 1] == last);
            }
        }
        let r = insert_by_id(sorted, x);
        assert(r == m.push(last));
        assert forall|i: int, j: int| 0 <= i < j < r.len() implies !str_lt(#[trigger] r[j].id, #[trigger] r[i].id) by {
            if j == r.len() - 1 {
                assert(r[j] == last && r[i] == m[i]);
            } else {
                assert(r[j] == m[j] && r[i] == m[i]);
            }
        }
    } else {
        let last = sorted.last();
        let r = insert_by_id(sorted, x);
        assert forall|i: int| 0 <= i < sorted.len() implies !str_lt(x.id, #[trigger] sorted[i].id) by {
            if i < sorted.len() - 1 {
                assert(sorted[sorted.len() - 1] == last);
                lemma_str_lt_total(last.id, sorted[i].id);
                if str_lt(x.id, sorted[i].id) && sorted[i].id != last.id {
                    lemma_str_lt_transitive(x.id, sorted[i].id, last.id);
                }
            }
        }
        assert forall|i: int, j: int| 0 <= i < j < r.len() implies !str_lt(#[trigger] r[j].id, #[trigger] r[i].id) by {
            if j == r.len() - 1 {
                assert(r[j] == x && r[i] == sorted[i]);
            } else {
                assert(r[j] == sorted[j] && r[i] == sorted[i]);
            }
        }
    }
}

/// Sorting by ID puts the summaries in ID order and keeps exactly the summaries it was given.
pub proof fn lemma_sort_by_id(s: Seq<SummaryView>)
    ensures
        sorted_by_id(sort_by_id(s)),
        sort_by_id(s).to_multiset() == s.to_multiset(),
    decreases s.len(),
{
    broadcast use vstd::seq_lib::group_to_multiset_ensures;

    if s.len() > 0 {
        lemma_sort_by_id(s.drop_last());
        lemma_insert_by_id_sorted(sort_by_id(s.drop_last()), s.last());
        lemma_insert_by_id_multiset(sort_by_id(s.drop_last()), s.last());
        assert(s =~= s.drop_last().push(s.last()));
    }
}

/// Whether a summary has the ID `id`.
pub open spec fn has_id(id: Seq<char>) -> spec_fn(SummaryView) -> bool {
    |c: SummaryView| c.id == id
}

proof fn lemma_insert_by_id_stable(s: Seq<SummaryView>, x: SummaryView, id: Seq<char>)
    ensures
        insert_by_id(s, x).filter(has_id(id)) == if x.id == id {
            s.filter(has_id(id)).push(x)
        } else {
            s.filter(has_id(id))
        },
    decreases s.len(),
{
    if s.len() == 0 {
        Seq::<SummaryView>::empty().lemma_filter_push(x, has_id(id));
        assert(Seq::<SummaryView>::empty().push(x) =~= seq![x]);
        assert(s =~= Seq::<SummaryView>::empty());
        reveal(Seq::filter);
    } else if str_lt(x.id, s.last().id) {
        let init = s.drop_last();
        let last = s.last();
        lemma_insert_by_id_stable(init, x, id);
        lemma_str_lt_total(x.id, last.id);
        insert_by_id(init, x).lemma_filter_push(last, has_id(id));
        init.lemma_filter_push(last, has_id(id));
        assert(s =~= init.push(last));
    } else {
        s.lemma_filter_push(x, has_id(id));
    }
}

/// Summaries with the same ID come out of the sort in the order they went in: the sort is
/// stable.
pub proof fn lemma_sort_by_id_stable(s: Seq<SummaryView>, id: Seq<char>)
    ensures
        sort_by_id(s).filter(has_id(id)) == s.filter(has_id(id)),
    decreases s.len(),
{
    if s.len() > 0 {
        lemma_sort_by_id_stable(s.drop_last(), id);
        lemma_insert_by_id_stable(sort_by_id(s.drop_last()), s.last(), id);
        s.drop_last().lemma_filter_push(s.last(), has_id(id));
        assert(s =~= s.drop_last().push(s.last()));
    } else {
        reveal(Seq::filter);
        assert(sort_by_id(s) =~= s);
    }
}

/// The summaries in ID order, as a stable `sort_by` on the IDs leaves them.
pub fn sort_summaries(summaries: Vec<CustomerSummary>) -> (r: Vec<CustomerSummary>)
    ensures
        summary_views(r@) == sort_by_id(summary_views(summaries@)),
{
    let ghost all = summary_views(summaries@);
    let mut out: Vec<CustomerSummary> = Vec::new();
    let mut i: usize = 0;
    assert(all.take(0) =~= Seq::<SummaryView>::empty());
    assert(summary_views(out@) =~= Seq::<SummaryView>::empty());
    while i < summaries.len()
        invariant
            all == summary_views(summaries@),
            i <= summaries.len(),
            summary_views(out@) == sort_by_id(all.take(i as int)),
        decreases summaries.len() - i,
    {
        let x = summaries[i].copy();
        let ghost before = summary_views(out@);
        let mut j: usize = out.len();
        while j > 0 && crate::text::str_less(x.id.as_str(), out[j - 1].id.as_str())
            invariant
                j <= out.len(),
                before == summary_views(out@),
                forall|k: int| j <= k < before.len() ==> crate::text::str_lt(x@.id, #[trigger] before[k].id),
            decreases j,
        {
            j = j - 1;
        }
        proof {
            lemma_insert_by_id_at(before, x@, j as int);
            let t = all.take(i + 1);
            assert(t.drop_last() =~= all.take(i as int));
            assert(t.last() == x@);
        }
        out.insert(j, x);
        assert(summary_views(out@) =~= before.take(j as int).push(x@) + before.skip(j as int));
        i = i + 1;
    }
    assert(all.take(summaries.len() as int) =~= all);
    out
}

/// A name that is not blank.
pub open spec fn nonblank(n: Option<Seq<char>>) -> Option<Seq<char>> {
    match n {
        Some(x) => if trim(x).len() > 0 {
            Some(x)
        } else {
            None
        },
        None => None,
    }
}

pub open spec fn first_of(a: Option<Seq<char>>, b: Option<Seq<char>>) -> Option<Seq<char>> {
    match a {
        Some(x) => Some(x),
        None => b,
    }
}

pub open spec fn bool_member(row: Json, key: Seq<char>) -> Option<bool> {
    match row.get(key) {
        Some(v) => v.as_bool(),
        None => None,
    }
}

/// The summary of a customer from the first row of its `customer` query.
pub open spec fn summary_of_row(customer_id: Seq<char>, row: Json) -> SummaryView {
    SummaryView {
        id: match value_string(row.get("customer.id"@)) {
            Some(s) => s,
            None => customer_id,
        },
        name: nonblank(
            first_of(
                value_string(row.get("customer.descriptiveName"@)),
                value_string(row.get("customer.descriptive_name"@)),
            ),
        ),
        is_manager: bool_member(row, "customer.manager"@),
    }
}

/// The summary of a customer from the response to its `customer` query: nothing beyond
/// the ID where the query failed, the response is not an array or holds no row.
pub open spec fn inspected(customer_id: Seq<char>, response: Option<Json>) -> SummaryView {
    let unknown = SummaryView { id: customer_id, name: None, is_manager: None };
    match response {
        Some(r) => match r.as_array() {
            Some(bs) => if all_rows(bs).len() > 0 {
                summary_of_row(customer_id, all_rows(bs)[0])
            } else {
                unknown
            },
            None => unknown,
        },
        None => unknown,
    }
}

fn nonblank_string(n: Option<String>) -> (r: Option<String>)
    ensures
        opt_view(r) == nonblank(opt_view(n)),
{
    match n {
        Some(x) => {
            let t = trim_str(x.as_str());
            if t.as_str().unicode_len() > 0 {
                Some(x)
            } else {
                None
            }
        },
        None => None,
    }
}

fn bool_of(row: &JsonValue, key: &str) -> (r: Option<bool>)
    ensures
        r == bool_member(row@, key@),
{
    match row.get(key) {
        Some(v) => v.as_bool(),
        None => None,
    }
}

/// The summary of a customer, given the response to the query
/// `SELECT customer.id, customer.descriptive_name, customer.manager FROM customer LIMIT 1`
/// (`None` where the request failed).
pub fn inspect_customer(customer_id: &str, response: Option<&JsonValue>) -> (r: CustomerSummary)
    ensures
        r@ == inspected(customer_id@, opt_json(response)),
{
    let unknown = CustomerSummary { id: string_of(customer_id), name: None, is_manager: None };
    let response = match response {
        Some(r) => r,
        None => return unknown,
    };
    let rows = match flatten_search_response(response) {
        Ok(rows) => rows,
        Err(_) => return unknown,
    };
    if rows.len() == 0 {
        return unknown;
    }
    let row = &rows[0];
    assert(views(rows@)[0] == row@);
    let id = match value_as_string(row.get("customer.id")) {
        Some(s) => s,
        None => string_of(customer_id),
    };
    let name = match value_as_string(row.get("customer.descriptiveName")) {
        Some(s) => Some(s),
        None => value_as_string(row.get("customer.descriptive_name")),
    };
    let name = nonblank_string(name);
    let is_manager = bool_of(row, "customer.manager");
    CustomerSummary { id, name, is_manager }
}

/// The query that lists the accounts directly under a manager account.
pub open spec fn relations_query() -> Seq<char> {
    "SELECT customer_client.level, customer_client.id, customer_client.client_customer, customer_client.descriptive_name, customer_client.manager FROM customer_client WHERE customer_client.level <= 1"@
}

pub fn customer_relations_query() -> (r: &'static str)
    ensures
        r@ == relations_query(),
{
    "SELECT customer_client.level, customer_client.id, customer_client.client_customer, customer_client.descriptive_name, customer_client.manager FROM customer_client WHERE customer_client.level <= 1"
}

/// The row describes a direct child: its `customerClient.level` is 1.
pub open spec fn level_one(row: Json) -> bool {
    match row.get("customerClient.level"@) {
        Some(v) => match v.as_u64() {
            Some(u) => u == 1,
            None => v.as_i64() == Some(1i64),
        },
        None => false,
    }
}

/// The resource name `customers/ID` without its prefix; nothing when it lacks the prefix.
pub open spec fn strip_required(s: Seq<char>) -> Option<Seq<char>> {
    let p = "customers/"@;
    if s.len() >= p.len() && s.take(p.len() as int) == p {
        Some(s.skip(p.len() as int))
    } else {
        None
    }
}

/// The ID of a child row: `customerClient.id`, else the ID in `customerClient.clientCustomer`.
pub open spec fn child_id(row: Json) -> Option<Seq<char>> {
    match value_string(row.get("customerClient.id"@)) {
        Some(s) => Some(s),
        None => match value_string(row.get("customerClient.clientCustomer"@)) {
            Some(rn) => strip_required(rn),
            None => None,
        },
    }
}

/// The child described by one row, if the row is a direct child with an ID.
pub open spec fn child_of_row(row: Json) -> Option<SummaryView> {
    if level_one(row) && child_id(row) is Some {
        Some(
            SummaryView {
                id: child_id(row)->0,
                name: nonblank(
                    first_of(
                        value_string(row.get("customerClient.descriptiveName"@)),
                        value_string(row.get("customerClient.descriptive_name"@)),
                    ),
                ),
                is_manager: bool_member(row, "customerClient.manager"@),
            },
        )
    } else {
        None
    }
}

/// The children described by the rows, in order.
pub open spec fn children_of_rows(rows: Seq<Json>) -> Seq<SummaryView>
    decreases rows.len(),
{
    if rows.len() == 0 {
        Seq::empty()
    } else {
        children_of_rows(rows.drop_last()) + match child_of_row(rows.last()) {
            Some(c) => seq![c],
            None => Seq::empty(),
        }
    }
}

/// The children in a response to the relations query; none where the request failed or
/// the response is not an array.
pub open spec fn relations_of(response: Option<Json>) -> Seq<SummaryView> {
    match response {
        Some(r) => match r.as_array() {
            Some(bs) => children_of_rows(all_rows(bs)),
            None => Seq::empty(),
        },
        None => Seq::empty(),
    }
}

pub open spec fn relation_views(s: Seq<CustomerRelation>) -> Seq<SummaryView> {
    s.map_values(|x: CustomerRelation| x.child@)
}

fn level_is_one(row: &JsonValue) -> (r: bool)
    ensures
        r == level_one(row@),
{
    match row.get("customerClient.level") {
        Some(v) => match v.as_u64() {
            Some(u) => u == 1,
            None => match v.as_i64() {
                Some(i) => i == 1,
                None => false,
            },
        },
        None => false,
    }
}

fn strip_customers_required(s: &str) -> (r: Option<String>)
    ensures
        opt_view(r) == strip_required(s@),
{
    proof {
        reveal_strlit("customers/");
    }
    let n = s.unicode_len();
    if n < 10 {
        return None;
    }
    if str_eq(s.substring_char(0, 10), "customers/") {
        Some(string_of(s.substring_char(10, n)))
    } else {
        None
    }
}

fn row_child(row: &JsonValue) -> (r: Option<CustomerSummary>)
    ensures
        match r {
            Some(c) => child_of_row(row@) == Some(c@),
            None => child_of_row(row@) is None,
        },
{
    if !level_is_one(row) {
        return None;
    }
    let id = match value_as_string(row.get("customerClient.id")) {
        Some(s) => s,
        None => match value_as_string(row.get("customerClient.clientCustomer")) {
            Some(rn) => match strip_customers_required(rn.as_str()) {
                Some(x) => x,
                None => return None,
            },
            None => return None,
        },
    };
    let name = match value_as_string(row.get("customerClient.descriptiveName")) {
        Some(s) => Some(s),
        None => value_as_string(row.get("customerClient.descriptive_name")),
    };
    let name = nonblank_string(name);
    let is_manager = bool_of(row, "customerClient.manager");
    Some(CustomerSummary { id, name, is_manager })
}

/// The direct children of a manager account, given the response to the relations query
/// (`None` where the request failed).
pub fn fetch_customer_relations(response: Option<&JsonValue>) -> (r: Vec<CustomerRelation>)
    ensures
        relation_views(r@) == relations_of(opt_json(response)),
{
    let mut out: Vec<CustomerRelation> = Vec::new();
    let response = match response {
        Some(r) => r,
        None => {
            assert(relation_views(out@) =~= Seq::<SummaryView>::empty());
            return out;
        },
    };
    let rows = match flatten_search_response(response) {
        Ok(rows) => rows,
        Err(_) => {
            assert(relation_views(out@) =~= Seq::<SummaryView>::empty());
            return out;
        },
    };
    let ghost rv = views(rows@);
    let mut i: usize = 0;
    assert(rv.take(0) =~= Seq::<Json>::empty());
    assert(relation_views(out@) =~= Seq::<SummaryView>::empty());
    while i < rows.len()
        invariant
            rv == views(rows@),
            i <= rows.len(),
            relation_views(out@) == children_of_rows(rv.take(i as int)),
        decreases rows.len() - i,
    {
        let ghost before = out@;
        if let Some(child) = row_child(&rows[i]) {
            out.push(CustomerRelation { child });
        }
        proof {
            let t = rv.take(i + 1);
            assert(t.drop_last() =~= rv.take(i as int));
            assert(t.last() == rows@[i as int]@);
            assert(relation_views(out@) =~= children_of_rows(t));
        }
        i = i + 1;
    }
    assert(rv.take(rows.len() as int) =~= rv);
    out
}

/// IDs of the summaries whose manager flag is `Some(m)`, in order.
pub open spec fn ids_where(s: Seq<SummaryView>, m: bool) -> Seq<Seq<char>>
    decreases s.len(),
{
    if s.len() == 0 {
        Seq::empty()
    } else {
        ids_where(s.drop_last(), m) + if s.last().is_manager == Some(m) {
            seq![s.last().id]
        } else {
            Seq::empty()
        }
    }
}

pub open spec fn pick_account_line() -> Seq<char> {
    "  Then pick one account ID and run: gads use <ACCOUNT_ID>"@
}

pub open spec fn export_login_line(id: Seq<char>) -> Seq<char> {
    "  export GOOGLE_ADS_LOGIN_CUSTOMER_ID="@ + id
}

pub open spec fn use_line(id: Seq<char>) -> Seq<char> {
    "  gads use "@ + id
}

/// The advice printed after the customer list (an empty first line stands for a blank
/// line): which login customer ID to export and which account to use.
pub open spec fn next_step_lines(s: Seq<SummaryView>) -> Seq<Seq<char>> {
    let mcc = ids_where(s, true);
    let acc = ids_where(s, false);
    if mcc.len() == 0 && acc.len() == 0 {
        seq![Seq::empty(), "Could not classify MCC vs account for any customer."@]
    } else {
        seq![Seq::empty(), "Suggested next step:"@] + if mcc.len() == 1 && acc.len() == 1 {
            seq![export_login_line(mcc[0]), use_line(acc[0])]
        } else if mcc.len() == 1 && acc.len() > 1 {
            seq![export_login_line(mcc[0]), pick_account_line()]
        } else if mcc.len() > 1 {
            seq![
                "  Multiple MCCs found. Pick one and set:"@,
                "  export GOOGLE_ADS_LOGIN_CUSTOMER_ID=<MCC_ID>"@,
            ] + if acc.len() > 0 {
                seq!["  Then: gads use <ACCOUNT_ID>"@]
            } else {
                Seq::empty()
            }
        } else {
            seq![
                "  No MCC detected. Use direct account mode:"@,
                "  unset GOOGLE_ADS_LOGIN_CUSTOMER_ID"@,
                if acc.len() == 1 {
                    use_line(acc[0])
                } else {
                    pick_account_line()
                },
            ]
        }
    }
}

fn ids_with_role(s: &[CustomerSummary], m: bool) -> (r: Vec<String>)
    ensures
        crate::text::texts(r@) == ids_where(summary_views(s@), m),
{
    let ghost sv = summary_views(s@);
    let mut out: Vec<String> = Vec::new();
    let mut i: usize = 0;
    assert(sv.take(0) =~= Seq::<SummaryView>::empty());
    assert(crate::text::texts(out@) =~= Seq::<Seq<char>>::empty());
    while i < s.len()
        invariant
            sv == summary_views(s@),
            i <= s.len(),
            crate::text::texts(out@) == ids_where(sv.take(i as int), m),
        decreases s.len() - i,
    {
        if s[i].is_manager == Some(m) {
            out.push(s[i].id.clone());
        }
        proof {
            let t = sv.take(i + 1);
            assert(t.drop_last() =~= sv.take(i as int));
            assert(t.last() == s@[i as int]@);
            assert(crate::text::texts(out@) =~= ids_where(t, m));
        }
        i = i + 1;
    }
    assert(sv.take(s.len() as int) =~= sv);
    out
}

fn prefixed(prefix: &str, id: &str) -> (r: String)
    ensures
        r@ == prefix@ + id@,
{
    let mut out = string_of(prefix);
    push_str(&mut out, id);
    out
}

/// The advice printed after the customer list, one string per line.
pub fn suggested_next_step(summaries: &[CustomerSummary]) -> (r: Vec<String>)
    ensures
        crate::text::texts(r@) == next_step_lines(summary_views(summaries@)),
{
    let mcc_ids = ids_with_role(summaries, true);
    let account_ids = ids_with_role(summaries, false);
    let mut out: Vec<String> = Vec::new();
    out.push(String::new());
    if mcc_ids.len() == 0 && account_ids.len() == 0 {
        out.push(string_of("Could not classify MCC vs account for any customer."));
        assert(crate::text::texts(out@) =~= next_step_lines(summary_views(summaries@)));
        return out;
    }
    out.push(string_of("Suggested next step:"));
    let m = mcc_ids.len();
    let a = account_ids.len();
    if m == 1 && a == 1 {
        out.push(prefixed("  export GOOGLE_ADS_LOGIN_CUSTOMER_ID=", mcc_ids[0].as_str()));
        out.push(prefixed("  gads use ", account_ids[0].as_str()));
    } else if m == 1 && a > 1 {
        out.push(prefixed("  export GOOGLE_ADS_LOGIN_CUSTOMER_ID=", mcc_ids[0].as_str()));
        out.push(string_of("  Then pick one account ID and run: gads use <ACCOUNT_ID>"));
    } else if m > 1 {
        out.push(string_of("  Multiple MCCs found. Pick one and set:"));
        out.push(string_of("  export GOOGLE_ADS_LOGIN_CUSTOMER_ID=<MCC_ID>"));
        if a > 0 {
            out.push(string_of("  Then: gads use <ACCOUNT_ID>"));
        }
    } else {
        out.push(string_of("  No MCC detected. Use direct account mode:"));
        out.push(string_of("  unset GOOGLE_ADS_LOGIN_CUSTOMER_ID"));
        if a == 1 {
            out.push(prefixed("  gads use ", account_ids[0].as_str()));
        } else {
            out.push(string_of("  Then pick one account ID and run: gads use <ACCOUNT_ID>"));
        }
    }
    proof {
        reveal_strlit("");
    }
    assert(crate::text::texts(out@) =~= next_step_lines(summary_views(summaries@)));
    out
}

/// What `gads customers` prints before any customer is inspected: the notice that none was
/// found, or the bare IDs with `--ids-only`; `None` where the customers must be inspected.
pub fn customers_listing(ids: &[String], ids_only: bool) -> (r: Option<Vec<String>>)
    ensures
        match r {
            Some(lines) => if ids@.len() == 0 {
                crate::text::texts(lines@) == seq!["No accessible customers found."@]
            } else {
                ids_only && crate::text::texts(lines@) == crate::text::texts(ids@)
            },
            None => ids@.len() > 0 && !ids_only,
        },
{
    if ids.len() == 0 {
        let mut lines: Vec<String> = Vec::new();
        lines.push(string_of("No accessible customers found."));
        assert(crate::text::texts(lines@) =~= seq!["No accessible customers found."@]);
        return Some(lines);
    }
    if ids_only {
        let mut lines: Vec<String> = Vec::new();
        let mut i: usize = 0;
        while i < ids.len()
            invariant
                i <= ids.len(),
                crate::text::texts(lines@) == crate::text::texts(ids@).take(i as int),
            decreases ids.len() - i,
        {
            let ghost prev = lines@;
            lines.push(string_of(ids[i].as_str()));
            assert(crate::text::texts(lines@) =~= crate::text::texts(prev).push(ids@[i as int]@));
            assert(crate::text::texts(ids@).take(i + 1) =~= crate::text::texts(ids@).take(i as int).push(
                ids@[i as int]@,
            ));
            i = i + 1;
        }
        assert(crate::text::texts(ids@).take(ids.len() as int) =~= crate::text::texts(ids@));
        return Some(lines);
    }
    None
}

pub open spec fn login_args() -> Seq<Seq<char>> {
    seq![
        "auth"@,
        "application-default"@,
        "login"@,
        "--scopes"@,
        "openid,https://www.googleapis.com/auth/userinfo.email,https://www.googleapis.com/auth/adwords"@,
    ]
}

/// The arguments of the `gcloud` call that `gads login` makes: application default
/// credentials with the e-mail and Google Ads scopes.
pub fn gcloud_login_args() -> (r: Vec<String>)
    ensures
        crate::text::texts(r@) == login_args(),
{
    let mut r: Vec<String> = Vec::new();
    r.push(string_of("auth"));
    r.push(string_of("application-default"));
    r.push(string_of("login"));
    r.push(string_of("--scopes"));
    r.push(string_of("openid,https://www.googleapis.com/auth/userinfo.email,https://www.googleapis.com/auth/adwords"));
    assert(crate::text::texts(r@) =~= login_args());
    r
}

/// `ID<TAB>ROLE<TAB>NAME` for one customer, `-` standing for a missing name.
pub open spec fn table_row(c: SummaryView) -> Seq<char> {
    c.id + "\t"@ + role(c.is_manager) + "\t"@ + match c.name {
        Some(n) => n,
        None => "-"@,
    }
}

/// The customer list: a heading, a header row and one row per customer.
pub open spec fn table_lines(s: Seq<SummaryView>) -> Seq<Seq<char>> {
    seq!["Accessible customers:"@, "ID\tROLE\tNAME"@] + Seq::new(s.len(), |i: int| table_row(s[i]))
}

/// The customer list, one string per line.
pub fn customer_table_lines(summaries: &[CustomerSummary]) -> (r: Vec<String>)
    ensures
        crate::text::texts(r@) == table_lines(summary_views(summaries@)),
{
    let ghost sv = summary_views(summaries@);
    let mut out: Vec<String> = Vec::new();
    out.push(string_of("Accessible customers:"));
    out.push(string_of("ID\tROLE\tNAME"));
    let mut i: usize = 0;
    while i < summaries.len()
        invariant
            sv == summary_views(summaries@),
            i <= summaries.len(),
            crate::text::texts(out@) == seq!["Accessible customers:"@, "ID\tROLE\tNAME"@]
                + Seq::new(i as nat, |k: int| table_row(sv[k])),
        decreases summaries.len() - i,
    {
        let s = &summaries[i];
        let mut line = s.id.clone();
        push_str(&mut line, "\t");
        push_str(&mut line, role_label(s.is_manager));
        push_str(&mut line, "\t");
        match &s.name {
            Some(n) => push_str(&mut line, n.as_str()),
            None => push_str(&mut line, "-"),
        }
        assert(line@ =~= table_row(sv[i as int]));
        let ghost before = out@;
        let ghost lv = line@;
        out.push(line);
        assert(crate::text::texts(out@) =~= crate::text::texts(before).push(lv));
        assert(crate::text::texts(out@) =~= seq!["Accessible customers:"@, "ID\tROLE\tNAME"@]
            + Seq::new((i + 1) as nat, |k: int| table_row(sv[k])));
        i = i + 1;
    }
    assert(Seq::new(summaries.len() as nat, |k: int| table_row(sv[k])) =~= Seq::new(
        sv.len(),
        |k: int| table_row(sv[k]),
    ));
    out
}

/// `prefix ROLE ID (name) [markers]` for one customer.
pub open spec fn summary_line(
    prefix: Seq<char>,
    c: SummaryView,
    login: Option<Seq<char>>,
    default: Option<Seq<char>>,
) -> Seq<char> {
    prefix + role(c.is_manager) + " "@ + c.id + name_suffix(c.name) + markers(c.id, login, default)
}

/// The children recorded for a manager ID: those of the last entry with that ID.
pub open spec fn lookup_children(rel: Seq<(Seq<char>, Seq<SummaryView>)>, id: Seq<char>) -> Option<
    Seq<SummaryView>,
>
    decreases rel.len(),
{
    if rel.len() == 0 {
        None
    } else if rel.last().0 == id {
        Some(rel.last().1)
    } else {
        lookup_children(rel.drop_last(), id)
    }
}

pub open spec fn child_lines(
    cs: Seq<SummaryView>,
    login: Option<Seq<char>>,
    default: Option<Seq<char>>,
) -> Seq<Seq<char>> {
    Seq::new(cs.len(), |i: int| summary_line("  - "@, cs[i], login, default))
}

pub open spec fn no_children_line() -> Seq<char> {
    "  - (no visible child accounts)"@
}

/// The lines of one manager account: the account, then its children in ID order.
pub open spec fn mcc_block(
    m: SummaryView,
    rel: Seq<(Seq<char>, Seq<SummaryView>)>,
    login: Option<Seq<char>>,
    default: Option<Seq<char>>,
) -> Seq<Seq<char>> {
    seq!["MCC "@ + m.id + name_suffix(m.name) + markers(m.id, login, default)] + match lookup_children(
        rel,
        m.id,
    ) {
        Some(c) => if c.len() > 0 {
            child_lines(sort_by_id(c), login, default)
        } else {
            seq![no_children_line()]
        },
        None => seq![no_children_line()],
    }
}

/// The blocks of the manager accounts, in the order of the summaries.
pub open spec fn mcc_blocks(
    s: Seq<SummaryView>,
    rel: Seq<(Seq<char>, Seq<SummaryView>)>,
    login: Option<Seq<char>>,
    default: Option<Seq<char>>,
) -> Seq<Seq<char>>
    decreases s.len(),
{
    if s.len() == 0 {
        Seq::empty()
    } else {
        mcc_blocks(s.drop_last(), rel, login, default) + if s.last().is_manager == Some(true) {
            mcc_block(s.last(), rel, login, default)
        } else {
            Seq::empty()
        }
    }
}

/// Some manager lists `id` among its children.
pub open spec fn seen_as_child(rel: Seq<(Seq<char>, Seq<SummaryView>)>, id: Seq<char>) -> bool {
    exists|k: int, j: int| 0 <= k < rel.len() && 0 <= j < rel[k].1.len() && rel[k].1[j].id == id
}

/// The customers that are neither managers nor anyone's child, in order.
pub open spec fn leftover(s: Seq<SummaryView>, rel: Seq<(Seq<char>, Seq<SummaryView>)>) -> Seq<
    SummaryView,
>
    decreases s.len(),
{
    if s.len() == 0 {
        Seq::empty()
    } else {
        leftover(s.drop_last(), rel) + if !seen_as_child(rel, s.last().id)
            && s.last().is_manager != Some(true) {
            seq![s.last()]
        } else {
            Seq::empty()
        }
    }
}

/// The customer tree: each manager with its children, then the accounts reached directly.
pub open spec fn tree_lines(
    s: Seq<SummaryView>,
    rel: Seq<(Seq<char>, Seq<SummaryView>)>,
    login: Option<Seq<char>>,
    default: Option<Seq<char>>,
) -> Seq<Seq<char>> {
    let lo = sort_by_id(leftover(s, rel));
    seq!["Accessible customers (tree):"@] + mcc_blocks(s, rel, login, default) + if lo.len() > 0 {
        seq![Seq::empty(), "Directly accessible accounts:"@] + Seq::new(
            lo.len(),
            |i: int| summary_line("- "@, lo[i], login, default),
        )
    } else {
        Seq::empty()
    }
}

pub open spec fn rel_views(rel: Seq<(String, Vec<CustomerSummary>)>) -> Seq<
    (Seq<char>, Seq<SummaryView>),
> {
    rel.map_values(|p: (String, Vec<CustomerSummary>)| (p.0@, summary_views(p.1@)))
}

fn copy_summaries(s: &[CustomerSummary]) -> (r: Vec<CustomerSummary>)
    ensures
        summary_views(r@) == summary_views(s@),
{
    let mut out: Vec<CustomerSummary> = Vec::new();
    let mut i: usize = 0;
    while i < s.len()
        invariant
            i <= s.len(),
            out.len() == i,
            forall|k: int| 0 <= k < i ==> (#[trigger] out@[k])@ == s@[k]@,
        decreases s.len() - i,
    {
        out.push(s[i].copy());
        i = i + 1;
    }
    assert(summary_views(out@) =~= summary_views(s@));
    out
}

fn line_for(prefix: &str, c: &CustomerSummary, login: Option<&str>, default: Option<&str>) -> (r: String)
    ensures
        r@ == summary_line(prefix@, c@, opt_str_view(login), opt_str_view(default)),
{
    let mut out = string_of(prefix);
    push_str(&mut out, role_label(c.is_manager));
    push_str(&mut out, " ");
    push_str(&mut out, c.id.as_str());
    let name: Option<&str> = match &c.name {
        Some(n) => Some(n.as_str()),
        None => None,
    };
    let n = render_name(name);
    push_str(&mut out, n.as_str());
    let m = marker_suffix(c.id.as_str(), login, default);
    push_str(&mut out, m.as_str());
    assert(out@ =~= summary_line(prefix@, c@, opt_str_view(login), opt_str_view(default)));
    out
}

/// Appends one line per summary, each with `prefix`.
fn push_lines(
    out: &mut Vec<String>,
    prefix: &str,
    cs: &[CustomerSummary],
    login: Option<&str>,
    default: Option<&str>,
)
    ensures
        crate::text::texts(final(out)@) == crate::text::texts(old(out)@) + Seq::new(
            cs@.len(),
            |i: int| summary_line(prefix@, cs@[i]@, opt_str_view(login), opt_str_view(default)),
        ),
{
    let ghost start = crate::text::texts(out@);
    let mut i: usize = 0;
    assert(crate::text::texts(out@) =~= start + Seq::new(
        0,
        |k: int| summary_line(prefix@, cs@[k]@, opt_str_view(login), opt_str_view(default)),
    ));
    while i < cs.len()
        invariant
            i <= cs.len(),
            crate::text::texts(out@) == start + Seq::new(
                i as nat,
                |k: int| summary_line(prefix@, cs@[k]@, opt_str_view(login), opt_str_view(default)),
            ),
        decreases cs.len() - i,
    {
        let line = line_for(prefix, &cs[i], login, default);
        let ghost before = out@;
        let ghost lv = line@;
        out.push(line);
        assert(crate::text::texts(out@) =~= crate::text::texts(before).push(lv));
        assert(crate::text::texts(out@) =~= start + Seq::new(
            (i + 1) as nat,
            |k: int| summary_line(prefix@, cs@[k]@, opt_str_view(login), opt_str_view(default)),
        ));
        i = i + 1;
    }
}

fn find_children(rel: &[(String, Vec<CustomerSummary>)], id: &str) -> (r: Option<usize>)
    ensures
        match r {
            Some(k) => k < rel@.len() && lookup_children(rel_views(rel@), id@) == Some(
                summary_views(rel@[k as int].1@),
            ),
            None => lookup_children(rel_views(rel@), id@) is None,
        },
{
    let ghost rv = rel_views(rel@);
    let mut k: usize = rel.len();
    assert(rv.take(k as int) =~= rv);
    while k > 0
        invariant
            rv == rel_views(rel@),
            k <= rel.len(),
            lookup_children(rv, id@) == lookup_children(rv.take(k as int), id@),
        decreases k,
    {
        let ghost t = rv.take(k as int);
        assert(t.drop_last() =~= rv.take(k - 1));
        assert(t.last() == rv[k - 1]);
        if str_eq(rel[k - 1].0.as_str(), id) {
            return Some(k - 1);
        }
        k = k - 1;
    }
    None
}

fn is_seen(rel: &[(String, Vec<CustomerSummary>)], id: &str) -> (r: bool)
    ensures
        r == seen_as_child(rel_views(rel@), id@),
{
    let ghost rv = rel_views(rel@);
    let mut k: usize = 0;
    while k < rel.len()
        invariant
            rv == rel_views(rel@),
            k <= rel.len(),
            forall|a: int, b: int| 0 <= a < k && 0 <= b < rv[a].1.len() ==> rv[a].1[b].id != id@,
        decreases rel.len() - k,
    {
        let children = &rel[k].1;
        let mut j: usize = 0;
        while j < children.len()
            invariant
                rv == rel_views(rel@),
                k < rel.len(),
                children@ == rel@[k as int].1@,
                j <= children.len(),
                forall|b: int| 0 <= b < j ==> rv[k as int].1[b].id != id@,
            decreases children.len() - j,
        {
            if str_eq(children[j].id.as_str(), id) {
                assert(rv[k as int].1[j as int].id == id@);
                return true;
            }
            j = j + 1;
        }
        k = k + 1;
    }
    false
}

/// The customer tree, one string per line. `relations` pairs each manager ID with the
/// children fetched for it, in the order they were fetched.
pub fn customer_tree_lines(
    summaries: &[CustomerSummary],
    relations: &[(String, Vec<CustomerSummary>)],
    login_marker: Option<&str>,
    default_marker: Option<&str>,
) -> (r: Vec<String>)
    ensures
        crate::text::texts(r@) == tree_lines(
            summary_views(summaries@),
            rel_views(relations@),
            opt_str_view(login_marker),
            opt_str_view(default_marker),
        ),
{
    let ghost sv = summary_views(summaries@);
    let ghost rv = rel_views(relations@);
    let ghost login = opt_str_view(login_marker);
    let ghost default = opt_str_view(default_marker);
    let mut out: Vec<String> = Vec::new();
    out.push(string_of("Accessible customers (tree):"));
    let mut rest: Vec<CustomerSummary> = Vec::new();
    let mut i: usize = 0;
    assert(sv.take(0) =~= Seq::<SummaryView>::empty());
    assert(crate::text::texts(out@) =~= seq!["Accessible customers (tree):"@] + mcc_blocks(
        sv.take(0),
        rv,
        login,
        default,
    ));
    assert(summary_views(rest@) =~= leftover(sv.take(0), rv));
    while i < summaries.len()
        invariant
            sv == summary_views(summaries@),
            rv == rel_views(relations@),
            login == opt_str_view(login_marker),
            default == opt_str_view(default_marker),
            i <= summaries.len(),
            crate::text::texts(out@) == seq!["Accessible customers (tree):"@] + mcc_blocks(
                sv.take(i as int),
                rv,
                login,
                default,
            ),
            summary_views(rest@) == leftover(sv.take(i as int), rv),
        decreases summaries.len() - i,
    {
        let s = &summaries[i];
        let ghost before = crate::text::texts(out@);
        let ghost rest_before = summary_views(rest@);
        if s.is_manager == Some(true) {
            let name: Option<&str> = match &s.name {
                Some(n) => Some(n.as_str()),
                None => None,
            };
            let mut head = string_of("MCC ");
            push_str(&mut head, s.id.as_str());
            let n = render_name(name);
            push_str(&mut head, n.as_str());
            let m = marker_suffix(s.id.as_str(), login_marker, default_marker);
            push_str(&mut head, m.as_str());
            let ghost hv = head@;
            out.push(head);
            let ghost with_head = crate::text::texts(out@);
            assert(with_head =~= before.push(hv));
            let mut listed = false;
            match find_children(relations, s.id.as_str()) {
                Some(k) => {
                    if relations[k].1.len() > 0 {
                        let sorted = sort_summaries(copy_summaries(relations[k].1.as_slice()));
                        push_lines(&mut out, "  - ", sorted.as_slice(), login_marker, default_marker);
                        assert(Seq::new(
                            sorted@.len(),
                            |j: int| summary_line("  - "@, sorted@[j]@, login, default),
                        ) =~= child_lines(summary_views(sorted@), login, default));
                        listed = true;
                    }
                },
                None => {},
            }
            if !listed {
                out.push(string_of("  - (no visible child accounts)"));
            }
            assert(crate::text::texts(out@) =~= before + mcc_block(s@, rv, login, default));
        } else {
            if !is_seen(relations, s.id.as_str()) {
                rest.push(s.copy());
            }
        }
        proof {
            let t = sv.take(i + 1);
            assert(t.drop_last() =~= sv.take(i as int));
            assert(t.last() == s@);
            assert(crate::text::texts(out@) =~= seq!["Accessible customers (tree):"@] + mcc_blocks(
                t,
                rv,
                login,
                default,
            ));
            assert(summary_views(rest@) =~= leftover(t, rv));
        }
        i = i + 1;
    }
    assert(sv.take(summaries.len() as int) =~= sv);
    let sorted_rest = sort_summaries(rest);
    if sorted_rest.len() > 0 {
        out.push(String::new());
        out.push(string_of("Directly accessible accounts:"));
        push_lines(&mut out, "- ", sorted_rest.as_slice(), login_marker, default_marker);
    }
    proof {
        reveal_strlit("");
        let lo = sort_by_id(leftover(sv, rv));
        assert(Seq::new(
            sorted_rest@.len(),
            |j: int| summary_line("- "@, sorted_rest@[j]@, login, default),
        ) =~= Seq::new(lo.len(), |j: int| summary_line("- "@, lo[j], login, default)));
    }
    assert(crate::text::texts(out@) =~= tree_lines(sv, rv, login, default));
    out
}

/// `s` padded with spaces to `w` characters, as `{:<w}` formats it.
pub open spec fn padded(s: Seq<char>, w: nat) -> Seq<char> {
    if s.len() >= w {
        s
    } else {
        s + Seq::new((w - s.len()) as nat, |i: int| ' ')
    }
}

/// One line of the doctor's report: `[STATUS] name (padded to 20) detail`.
pub open spec fn doctor_text(status: DoctorStatus, name: Seq<char>, detail: Seq<char>) -> Seq<char> {
    "["@ + status.label() + "] "@ + padded(name, 20) + " "@ + detail
}

pub fn doctor_line(status: DoctorStatus, name: &str, detail: &str) -> (r: String)
    ensures
        r@ == doctor_text(status, name@, detail@),
{
    let mut out = string_of("[");
    push_str(&mut out, status.as_str());
    push_str(&mut out, "] ");
    push_str(&mut out, name);
    let n = name.unicode_len();
    let ghost base = out@;
    let mut k: usize = n;
    while k < 20
        invariant
            n == name@.len(),
            n <= k <= 20 || (k == n && n > 20),
            out@ == base + Seq::new((k - n) as nat, |i: int| ' '),
        decreases 20 - k,
    {
        crate::text::push_char(&mut out, ' ');
        assert(out@ =~= base + Seq::new((k + 1 - n) as nat, |i: int| ' '));
        k = k + 1;
    }
    push_str(&mut out, " ");
    push_str(&mut out, detail);
    assert(out@ =~= doctor_text(status, name@, detail@));
    out
}

/// The verdict and detail of one doctor check.
#[derive(Debug)]
pub struct DoctorCheck {
    pub status: DoctorStatus,
    pub detail: String,
}

pub open spec fn nonblank_env(v: Option<&str>) -> bool {
    v is Some && trim(v->0@).len() > 0
}

/// What the developer token check reports, from `GOOGLE_ADS_DEVELOPER_TOKEN`.
pub open spec fn token_check(env: Option<Seq<char>>) -> (DoctorStatus, Seq<char>) {
    if env is Some && trim(env->0).len() > 0 {
        (DoctorStatus::Pass, "set ("@ + masked(encode_utf8(trim(env->0))) + ")"@)
    } else {
        (DoctorStatus::Fail, "missing GOOGLE_ADS_DEVELOPER_TOKEN"@)
    }
}

/// What the login customer ID check reports, from `GOOGLE_ADS_LOGIN_CUSTOMER_ID`.
pub open spec fn login_check(env: Option<Seq<char>>) -> (DoctorStatus, Seq<char>) {
    match env {
        None => (DoctorStatus::Warn, "unset (direct-account mode only)"@),
        Some(v) => if trim(v).len() == 0 {
            (DoctorStatus::Warn, "set but empty (ignored)"@)
        } else if valid_customer_id(v) {
            (DoctorStatus::Pass, trim(v))
        } else {
            (DoctorStatus::Fail, invalid_id_text("GOOGLE_ADS_LOGIN_CUSTOMER_ID"@, v))
        },
    }
}

/// What the default customer check reports, from what loading the profile gave.
pub open spec fn default_check(loaded: Result<Option<Seq<char>>, Seq<char>>) -> (DoctorStatus, Seq<char>) {
    match loaded {
        Ok(Some(id)) => (DoctorStatus::Pass, id + " (from gads use)"@),
        Ok(None) => (DoctorStatus::Warn, "unset (`gads use <CUSTOMER_ID>` to save)"@),
        Err(e) => (DoctorStatus::Warn, "failed to read profile: "@ + e),
    }
}

/// What the quota project check reports, from the project found and where.
pub open spec fn quota_check(found: Option<(Seq<char>, Seq<char>)>) -> (DoctorStatus, Seq<char>) {
    match found {
        Some((p, src)) => (DoctorStatus::Pass, p + " ("@ + src + ")"@),
        None => (DoctorStatus::Warn, "not found (ADC user creds may fail without this)"@),
    }
}

/// What the accessible customers check reports, from how many were listed.
pub open spec fn accessible_check(result: Result<nat, Seq<char>>) -> (DoctorStatus, Seq<char>) {
    match result {
        Ok(n) => if n == 0 {
            (DoctorStatus::Warn, "0 found"@)
        } else {
            (DoctorStatus::Pass, decimal(n) + " found"@)
        },
        Err(e) => (DoctorStatus::Fail, e),
    }
}

/// What a test query check reports for the customer queried.
pub open spec fn query_check(customer_id: Seq<char>, result: Result<(), Seq<char>>) -> (DoctorStatus, Seq<char>) {
    match result {
        Ok(_) => (DoctorStatus::Pass, "customer "@ + customer_id),
        Err(e) => (DoctorStatus::Fail, e),
    }
}

pub open spec fn profile_result_view(r: Result<Option<String>, String>) -> Result<Option<Seq<char>>, Seq<char>> {
    match r {
        Ok(o) => Ok(opt_view(o)),
        Err(e) => Err(e@),
    }
}

pub open spec fn unit_result(r: Result<(), String>) -> Result<(), Seq<char>> {
    match r {
        Ok(_) => Ok(()),
        Err(e) => Err(e@),
    }
}

/// The developer token check: set (shown masked) or missing.
pub fn check_developer_token(env_value: Option<&str>) -> (r: DoctorCheck)
    requires
        nonblank_env(env_value) ==> encode_utf8(trim(env_value->0@)).len() <= usize::MAX && (
        encode_utf8(trim(env_value->0@)).len() <= 6 || vstd::utf8::is_char_boundary(
            encode_utf8(trim(env_value->0@)),
            encode_utf8(trim(env_value->0@)).len() - 4,
        )),
    ensures
        (r.status, r.detail@) == token_check(opt_str_view(env_value)),
{
    if let Some(v) = env_value {
        let t = trim_str(v);
        if t.as_str().unicode_len() > 0 {
            let mut detail = string_of("set (");
            let masked_value = mask_secret(t.as_str());
            push_str(&mut detail, masked_value.as_str());
            push_str(&mut detail, ")");
            return DoctorCheck { status: DoctorStatus::Pass, detail };
        }
    }
    DoctorCheck {
        status: DoctorStatus::Fail,
        detail: string_of("missing GOOGLE_ADS_DEVELOPER_TOKEN"),
    }
}

/// The login customer ID check: unset, blank, a valid ID, or an invalid one.
pub fn check_login_customer_id(env_value: Option<&str>) -> (r: DoctorCheck)
    ensures
        (r.status, r.detail@) == login_check(opt_str_view(env_value)),
{
    match env_value {
        None => DoctorCheck {
            status: DoctorStatus::Warn,
            detail: string_of("unset (direct-account mode only)"),
        },
        Some(v) => {
            let t = trim_str(v);
            if t.as_str().unicode_len() == 0 {
                return DoctorCheck {
                    status: DoctorStatus::Warn,
                    detail: string_of("set but empty (ignored)"),
                };
            }
            match normalize_customer_id(v, "GOOGLE_ADS_LOGIN_CUSTOMER_ID") {
                Ok(id) => DoctorCheck { status: DoctorStatus::Pass, detail: id },
                Err(err) => {
                    let detail = err.to_string();
                    DoctorCheck { status: DoctorStatus::Fail, detail }
                },
            }
        },
    }
}

/// The default customer check, given what loading the profile gave.
pub fn check_default_customer(loaded: Result<Option<String>, String>) -> (r: DoctorCheck)
    ensures
        (r.status, r.detail@) == default_check(profile_result_view(loaded)),
{
    match loaded {
        Ok(Some(id)) => {
            let mut detail = id;
            push_str(&mut detail, " (from gads use)");
            DoctorCheck { status: DoctorStatus::Pass, detail }
        },
        Ok(None) => DoctorCheck {
            status: DoctorStatus::Warn,
            detail: string_of("unset (`gads use <CUSTOMER_ID>` to save)"),
        },
        Err(e) => {
            let mut detail = string_of("failed to read profile: ");
            push_str(&mut detail, e.as_str());
            DoctorCheck { status: DoctorStatus::Warn, detail }
        },
    }
}

/// The quota project check, given the project found and where it was found.
pub fn check_quota_project(found: Option<(String, String)>) -> (r: DoctorCheck)
    ensures
        (r.status, r.detail@) == quota_check(opt_pair_view(found)),
{
    match found {
        Some((p, src)) => {
            let mut detail = p;
            push_str(&mut detail, " (");
            push_str(&mut detail, src.as_str());
            push_str(&mut detail, ")");
            DoctorCheck { status: DoctorStatus::Pass, detail }
        },
        None => DoctorCheck {
            status: DoctorStatus::Warn,
            detail: string_of("not found (ADC user creds may fail without this)"),
        },
    }
}

/// The client set-up check, given the error message where set-up failed.
pub fn check_bootstrap(result: Result<(), String>) -> (r: DoctorCheck)
    ensures
        match result {
            Ok(_) => r.status == DoctorStatus::Pass && r.detail@ == "client init (no-login mode)"@,
            Err(e) => r.status == DoctorStatus::Fail && r.detail@ == e@,
        },
{
    match result {
        Ok(_) => DoctorCheck {
            status: DoctorStatus::Pass,
            detail: string_of("client init (no-login mode)"),
        },
        Err(e) => DoctorCheck { status: DoctorStatus::Fail, detail: e },
    }
}

/// The accessible customers check, given how many were listed or the error message.
pub fn check_accessible_customers(result: Result<usize, String>) -> (r: DoctorCheck)
    ensures
        (r.status, r.detail@) == accessible_check(
            match result {
                Ok(n) => Ok(n as nat),
                Err(e) => Err(e@),
            },
        ),
{
    match result {
        Ok(n) => {
            if n == 0 {
                DoctorCheck { status: DoctorStatus::Warn, detail: string_of("0 found") }
            } else {
                let mut detail = String::new();
                push_decimal(&mut detail, n as u64);
                push_str(&mut detail, " found");
                assert(detail@ =~= decimal(n as nat) + " found"@);
                DoctorCheck { status: DoctorStatus::Pass, detail }
            }
        },
        Err(e) => DoctorCheck { status: DoctorStatus::Fail, detail: e },
    }
}

/// A test query check, given the customer queried and the error message where it failed.
pub fn check_query(customer_id: &str, result: Result<(), String>) -> (r: DoctorCheck)
    ensures
        (r.status, r.detail@) == query_check(customer_id@, unit_result(result)),
{
    match result {
        Ok(_) => DoctorCheck { status: DoctorStatus::Pass, detail: prefixed("customer ", customer_id) },
        Err(e) => DoctorCheck { status: DoctorStatus::Fail, detail: e },
    }
}

/// The closing lines of the doctor's report: the quota project hint where no quota project
/// was found, then the result (an empty string stands for a blank line).
pub open spec fn doctor_end_lines(has_fail: bool, needs_quota_hint: bool) -> Seq<Seq<char>> {
    let hint: Seq<Seq<char>> = if needs_quota_hint {
        seq![
            Seq::empty(),
            "Hint:"@,
            "  gcloud auth application-default set-quota-project <PROJECT_ID>"@,
            "  export GOOGLE_CLOUD_QUOTA_PROJECT=<PROJECT_ID>"@,
        ]
    } else {
        Seq::empty()
    };
    hint + seq![
        Seq::empty(),
        if has_fail {
            "Result: FAIL"@
        } else {
            "Result: OK"@
        },
    ]
}

pub fn doctor_end(has_fail: bool, needs_quota_hint: bool) -> (r: Vec<String>)
    ensures
        crate::text::texts(r@) == doctor_end_lines(has_fail, needs_quota_hint),
{
    let mut out: Vec<String> = Vec::new();
    if needs_quota_hint {
        out.push(String::new());
        out.push(string_of("Hint:"));
        out.push(string_of("  gcloud auth application-default set-quota-project <PROJECT_ID>"));
        out.push(string_of("  export GOOGLE_CLOUD_QUOTA_PROJECT=<PROJECT_ID>"));
    }
    out.push(String::new());
    if has_fail {
        out.push(string_of("Result: FAIL"));
    } else {
        out.push(string_of("Result: OK"));
    }
    assert(crate::text::texts(out@) =~= doctor_end_lines(has_fail, needs_quota_hint));
    out
}

pub open spec fn skipped_query_detail() -> Seq<char> {
    "skipped (no accessible customers)"@
}

/// The check of the query with the login customer ID when no customer was found to query.
pub fn check_query_skipped() -> (r: DoctorCheck)
    ensures
        r.status == DoctorStatus::Warn && r.detail@ == skipped_query_detail(),
{
    DoctorCheck { status: DoctorStatus::Warn, detail: string_of("skipped (no accessible customers)") }
}

/// Whether the doctor also queries with the login customer ID: only where
/// `GOOGLE_ADS_LOGIN_CUSTOMER_ID` is set and not blank.
pub fn login_query_wanted(env_value: Option<&str>) -> (r: bool)
    ensures
        r == nonblank_env(env_value),
{
    match env_value {
        Some(v) => trim_str(v).as_str().unicode_len() > 0,
        None => false,
    }
}

/// The doctor's report as it is written: the heading, one line per check, and what decides
/// its closing lines.
pub struct DoctorReport {
    pub lines: Vec<String>,
    pub has_fail: bool,
    pub needs_quota_hint: bool,
}

impl DoctorReport {
    /// The report before any check: its two heading lines.
    pub fn new() -> (r: DoctorReport)
        ensures
            crate::text::texts(r.lines@) == seq!["gads doctor"@, "-----------"@],
            !r.has_fail,
            !r.needs_quota_hint,
    {
        let mut lines: Vec<String> = Vec::new();
        lines.push(string_of("gads doctor"));
        lines.push(string_of("-----------"));
        DoctorReport { lines, has_fail: false, needs_quota_hint: false }
    }

    /// Writes the line of one check; a failed check makes the whole report fail.
    pub fn record(&mut self, name: &str, check: DoctorCheck)
        ensures
            crate::text::texts(final(self).lines@) == crate::text::texts(old(self).lines@).push(
                doctor_text(check.status, name@, check.detail@),
            ),
            final(self).has_fail == (old(self).has_fail || check.status == DoctorStatus::Fail),
            final(self).needs_quota_hint == old(self).needs_quota_hint,
    {
        let line = doctor_line(check.status, name, check.detail.as_str());
        let ghost before = self.lines@;
        self.lines.push(line);
        assert(crate::text::texts(self.lines@) =~= crate::text::texts(before).push(
            doctor_text(check.status, name@, check.detail@),
        ));
        if check.status == DoctorStatus::Fail {
            self.has_fail = true;
        }
    }

    /// Writes the quota project check; where no quota project was found, the report closes
    /// with the hint on how to set one.
    pub fn record_quota_project(&mut self, found: Option<(String, String)>)
        ensures
            crate::text::texts(final(self).lines@) == crate::text::texts(old(self).lines@).push(
                doctor_text(
                    if found is Some { DoctorStatus::Pass } else { DoctorStatus::Warn },
                    "quota project"@,
                    match found {
                        Some((p, src)) => p@ + " ("@ + src@ + ")"@,
                        None => "not found (ADC user creds may fail without this)"@,
                    },
                ),
            ),
            final(self).has_fail == old(self).has_fail,
            final(self).needs_quota_hint == (old(self).needs_quota_hint || found is None),
    {
        let missing = found.is_none();
        let check = check_quota_project(found);
        self.record("quota project", check);
        if missing {
            self.needs_quota_hint = true;
        }
    }

    /// The whole report with its closing lines, and whether every check passed.
    pub fn finish(self) -> (r: (Vec<String>, bool))
        ensures
            crate::text::texts(r.0@) == crate::text::texts(self.lines@) + doctor_end_lines(
                self.has_fail,
                self.needs_quota_hint,
            ),
            r.1 == !self.has_fail,
    {
        let mut lines = self.lines;
        let end = doctor_end(self.has_fail, self.needs_quota_hint);
        let ghost before = lines@;
        let mut i: usize = 0;
        while i < end.len()
            invariant
                i <= end.len(),
                crate::text::texts(lines@) == crate::text::texts(before) + crate::text::texts(end@).take(i as int),
            decreases end.len() - i,
        {
            let ghost prev = lines@;
            lines.push(string_of(end[i].as_str()));
            assert(crate::text::texts(lines@) =~= crate::text::texts(prev).push(end@[i as int]@));
            proof {
                let t = crate::text::texts(end@).take(i + 1);
                assert(t =~= crate::text::texts(end@).take(i as int).push(end@[i as int]@));
            }
            assert(crate::text::texts(lines@) =~= crate::text::texts(before) + crate::text::texts(end@).take(i + 1));
            i = i + 1;
        }
        assert(crate::text::texts(end@).take(end.len() as int) =~= crate::text::texts(end@));
        (lines, !self.has_fail)
    }
}

pub open spec fn doctor_failed_message() -> Seq<char> {
    "doctor found blocking issues"@
}

/// The error that `gads doctor` ends with when a check failed.
pub fn doctor_failure() -> (r: String)
    ensures
        r@ == doctor_failed_message(),
{
    string_of("doctor found blocking issues")
}

/// The default credentials file under a home directory.
pub fn default_adc_path(home: &str) -> (r: String)
    ensures
        r@ == path_join(home@, ".config/gcloud/application_default_credentials.json"@),
{
    join_path(home, ".config/gcloud/application_default_credentials.json")
}

/// Where the doctor finds the quota project: `GOOGLE_CLOUD_QUOTA_PROJECT` or
/// `GOOGLE_CLOUD_PROJECT` (trimmed, not blank), else the credentials file named by
/// `GOOGLE_APPLICATION_CREDENTIALS` (trimmed, not blank), else the default credentials file.
pub open spec fn quota_source_spec(
    quota_env: Option<Seq<char>>,
    project_env: Option<Seq<char>>,
    adc_env: Option<Seq<char>>,
    adc_quota: Option<Seq<char>>,
    default_path: Option<Seq<char>>,
    default_quota: Option<Seq<char>>,
) -> Option<(Seq<char>, Seq<char>)> {
    if quota_env is Some && trim(quota_env->0).len() > 0 {
        Some((trim(quota_env->0), "env:GOOGLE_CLOUD_QUOTA_PROJECT"@))
    } else if project_env is Some && trim(project_env->0).len() > 0 {
        Some((trim(project_env->0), "env:GOOGLE_CLOUD_PROJECT"@))
    } else if adc_env is Some && trim(adc_env->0).len() > 0 && adc_quota is Some {
        Some((adc_quota->0, "adc:"@ + trim(adc_env->0)))
    } else if default_path is Some && default_quota is Some {
        Some((default_quota->0, "adc:"@ + default_path->0))
    } else {
        None
    }
}

pub open spec fn opt_pair_view(o: Option<(String, String)>) -> Option<(Seq<char>, Seq<char>)> {
    match o {
        Some((a, b)) => Some((a@, b@)),
        None => None,
    }
}

/// The quota project and where it was found. `adc_quota` is the quota project of the file
/// that `GOOGLE_APPLICATION_CREDENTIALS` names (trimmed), `default_path` the default
/// credentials file (where `HOME` is set) and `default_quota` its quota project.
pub fn detect_quota_project_source(
    quota_env: Option<&str>,
    project_env: Option<&str>,
    adc_env: Option<&str>,
    adc_quota: Option<String>,
    default_path: Option<String>,
    default_quota: Option<String>,
) -> (r: Option<(String, String)>)
    ensures
        opt_pair_view(r) == quota_source_spec(
            opt_str_view(quota_env),
            opt_str_view(project_env),
            opt_str_view(adc_env),
            opt_view(adc_quota),
            opt_view(default_path),
            opt_view(default_quota),
        ),
{
    if let Some(v) = quota_env {
        let t = trim_str(v);
        if t.as_str().unicode_len() > 0 {
            return Some((t, string_of("env:GOOGLE_CLOUD_QUOTA_PROJECT")));
        }
    }
    if let Some(v) = project_env {
        let t = trim_str(v);
        if t.as_str().unicode_len() > 0 {
            return Some((t, string_of("env:GOOGLE_CLOUD_PROJECT")));
        }
    }
    if let Some(path) = adc_env {
        let t = trim_str(path);
        if t.as_str().unicode_len() > 0 {
            if let Some(q) = adc_quota {
                return Some((q, prefixed("adc:", t.as_str())));
            }
        }
    }
    if let Some(path) = default_path {
        if let Some(q) = default_quota {
            return Some((q, prefixed("adc:", path.as_str())));
        }
    }
    None
}

/// The default credentials file under a home directory, where `HOME` is set.
pub open spec fn default_adc(home: Option<Seq<char>>) -> Option<Seq<char>> {
    match home {
        Some(h) => Some(path_join(h, ".config/gcloud/application_default_credentials.json"@)),
        None => None,
    }
}

/// The quota project that the doctor reports is the one that requests carry. Given the same
/// environment, and the same quota project `quota_in(p)` read from the file at each path
/// `p` (none from the empty path), where `GOOGLE_APPLICATION_CREDENTIALS` is unset or has
/// no surrounding white space: the doctor trims that path and skips it when blank, requests
/// read it as it is, and both fall back to the default credentials file.
pub proof fn lemma_quota_source_agrees(
    quota_env: Option<Seq<char>>,
    project_env: Option<Seq<char>>,
    adc_env: Option<Seq<char>>,
    home: Option<Seq<char>>,
    quota_in: spec_fn(Seq<char>) -> Option<Seq<char>>,
)
    requires
        adc_env matches Some(p) ==> trim(p) == p,
        quota_in(Seq::empty()) is None,
    ensures
        ({
            let adc_doctor = match adc_env {
                Some(p) => if trim(p).len() > 0 {
                    quota_in(trim(p))
                } else {
                    None
                },
                None => None,
            };
            let adc_request = match adc_env {
                Some(p) => quota_in(p),
                None => None,
            };
            let default_quota = match default_adc(home) {
                Some(d) => quota_in(d),
                None => None,
            };
            (match quota_source_spec(
                quota_env,
                project_env,
                adc_env,
                adc_doctor,
                default_adc(home),
                default_quota,
            ) {
                Some((q, _)) => Some(q),
                None => None,
            }) == quota_project_spec(quota_env, project_env, adc_request, default_quota)
        }),
{
    if let Some(p) = adc_env {
        if p.len() == 0 {
            assert(p =~= Seq::<char>::empty());
        }
    }
}

/// Where the doctor stands between its outside steps.
#[derive(Debug, Clone, Copy, PartialEq, Eq, Structural)]
pub enum DoctorPhase {
    /// Waiting for the client without a login customer ID.
    InspectClient,
    /// Waiting for the list of accessible customers.
    ListCustomers,
    /// Waiting for the test query without a login customer ID.
    QueryNoLogin,
    /// Waiting for the client with the login customer ID.
    LoginClient,
    /// Waiting for the test query with the login customer ID.
    QueryWithLogin,
    /// Every check is written.
    Done,
}

/// What an outside step of the doctor gave.
pub enum DoctorEvent {
    /// A client was made, or the error message of its set-up.
    Made(Result<(), String>),
    /// The accessible customers, or the error message of the listing.
    Listed(Result<Vec<String>, String>),
    /// A test query ran, or the error message of its failure.
    Queried(Result<(), String>),
}

/// The outside step the doctor asks for next.
#[derive(Debug)]
pub enum DoctorAction {
    /// Make the client without a login customer ID.
    MakeInspectClient,
    /// List the accessible customers with that client.
    ListCustomers,
    /// Run the test query for `customer_id`, with the client that has the login customer ID
    /// where `with_login`, else with the other one.
    Query { customer_id: String, with_login: bool },
    /// Make the client with the login customer ID.
    MakeLoginClient,
    /// Nothing more: the report can be finished.
    Done,
}

/// A doctor's run: the report so far and what it waits for.
pub struct DoctorRun {
    pub report: DoctorReport,
    pub phase: DoctorPhase,
    /// The first accessible customer, once the customers are listed.
    pub first_customer: Option<String>,
    /// Whether the test query with the login customer ID is wanted.
    pub login_wanted: bool,
}

/// Model of a doctor's run.
pub struct RunView {
    pub lines: Seq<Seq<char>>,
    pub has_fail: bool,
    pub needs_quota_hint: bool,
    pub phase: DoctorPhase,
    pub first: Option<Seq<char>>,
    pub login_wanted: bool,
}

/// Model of an event.
pub enum EventView {
    Made(Result<(), Seq<char>>),
    Listed(Result<Seq<Seq<char>>, Seq<char>>),
    Queried(Result<(), Seq<char>>),
}

/// Model of an action.
pub enum ActionView {
    MakeInspectClient,
    ListCustomers,
    Query(Seq<char>, bool),
    MakeLoginClient,
    Done,
}

impl DoctorRun {
    pub open spec fn view(&self) -> RunView {
        RunView {
            lines: crate::text::texts(self.report.lines@),
            has_fail: self.report.has_fail,
            needs_quota_hint: self.report.needs_quota_hint,
            phase: self.phase,
            first: opt_view(self.first_customer),
            login_wanted: self.login_wanted,
        }
    }
}

impl DoctorEvent {
    pub open spec fn view(&self) -> EventView {
        match self {
            DoctorEvent::Made(r) => EventView::Made(unit_result(*r)),
            DoctorEvent::Listed(r) => EventView::Listed(
                match r {
                    Ok(ids) => Ok(crate::text::texts(ids@)),
                    Err(e) => Err(e@),
                },
            ),
            DoctorEvent::Queried(r) => EventView::Queried(unit_result(*r)),
        }
    }
}

impl DoctorAction {
    pub open spec fn view(&self) -> ActionView {
        match self {
            DoctorAction::MakeInspectClient => ActionView::MakeInspectClient,
            DoctorAction::ListCustomers => ActionView::ListCustomers,
            DoctorAction::Query { customer_id, with_login } => ActionView::Query(customer_id@, *with_login),
            DoctorAction::MakeLoginClient => ActionView::MakeLoginClient,
            DoctorAction::Done => ActionView::Done,
        }
    }
}

/// The run with the line of one more check written.
pub open spec fn recorded(s: RunView, name: Seq<char>, c: (DoctorStatus, Seq<char>)) -> RunView {
    RunView {
        lines: s.lines.push(doctor_text(c.0, name, c.1)),
        has_fail: s.has_fail || c.0 == DoctorStatus::Fail,
        ..s
    }
}

pub open spec fn with_phase(s: RunView, p: DoctorPhase) -> RunView {
    RunView { phase: p, ..s }
}

pub open spec fn first_or_empty(s: RunView) -> Seq<char> {
    match s.first {
        Some(f) => f,
        None => Seq::empty(),
    }
}

/// After the checks without a login customer ID: the client with it where it is wanted,
/// else the end.
pub open spec fn login_stage(s: RunView) -> (RunView, ActionView) {
    if s.login_wanted {
        (with_phase(s, DoctorPhase::LoginClient), ActionView::MakeLoginClient)
    } else {
        (with_phase(s, DoctorPhase::Done), ActionView::Done)
    }
}

/// The step that a run in its phase waits for.
pub open spec fn pending_action(s: RunView) -> ActionView {
    match s.phase {
        DoctorPhase::InspectClient => ActionView::MakeInspectClient,
        DoctorPhase::ListCustomers => ActionView::ListCustomers,
        DoctorPhase::QueryNoLogin => ActionView::Query(first_or_empty(s), false),
        DoctorPhase::LoginClient => ActionView::MakeLoginClient,
        DoctorPhase::QueryWithLogin => ActionView::Query(first_or_empty(s), true),
        DoctorPhase::Done => ActionView::Done,
    }
}

/// The doctor's decisions: from a run and what its outside step gave, the next run and the
/// next step. An event that the phase does not wait for changes nothing.
pub open spec fn doctor_step(s: RunView, e: EventView) -> (RunView, ActionView) {
    match s.phase {
        DoctorPhase::InspectClient => match e {
            EventView::Made(Ok(_)) => (
                with_phase(
                    recorded(s, "auth/bootstrap"@, (DoctorStatus::Pass, "client init (no-login mode)"@)),
                    DoctorPhase::ListCustomers,
                ),
                ActionView::ListCustomers,
            ),
            EventView::Made(Err(m)) => login_stage(recorded(s, "auth/bootstrap"@, (DoctorStatus::Fail, m))),
            _ => (s, pending_action(s)),
        },
        DoctorPhase::ListCustomers => match e {
            EventView::Listed(Ok(ids)) => {
                let s1 = recorded(s, "accessible customers"@, accessible_check(Ok(ids.len())));
                if ids.len() > 0 {
                    (
                        RunView { phase: DoctorPhase::QueryNoLogin, first: Some(ids[0]), ..s1 },
                        ActionView::Query(ids[0], false),
                    )
                } else {
                    login_stage(s1)
                }
            },
            EventView::Listed(Err(m)) => login_stage(
                recorded(s, "accessible customers"@, accessible_check(Err(m))),
            ),
            _ => (s, pending_action(s)),
        },
        DoctorPhase::QueryNoLogin => match e {
            EventView::Queried(r) => login_stage(
                recorded(s, "query (no-login)"@, query_check(first_or_empty(s), r)),
            ),
            _ => (s, pending_action(s)),
        },
        DoctorPhase::LoginClient => match e {
            EventView::Made(Ok(_)) => match s.first {
                Some(f) => (with_phase(s, DoctorPhase::QueryWithLogin), ActionView::Query(f, true)),
                None => (
                    with_phase(
                        recorded(s, "query (with login)"@, (DoctorStatus::Warn, skipped_query_detail())),
                        DoctorPhase::Done,
                    ),
                    ActionView::Done,
                ),
            },
            EventView::Made(Err(m)) => (
                with_phase(recorded(s, "query (with login)"@, (DoctorStatus::Fail, m)), DoctorPhase::Done),
                ActionView::Done,
            ),
            _ => (s, pending_action(s)),
        },
        DoctorPhase::QueryWithLogin => match e {
            EventView::Queried(r) => (
                with_phase(
                    recorded(s, "query (with login)"@, query_check(first_or_empty(s), r)),
                    DoctorPhase::Done,
                ),
                ActionView::Done,
            ),
            _ => (s, pending_action(s)),
        },
        DoctorPhase::Done => (s, ActionView::Done),
    }
}

/// The doctor's run after its checks that need no request: the heading, then the developer
/// token, login customer ID, default customer and quota project checks.
pub open spec fn doctor_start(
    token_env: Option<Seq<char>>,
    login_env: Option<Seq<char>>,
    loaded: Result<Option<Seq<char>>, Seq<char>>,
    found: Option<(Seq<char>, Seq<char>)>,
) -> RunView {
    let t = token_check(token_env);
    let l = login_check(login_env);
    let d = default_check(loaded);
    let q = quota_check(found);
    RunView {
        lines: seq![
            "gads doctor"@,
            "-----------"@,
            doctor_text(t.0, "developer token"@, t.1),
            doctor_text(l.0, "login customer id"@, l.1),
            doctor_text(d.0, "default customer"@, d.1),
            doctor_text(q.0, "quota project"@, q.1),
        ],
        has_fail: t.0 == DoctorStatus::Fail || l.0 == DoctorStatus::Fail || d.0 == DoctorStatus::Fail,
        needs_quota_hint: found is None,
        phase: DoctorPhase::InspectClient,
        first: None,
        login_wanted: login_env is Some && trim(login_env->0).len() > 0,
    }
}

fn action_for(phase: DoctorPhase, first: &Option<String>) -> (r: DoctorAction)
    ensures
        r@ == pending_action(RunView {
            lines: Seq::empty(),
            has_fail: false,
            needs_quota_hint: false,
            phase,
            first: opt_view(*first),
            login_wanted: false,
        }),
{
    let f = match first {
        Some(f) => string_of(f.as_str()),
        None => String::new(),
    };
    match phase {
        DoctorPhase::InspectClient => DoctorAction::MakeInspectClient,
        DoctorPhase::ListCustomers => DoctorAction::ListCustomers,
        DoctorPhase::QueryNoLogin => DoctorAction::Query { customer_id: f, with_login: false },
        DoctorPhase::LoginClient => DoctorAction::MakeLoginClient,
        DoctorPhase::QueryWithLogin => DoctorAction::Query { customer_id: f, with_login: true },
        DoctorPhase::Done => DoctorAction::Done,
    }
}

impl DoctorRun {
    /// Starts the doctor: writes the checks that need no request and asks for the client
    /// without a login customer ID.
    pub fn start(
        token_env: Option<&str>,
        login_env: Option<&str>,
        loaded: Result<Option<String>, String>,
        found: Option<(String, String)>,
    ) -> (r: (DoctorRun, DoctorAction))
        requires
            nonblank_env(token_env) ==> encode_utf8(trim(token_env->0@)).len() <= usize::MAX && (
            encode_utf8(trim(token_env->0@)).len() <= 6 || vstd::utf8::is_char_boundary(
                encode_utf8(trim(token_env->0@)),
                encode_utf8(trim(token_env->0@)).len() - 4,
            )),
        ensures
            r.0@ == doctor_start(
                opt_str_view(token_env),
                opt_str_view(login_env),
                profile_result_view(loaded),
                opt_pair_view(found),
            ),
            r.1@ == ActionView::MakeInspectClient,
    {
        let ghost loaded_view = profile_result_view(loaded);
        let ghost found_view = opt_pair_view(found);
        let mut report = DoctorReport::new();
        report.record("developer token", check_developer_token(token_env));
        report.record("login customer id", check_login_customer_id(login_env));
        report.record("default customer", check_default_customer(loaded));
        report.record_quota_project(found);
        let login_wanted = login_query_wanted(login_env);
        let run = DoctorRun { report, phase: DoctorPhase::InspectClient, first_customer: None, login_wanted };
        assert(run@.lines =~= doctor_start(
            opt_str_view(token_env),
            opt_str_view(login_env),
            loaded_view,
            found_view,
        ).lines);
        (run, DoctorAction::MakeInspectClient)
    }

    fn record_check(&mut self, name: &str, check: DoctorCheck)
        ensures
            final(self)@ == recorded(old(self)@, name@, (check.status, check.detail@)),
    {
        self.report.record(name, check);
    }

    fn enter_login_stage(&mut self) -> (r: DoctorAction)
        ensures
            (final(self)@, r@) == login_stage(old(self)@),
    {
        if self.login_wanted {
            self.phase = DoctorPhase::LoginClient;
            DoctorAction::MakeLoginClient
        } else {
            self.phase = DoctorPhase::Done;
            DoctorAction::Done
        }
    }

    /// Takes what the last outside step gave, writes the check it decides, and says which
    /// step comes next.
    pub fn step(&mut self, event: DoctorEvent) -> (r: DoctorAction)
        ensures
            (final(self)@, r@) == doctor_step(old(self)@, event@),
    {
        let ghost e = event@;
        let first = match &self.first_customer {
            Some(f) => string_of(f.as_str()),
            None => String::new(),
        };
        match (self.phase, event) {
            (DoctorPhase::InspectClient, DoctorEvent::Made(result)) => {
                match result {
                    Ok(_) => {
                        self.record_check("auth/bootstrap", check_bootstrap(Ok(())));
                        self.phase = DoctorPhase::ListCustomers;
                        DoctorAction::ListCustomers
                    },
                    Err(m) => {
                        self.record_check("auth/bootstrap", check_bootstrap(Err(m)));
                        self.enter_login_stage()
                    },
                }
            },
            (DoctorPhase::ListCustomers, DoctorEvent::Listed(result)) => {
                match result {
                    Ok(ids) => {
                        self.record_check("accessible customers", check_accessible_customers(Ok(ids.len())));
                        if ids.len() > 0 {
                            let f0 = string_of(ids[0].as_str());
                            let f1 = string_of(ids[0].as_str());
                            self.first_customer = Some(f0);
                            self.phase = DoctorPhase::QueryNoLogin;
                            DoctorAction::Query { customer_id: f1, with_login: false }
                        } else {
                            self.enter_login_stage()
                        }
                    },
                    Err(m) => {
                        self.record_check("accessible customers", check_accessible_customers(Err(m)));
                        self.enter_login_stage()
                    },
                }
            },
            (DoctorPhase::QueryNoLogin, DoctorEvent::Queried(result)) => {
                self.record_check("query (no-login)", check_query(first.as_str(), result));
                self.enter_login_stage()
            },
            (DoctorPhase::LoginClient, DoctorEvent::Made(result)) => {
                match result {
                    Ok(_) => {
                        if self.first_customer.is_some() {
                            self.phase = DoctorPhase::QueryWithLogin;
                            DoctorAction::Query { customer_id: first, with_login: true }
                        } else {
                            self.record_check("query (with login)", check_query_skipped());
                            self.phase = DoctorPhase::Done;
                            DoctorAction::Done
                        }
                    },
                    Err(m) => {
                        self.record_check("query (with login)", DoctorCheck { status: DoctorStatus::Fail, detail: m });
                        self.phase = DoctorPhase::Done;
                        DoctorAction::Done
                    },
                }
            },
            (DoctorPhase::QueryWithLogin, DoctorEvent::Queried(result)) => {
                self.record_check("query (with login)", check_query(first.as_str(), result));
                self.phase = DoctorPhase::Done;
                DoctorAction::Done
            },
            (DoctorPhase::Done, _) => DoctorAction::Done,
            _ => action_for(self.phase, &self.first_customer),
        }
    }

    /// The whole report with its closing lines, and whether every check passed.
    pub fn finish(self) -> (r: (Vec<String>, bool))
        ensures
            crate::text::texts(r.0@) == self@.lines + doctor_end_lines(self@.has_fail, self@.needs_quota_hint),
            r.1 == !self@.has_fail,
    {
        self.report.finish()
    }
}

/// A failed check stays failed: no step of the doctor clears a failure, and a report with
/// a failure ends with `Result: FAIL`.
pub proof fn lemma_doctor_failure_sticks(s: RunView, e: EventView, needs_quota_hint: bool)
    ensures
        s.has_fail ==> doctor_step(s, e).0.has_fail,
        s.has_fail ==> doctor_end_lines(s.has_fail, needs_quota_hint).last() == "Result: FAIL"@,
{
}

/// A listing of accessible customers that fails is a failing check: its line reads
/// `[FAIL] accessible customers` and the error, and the doctor's report then fails.
pub proof fn lemma_failed_listing_fails(s: RunView, err: Seq<char>)
    requires
        s.phase == DoctorPhase::ListCustomers,
    ensures
        accessible_check(Err(err)).0 == DoctorStatus::Fail,
        doctor_step(s, EventView::Listed(Err(err))).0.has_fail,
        doctor_step(s, EventView::Listed(Err(err))).0.lines == s.lines.push(
            "[FAIL] "@ + padded("accessible customers"@, 20) + " "@ + err,
        ),
{
    reveal_strlit("FAIL");
    reveal_strlit("[");
    reveal_strlit("] ");
    reveal_strlit("[FAIL] ");
    assert("["@ + "FAIL"@ + "] "@ =~= "[FAIL] "@);
    let line = doctor_text(DoctorStatus::Fail, "accessible customers"@, err);
    assert(line =~= "[FAIL] "@ + padded("accessible customers"@, 20) + " "@ + err);
}

proof fn lemma_leftover_contains(s: Seq<SummaryView>, rel: Seq<(Seq<char>, Seq<SummaryView>)>, i: int)
    requires
        0 <= i < s.len(),
        s[i].is_manager != Some(true),
        !seen_as_child(rel, s[i].id),
    ensures
        leftover(s, rel).contains(s[i]),
    decreases s.len(),
{
    let init = s.drop_last();
    if i == s.len() - 1 {
        assert(s.last() == s[i]);
        let l = leftover(s, rel);
        assert(l[l.len() - 1] == s[i]);
    } else {
        assert(init[i] == s[i]);
        lemma_leftover_contains(init, rel, i);
        let k = choose|k: int| 0 <= k < leftover(init, rel).len() && leftover(init, rel)[k] == s[i];
        assert(leftover(s, rel)[k] == s[i]);
    }
}

/// Every accessible customer that is not a manager and that no manager lists as a child
/// is shown under `Directly accessible accounts:` as `- ROLE ID (name) [markers]`, whatever
/// its role (`UNKNOWN` where it could not be read).
pub proof fn lemma_tree_lists_every_account(
    s: Seq<SummaryView>,
    rel: Seq<(Seq<char>, Seq<SummaryView>)>,
    login: Option<Seq<char>>,
    default: Option<Seq<char>>,
    i: int,
)
    requires
        0 <= i < s.len(),
        s[i].is_manager != Some(true),
        !seen_as_child(rel, s[i].id),
    ensures
        tree_lines(s, rel, login, default).contains(
            "- "@ + role(s[i].is_manager) + " "@ + s[i].id + name_suffix(s[i].name) + markers(
                s[i].id,
                login,
                default,
            ),
        ),
        tree_lines(s, rel, login, default).contains("Directly accessible accounts:"@),
        s[i].is_manager is None ==> role(s[i].is_manager) == "UNKNOWN"@,
{
    broadcast use vstd::seq_lib::group_to_multiset_ensures;

    let l = leftover(s, rel);
    lemma_leftover_contains(s, rel, i);
    lemma_sort_by_id(l);
    let lo = sort_by_id(l);
    assert(l.to_multiset().count(s[i]) > 0);
    assert(lo.contains(s[i]));
    let k = choose|k: int| 0 <= k < lo.len() && lo[k] == s[i];
    let blocks = mcc_blocks(s, rel, login, default);
    let t = tree_lines(s, rel, login, default);
    let tail = Seq::new(lo.len(), |j: int| summary_line("- "@, lo[j], login, default));
    assert(t == seq!["Accessible customers (tree):"@] + blocks + (seq![Seq::empty(), "Directly accessible accounts:"@] + tail));
    let idx = 1 + blocks.len() + 2 + k;
    assert(t[idx] == tail[k]);
    assert(t[(1 + blocks.len() + 1) as int] == "Directly accessible accounts:"@);
}

proof fn lemma_ids_where_none(s: Seq<SummaryView>, m: bool)
    requires
        forall|j: int| 0 <= j < s.len() ==> (#[trigger] s[j]).is_manager != Some(m),
    ensures
        ids_where(s, m) == Seq::<Seq<char>>::empty(),
    decreases s.len(),
{
    if s.len() > 0 {
        lemma_ids_where_none(s.drop_last(), m);
        assert(s[s.len() - 1] == s.last());
        assert(ids_where(s, m) =~= Seq::<Seq<char>>::empty());
    }
}

proof fn lemma_ids_where_single(s: Seq<SummaryView>, m: bool, jm: int)
    requires
        0 <= jm < s.len(),
        s[jm].is_manager == Some(m),
        forall|j: int| 0 <= j < s.len() && j != jm ==> (#[trigger] s[j]).is_manager != Some(m),
    ensures
        ids_where(s, m) == seq![s[jm].id],
    decreases s.len(),
{
    let init = s.drop_last();
    if jm == s.len() - 1 {
        assert forall|j: int| 0 <= j < init.len() implies (#[trigger] init[j]).is_manager != Some(m) by {
            assert(init[j] == s[j]);
        }
        lemma_ids_where_none(init, m);
        assert(ids_where(s, m) =~= seq![s[jm].id]);
    } else {
        assert forall|j: int| 0 <= j < init.len() && j != jm implies (#[trigger] init[j]).is_manager
            != Some(m) by {
            assert(init[j] == s[j]);
        }
        assert(init[jm] == s[jm]);
        lemma_ids_where_single(init, m, jm);
        assert(s.last() == s[s.len() - 1]);
        assert(ids_where(s, m) =~= seq![s[jm].id]);
    }
}

proof fn lemma_ids_where_nonempty(s: Seq<SummaryView>, m: bool, j: int)
    requires
        0 <= j < s.len(),
        s[j].is_manager == Some(m),
    ensures
        ids_where(s, m).len() > 0,
    decreases s.len(),
{
    if j < s.len() - 1 {
        assert(s.drop_last()[j] == s[j]);
        lemma_ids_where_nonempty(s.drop_last(), m, j);
    }
}

/// With exactly one manager account and at least one client account among the customers,
/// the advice exports that manager's ID as the login customer ID.
pub proof fn lemma_single_manager_exported(s: Seq<SummaryView>, jm: int, ja: int)
    requires
        0 <= jm < s.len(),
        s[jm].is_manager == Some(true),
        forall|j: int| 0 <= j < s.len() && j != jm ==> (#[trigger] s[j]).is_manager != Some(true),
        0 <= ja < s.len(),
        s[ja].is_manager == Some(false),
    ensures
        next_step_lines(s).len() >= 3,
        next_step_lines(s)[2] == "  export GOOGLE_ADS_LOGIN_CUSTOMER_ID="@ + s[jm].id,
{
    lemma_ids_where_single(s, true, jm);
    lemma_ids_where_nonempty(s, false, ja);
}

proof fn lemma_ids_where_member(s: Seq<SummaryView>, m: bool, k: int)
    requires
        0 <= k < ids_where(s, m).len(),
    ensures
        exists|j: int| 0 <= j < s.len() && s[j].is_manager == Some(m) && s[j].id == ids_where(s, m)[k],
    decreases s.len(),
{
    let init = s.drop_last();
    if k < ids_where(init, m).len() {
        lemma_ids_where_member(init, m, k);
        let j = choose|j: int| 0 <= j < init.len() && init[j].is_manager == Some(m) && init[j].id
            == ids_where(init, m)[k];
        assert(s[j] == init[j]);
    } else {
        assert(s[s.len() - 1] == s.last());
    }
}

/// Every `export GOOGLE_ADS_LOGIN_CUSTOMER_ID=<id>` line of the advice that names an ID
/// (rather than the `<MCC_ID>` placeholder) names a manager account among the customers.
pub proof fn lemma_exports_name_managers(s: Seq<SummaryView>, k: int, id: Seq<char>)
    requires
        0 <= k < next_step_lines(s).len(),
        next_step_lines(s)[k] == "  export GOOGLE_ADS_LOGIN_CUSTOMER_ID="@ + id,
        id != "<MCC_ID>"@,
    ensures
        exists|j: int| 0 <= j < s.len() && s[j].is_manager == Some(true) && s[j].id == id,
{
    let p = "  export GOOGLE_ADS_LOGIN_CUSTOMER_ID="@;
    reveal_strlit("  export GOOGLE_ADS_LOGIN_CUSTOMER_ID=");
    reveal_strlit("Suggested next step:");
    reveal_strlit("Could not classify MCC vs account for any customer.");
    reveal_strlit("  Then pick one account ID and run: gads use <ACCOUNT_ID>");
    reveal_strlit("  gads use ");
    reveal_strlit("  Multiple MCCs found. Pick one and set:");
    reveal_strlit("  export GOOGLE_ADS_LOGIN_CUSTOMER_ID=<MCC_ID>");
    reveal_strlit("<MCC_ID>");
    reveal_strlit("  Then: gads use <ACCOUNT_ID>");
    reveal_strlit("  No MCC detected. Use direct account mode:");
    reveal_strlit("  unset GOOGLE_ADS_LOGIN_CUSTOMER_ID");
    let line = p + id;
    assert(line[2] == 'e');
    assert(line.len() >= 3);
    let lines = next_step_lines(s);
    let mcc = ids_where(s, true);
    let acc = ids_where(s, false);
    assert(line.skip(p.len() as int) =~= id);
    if mcc.len() > 0 && lines[k] == p + mcc[0] {
        assert((p + mcc[0]).skip(p.len() as int) =~= mcc[0]);
        lemma_ids_where_member(s, true, 0);
    } else if lines[k] == "  export GOOGLE_ADS_LOGIN_CUSTOMER_ID=<MCC_ID>"@ {
        assert("  export GOOGLE_ADS_LOGIN_CUSTOMER_ID=<MCC_ID>"@ =~= p + "<MCC_ID>"@);
        assert((p + "<MCC_ID>"@).skip(p.len() as int) =~= "<MCC_ID>"@);
    } else {
        if acc.len() > 0 {
            assert(("  gads use "@ + acc[0])[2] == 'g');
        }
        assert(lines[k].len() < 3 || lines[k][2] != 'e');
    }
}

/// Where the doctor finds no quota project in the environment, the project of the file named
/// by `GOOGLE_APPLICATION_CREDENTIALS` (a non-blank path, trimmed) comes before that of the
/// default credentials file, and is reported with that path.
pub proof fn lemma_doctor_adc_file_first(
    quota_env: Option<Seq<char>>,
    project_env: Option<Seq<char>>,
    adc_path: Seq<char>,
    adc_quota: Seq<char>,
    default_path: Option<Seq<char>>,
    default_quota: Option<Seq<char>>,
)
    requires
        !(quota_env is Some && trim(quota_env->0).len() > 0),
        !(project_env is Some && trim(project_env->0).len() > 0),
        trim(adc_path).len() > 0,
    ensures
        quota_source_spec(
            quota_env,
            project_env,
            Some(adc_path),
            Some(adc_quota),
            default_path,
            default_quota,
        ) == Some((adc_quota, "adc:"@ + trim(adc_path))),
{
}

} // verus!
