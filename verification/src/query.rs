//! Building GAQL query text.

use vstd::prelude::*;

use crate::error::GoogleAdsError;
use crate::text::{decimal, join, push_decimal, push_joined, push_str, string_of, texts};

verus! {

/// The parts of a GAQL query: selected fields, the resource, conditions joined by `AND`,
/// orderings and a row limit.
pub struct GaqlQuery<'a> {
    pub fields: &'a [String],
    pub resource: &'a str,
    pub conditions: Option<&'a [String]>,
    pub orderings: Option<&'a [String]>,
    pub limit: Option<u32>,
}

/// A clause `keyword` followed by the parts joined with `sep`; nothing when there are no parts.
pub open spec fn clause(keyword: Seq<char>, parts: Option<Seq<Seq<char>>>, sep: Seq<char>) -> Seq<char> {
    match parts {
        Some(p) => if p.len() > 0 {
            keyword + join(p, sep)
        } else {
            Seq::empty()
        },
        None => Seq::empty(),
    }
}

pub open spec fn opt_texts(s: Option<&[String]>) -> Option<Seq<Seq<char>>> {
    match s {
        Some(x) => Some(texts(x@)),
        None => None,
    }
}

/// `SELECT f1, f2 FROM r WHERE c1 AND c2 ORDER BY o1, o2 LIMIT n`, without the clauses that
/// have nothing in them.
pub open spec fn gaql_text(
    fields: Seq<Seq<char>>,
    resource: Seq<char>,
    conditions: Option<Seq<Seq<char>>>,
    orderings: Option<Seq<Seq<char>>>,
    limit: Option<u32>,
) -> Seq<char> {
    "SELECT "@ + join(fields, ", "@) + " FROM "@ + resource + clause(
        " WHERE "@,
        conditions,
        " AND "@,
    ) + clause(" ORDER BY "@, orderings, ", "@) + match limit {
        Some(l) => " LIMIT "@ + decimal(l as nat),
        None => Seq::empty(),
    }
}

pub open spec fn fields_required() -> Seq<char> {
    "at least one field is required"@
}

pub open spec fn resource_required() -> Seq<char> {
    "resource is required"@
}

impl<'a> GaqlQuery<'a> {
    /// The text that the query builds to.
    pub open spec fn text(&self) -> Seq<char> {
        gaql_text(
            texts(self.fields@),
            self.resource@,
            opt_texts(self.conditions),
            opt_texts(self.orderings),
            self.limit,
        )
    }

    /// The GAQL text of the query; a `QueryBuild` error when no field is selected or the
    /// resource is empty.
    pub fn build(&self) -> (r: Result<String, GoogleAdsError>)
        ensures
            match r {
                Ok(q) => self.fields@.len() > 0 && self.resource@.len() > 0 && q@ == self.text(),
                Err(e) => (self.fields@.len() == 0 && (e matches GoogleAdsError::QueryBuild(m)
                    && m@ == fields_required())) || (self.fields@.len() > 0 && self.resource@.len()
                    == 0 && (e matches GoogleAdsError::QueryBuild(m) && m@ == resource_required())),
            },
    {
        if self.fields.len() == 0 {
            return Err(GoogleAdsError::QueryBuild(string_of("at least one field is required")));
        }
        if self.resource.is_empty() {
            return Err(GoogleAdsError::QueryBuild(string_of("resource is required")));
        }
        let mut query = string_of("SELECT ");
        push_joined(&mut query, self.fields, ", ");
        push_str(&mut query, " FROM ");
        push_str(&mut query, self.resource);
        let ghost base = query@;
        if let Some(conditions) = self.conditions {
            if conditions.len() > 0 {
                push_str(&mut query, " WHERE ");
                push_joined(&mut query, conditions, " AND ");
            }
        }
        let ghost with_where = query@;
        assert(with_where =~= base + clause(" WHERE "@, opt_texts(self.conditions), " AND "@));
        if let Some(orderings) = self.orderings {
            if orderings.len() > 0 {
                push_str(&mut query, " ORDER BY ");
                push_joined(&mut query, orderings, ", ");
            }
        }
        let ghost with_order = query@;
        assert(with_order =~= with_where + clause(" ORDER BY "@, opt_texts(self.orderings), ", "@));
        if let Some(limit) = self.limit {
            push_str(&mut query, " LIMIT ");
            push_decimal(&mut query, limit as u64);
        }
        assert(query@ =~= self.text());
        Ok(query)
    }
}

/// An ORDER BY clause lists its orderings separated by `, `: one more ordering appends
/// `, ` and that ordering to the query (without a limit), and a single ordering appends
/// ` ORDER BY ` and itself to the query without orderings.
pub proof fn lemma_orderings_listed(
    fields: Seq<Seq<char>>,
    resource: Seq<char>,
    conditions: Option<Seq<Seq<char>>>,
    orderings: Seq<Seq<char>>,
    x: Seq<char>,
)
    ensures
        orderings.len() > 0 ==> gaql_text(fields, resource, conditions, Some(orderings.push(x)), None)
            == gaql_text(fields, resource, conditions, Some(orderings), None) + ", "@ + x,
        gaql_text(fields, resource, conditions, Some(seq![x]), None) == gaql_text(
            fields,
            resource,
            conditions,
            None,
            None,
        ) + " ORDER BY "@ + x,
{
    assert(orderings.push(x).drop_last() =~= orderings);
    assert(seq![x].len() == 1);
    let base = "SELECT "@ + join(fields, ", "@) + " FROM "@ + resource + clause(" WHERE "@, conditions, " AND "@);
    if orderings.len() > 0 {
        assert(join(orderings.push(x), ", "@) == join(orderings, ", "@) + ", "@ + x);
        assert(base + (" ORDER BY "@ + (join(orderings, ", "@) + ", "@ + x)) + Seq::<char>::empty()
            =~= base + (" ORDER BY "@ + join(orderings, ", "@)) + Seq::<char>::empty() + ", "@ + x);
    }
    assert(base + (" ORDER BY "@ + x) + Seq::<char>::empty() =~= base + Seq::<char>::empty()
        + Seq::<char>::empty() + " ORDER BY "@ + x);
}

/// A WHERE clause joins its conditions with ` AND `: one more condition appends ` AND `
/// and that condition to the query (without orderings or a limit), and a single condition
/// appends ` WHERE ` and itself to the query without conditions.
pub proof fn lemma_conditions_joined(
    fields: Seq<Seq<char>>,
    resource: Seq<char>,
    conditions: Seq<Seq<char>>,
    x: Seq<char>,
)
    ensures
        conditions.len() > 0 ==> gaql_text(fields, resource, Some(conditions.push(x)), None, None)
            == gaql_text(fields, resource, Some(conditions), None, None) + " AND "@ + x,
        gaql_text(fields, resource, Some(seq![x]), None, None) == gaql_text(
            fields,
            resource,
            None,
            None,
            None,
        ) + " WHERE "@ + x,
{
    assert(conditions.push(x).drop_last() =~= conditions);
    let base = "SELECT "@ + join(fields, ", "@) + " FROM "@ + resource;
    let e = Seq::<char>::empty();
    if conditions.len() > 0 {
        assert(join(conditions.push(x), " AND "@) == join(conditions, " AND "@) + " AND "@ + x);
        assert(base + (" WHERE "@ + (join(conditions, " AND "@) + " AND "@ + x)) + e + e =~= base
            + (" WHERE "@ + join(conditions, " AND "@)) + e + e + " AND "@ + x);
    }
    assert(base + (" WHERE "@ + x) + e + e =~= base + e + e + e + " WHERE "@ + x);
}

/// A limit appends ` LIMIT ` and its decimal digits to the query without one.
pub proof fn lemma_limit_appended(
    fields: Seq<Seq<char>>,
    resource: Seq<char>,
    conditions: Option<Seq<Seq<char>>>,
    orderings: Option<Seq<Seq<char>>>,
    limit: u32,
)
    ensures
        gaql_text(fields, resource, conditions, orderings, Some(limit)) == gaql_text(
            fields,
            resource,
            conditions,
            orderings,
            None,
        ) + " LIMIT "@ + decimal(limit as nat),
{
    let head = "SELECT "@ + join(fields, ", "@) + " FROM "@ + resource + clause(" WHERE "@, conditions, " AND "@)
        + clause(" ORDER BY "@, orderings, ", "@);
    assert(head + (" LIMIT "@ + decimal(limit as nat)) =~= head + Seq::<char>::empty() + " LIMIT "@
        + decimal(limit as nat));
}

} // verus!
