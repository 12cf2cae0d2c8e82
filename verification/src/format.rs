//! Flattening `searchStream` responses into rows, and rows into text.

use vstd::prelude::*;

use crate::error::GoogleAdsError;
use crate::json::{
    entries_get, entry_views, insert_member, json_text, json_to_text, keys_sorted,
    lemma_get_after_insert, lemma_insert_keeps_keys_sorted, sorted_insert, views, Json,
    JsonNumber, JsonValue, Num,
};
use crate::text::{
    decimal, join, lemma_split_concat, push_decimal, push_signed_decimal, push_str,
    signed_decimal, split, split_on, string_of, texts,
};

verus! {

/// Follows the segments through nested objects; `null` where a member is missing.
pub open spec fn walk(v: Json, segs: Seq<Seq<char>>) -> Json
    decreases segs.len(),
{
    if segs.len() == 0 {
        v
    } else {
        match v.get(segs[0]) {
            Some(c) => walk(c, segs.drop_first()),
            None => Json::Null,
        }
    }
}

/// The value at a dotted path such as `campaign.name`.
pub open spec fn resolve(v: Json, path: Seq<char>) -> Json {
    walk(v, split(path, '.'))
}

proof fn lemma_walk_concat(v: Json, s1: Seq<Seq<char>>, s2: Seq<Seq<char>>)
    ensures
        walk(v, s1 + s2) == walk(walk(v, s1), s2),
    decreases s1.len(),
{
    if s1.len() == 0 {
        assert(s1 + s2 =~= s2);
    } else {
        assert((s1 + s2)[0] == s1[0]);
        assert((s1 + s2).drop_first() =~= s1.drop_first() + s2);
        match v.get(s1[0]) {
            Some(c) => lemma_walk_concat(c, s1.drop_first(), s2),
            None => {
                assert(walk(Json::Null, s2) == Json::Null);
            },
        }
    }
}

/// Resolving the path `a.b` is resolving `b` in the value that `a` resolves to.
pub proof fn lemma_resolve_concat(v: Json, a: Seq<char>, b: Seq<char>)
    ensures
        resolve(v, a + "."@ + b) == resolve(resolve(v, a), b),
{
    reveal_strlit(".");
    assert("."@ =~= seq!['.']);
    lemma_split_concat(a, b, '.');
    lemma_walk_concat(v, split(a, '.'), split(b, '.'));
}

/// The flattened members of one row: each path mapped to its value, inserted in turn.
pub open spec fn build_row(row: Json, paths: Seq<Seq<char>>) -> Seq<(Seq<char>, Json)>
    decreases paths.len(),
{
    if paths.len() == 0 {
        Seq::empty()
    } else {
        sorted_insert(build_row(row, paths.drop_last()), paths.last(), resolve(row, paths.last()))
    }
}

/// A flattened row has a member for each path and no other: the member of path `p` is the
/// value that `p` resolves to in the result row. Its members are in key order.
pub proof fn lemma_row_members(row: Json, paths: Seq<Seq<char>>, p: Seq<char>)
    ensures
        entries_get(build_row(row, paths), p) == if paths.contains(p) {
            Some(resolve(row, p))
        } else {
            None
        },
        keys_sorted(build_row(row, paths)),
    decreases paths.len(),
{
    if paths.len() > 0 {
        let init = paths.drop_last();
        lemma_row_members(row, init, p);
        lemma_get_after_insert(build_row(row, init), paths.last(), resolve(row, paths.last()), p);
        lemma_insert_keeps_keys_sorted(build_row(row, init), paths.last(), resolve(row, paths.last()));
        if init.contains(p) {
            let i = choose|i: int| 0 <= i < init.len() && init[i] == p;
            assert(paths[i] == p);
        }
        if paths.contains(p) && p != paths.last() {
            let i = choose|i: int| 0 <= i < paths.len() && paths[i] == p;
            assert(init[i] == p);
        }
        assert(paths[paths.len() - 1] == paths.last());
    }
}

/// The paths of a batch's `fieldMask`; none where it is missing, empty or not a string.
pub open spec fn field_paths(batch: Json) -> Seq<Seq<char>> {
    match batch.member("fieldMask"@).as_str() {
        Some(m) => if m.len() > 0 {
            split(m, ',')
        } else {
            Seq::empty()
        },
        None => Seq::empty(),
    }
}

/// The flattened rows of one batch.
pub open spec fn batch_rows(batch: Json) -> Seq<Json> {
    match batch.member("results"@).as_array() {
        Some(rs) => Seq::new(rs.len(), |i: int| Json::Obj(build_row(rs[i], field_paths(batch)))),
        None => Seq::empty(),
    }
}

/// The flattened rows of all batches, in order.
pub open spec fn all_rows(batches: Seq<Json>) -> Seq<Json>
    decreases batches.len(),
{
    if batches.len() == 0 {
        Seq::empty()
    } else {
        all_rows(batches.drop_last()) + batch_rows(batches.last())
    }
}

pub open spec fn not_array_message() -> Seq<char> {
    "searchStream response is not an array"@
}

/// The value at a dotted path such as `"campaign.name"`; `null` where any segment is missing.
pub fn resolve_path(value: &JsonValue, path: &str) -> (r: JsonValue)
    ensures
        r@ == resolve(value@, path@),
{
    let segs = split_on(path, '.');
    let ghost ss = texts(segs@);
    let mut current = value;
    let mut i: usize = 0;
    assert(ss.skip(0) =~= ss);
    while i < segs.len()
        invariant
            ss == texts(segs@),
            ss == split(path@, '.'),
            i <= segs.len(),
            resolve(value@, path@) == walk(current@, ss.skip(i as int)),
        decreases segs.len() - i,
    {
        assert(ss.skip(i as int).drop_first() =~= ss.skip(i + 1));
        assert(ss.skip(i as int)[0] == segs@[i as int]@);
        match current.get(segs[i].as_str()) {
            Some(v) => current = v,
            None => return JsonValue::Null,
        }
        i = i + 1;
    }
    current.copy()
}

/// The paths of a batch's `fieldMask`.
fn batch_field_paths(batch: &JsonValue) -> (r: Vec<String>)
    ensures
        texts(r@) == field_paths(batch@),
{
    let mask = match batch.get("fieldMask") {
        Some(m) => m,
        None => {
            return Vec::new();
        },
    };
    match mask.as_str() {
        Some(m) => {
            if m.unicode_len() > 0 {
                split_on(m, ',')
            } else {
                let r: Vec<String> = Vec::new();
                assert(texts(r@) =~= Seq::<Seq<char>>::empty());
                r
            }
        },
        None => {
            let r: Vec<String> = Vec::new();
            assert(texts(r@) =~= Seq::<Seq<char>>::empty());
            r
        },
    }
}

/// One flattened row: each path mapped to the value it resolves to.
fn flatten_row(row: &JsonValue, paths: &Vec<String>) -> (r: JsonValue)
    ensures
        r@ == Json::Obj(build_row(row@, texts(paths@))),
{
    let mut flat: Vec<(String, JsonValue)> = Vec::new();
    let mut i: usize = 0;
    assert(texts(paths@).take(0) =~= Seq::<Seq<char>>::empty());
    assert(entry_views(flat@) =~= Seq::<(Seq<char>, Json)>::empty());
    while i < paths.len()
        invariant
            i <= paths.len(),
            entry_views(flat@) == build_row(row@, texts(paths@).take(i as int)),
        decreases paths.len() - i,
    {
        let v = resolve_path(row, paths[i].as_str());
        insert_member(&mut flat, paths[i].clone(), v);
        proof {
            let t = texts(paths@).take(i + 1);
            assert(t.drop_last() =~= texts(paths@).take(i as int));
            assert(t.last() == paths@[i as int]@);
        }
        i = i + 1;
    }
    assert(texts(paths@).take(paths.len() as int) =~= texts(paths@));
    let r = JsonValue::Object(flat);
    proof {
        r.lemma_view_object();
    }
    r
}

/// Extracts and flattens the rows of a `searchStream` response.
///
/// The response is an array of batches, each with `results` and a `fieldMask`; each row
/// becomes an object that maps every path of the field mask to the value it resolves to.
/// A response that is not an array is an `InvalidResponse` error.
pub fn flatten_search_response(response: &JsonValue) -> (r: Result<Vec<JsonValue>, GoogleAdsError>)
    ensures
        match r {
            Ok(rows) => response@.as_array() matches Some(bs) && views(rows@) == all_rows(bs),
            Err(e) => response@.as_array() is None && (e matches GoogleAdsError::InvalidResponse(m)
                && m@ == not_array_message()),
        },
{
    let batches = match response.as_array() {
        Some(b) => b,
        None => {
            return Err(
                GoogleAdsError::InvalidResponse(string_of("searchStream response is not an array")),
            );
        },
    };
    let ghost bs = views(batches@);
    let mut rows: Vec<JsonValue> = Vec::new();
    let mut b: usize = 0;
    assert(bs.take(0) =~= Seq::<Json>::empty());
    assert(views(rows@) =~= Seq::<Json>::empty());
    while b < batches.len()
        invariant
            bs == views(batches@),
            b <= batches.len(),
            views(rows@) == all_rows(bs.take(b as int)),
        decreases batches.len() - b,
    {
        let batch = &batches[b];
        let paths = batch_field_paths(batch);
        let ghost before = views(rows@);
        let ghost added: Seq<Json> = Seq::empty();
        match batch.get("results") {
            Some(res) => {
                match res.as_array() {
                    Some(results) => {
                        let mut k: usize = 0;
                        while k < results.len()
                            invariant
                                k <= results.len(),
                                views(rows@) == before + Seq::new(
                                    k as nat,
                                    |i: int|
                                        Json::Obj(
                                            build_row(views(results@)[i], field_paths(batch@)),
                                        ),
                                ),
                                texts(paths@) == field_paths(batch@),
                            decreases results.len() - k,
                        {
                            let flat = flatten_row(&results[k], &paths);
                            assert(views(results@)[k as int] == results@[k as int]@);
                            let ghost rows_before = rows@;
                            rows.push(flat);
                            assert(views(rows@) =~= views(rows_before).push(flat@));
                            assert(views(rows@) =~= before + Seq::new(
                                (k + 1) as nat,
                                |i: int| Json::Obj(build_row(views(results@)[i], field_paths(batch@))),
                            ));
                            k = k + 1;
                        }
                        assert(views(rows@) =~= before + batch_rows(batch@));
                    },
                    None => {
                        assert(views(rows@) =~= before + batch_rows(batch@));
                    },
                }
            },
            None => {
                assert(views(rows@) =~= before + batch_rows(batch@));
            },
        }
        proof {
            let t = bs.take(b + 1);
            assert(t.drop_last() =~= bs.take(b as int));
            assert(t.last() == batch@);
        }
        b = b + 1;
    }
    assert(bs.take(batches.len() as int) =~= bs);
    Ok(rows)
}

/// The text of a number as `serde_json` prints it.
pub open spec fn number_text(n: Num) -> Seq<char> {
    match n {
        Num::Pos(u) => decimal(u as nat),
        Num::Neg(i) => signed_decimal(i as int),
        Num::Float(t) => t,
    }
}

/// The text of one value: a string as it is, numbers and literals as JSON writes them,
/// arrays and objects as compact JSON.
pub open spec fn value_text(v: Json) -> Seq<char> {
    match v {
        Json::Str(s) => s,
        Json::Num(n) => number_text(n),
        Json::Bool(b) => if b {
            "true"@
        } else {
            "false"@
        },
        Json::Null => "null"@,
        _ => json_text(v),
    }
}

/// `key: value` for each member, joined by `, `; nothing for a row that is not an object.
pub open spec fn row_text(row: Json) -> Seq<char> {
    match row {
        Json::Obj(e) => join(
            Seq::new(e.len(), |i: int| e[i].0 + ": "@ + value_text(e[i].1)),
            ", "@,
        ),
        _ => Seq::empty(),
    }
}

pub open spec fn no_results() -> Seq<char> {
    "No results found."@
}

/// The text of all rows, one line each.
pub open spec fn rows_text(rows: Seq<Json>) -> Seq<char> {
    if rows.len() == 0 {
        no_results()
    } else {
        join(Seq::new(rows.len(), |i: int| row_text(rows[i])), "\n"@)
    }
}

/// The text of one value.
pub fn format_value(v: &JsonValue) -> (r: String)
    ensures
        r@ == value_text(v@),
{
    match v {
        JsonValue::String(s) => s.clone(),
        JsonValue::Number(JsonNumber::PosInt(u)) => {
            let mut out = String::new();
            push_decimal(&mut out, *u);
            assert(out@ =~= value_text(v@));
            out
        },
        JsonValue::Number(JsonNumber::NegInt(i)) => {
            let mut out = String::new();
            push_signed_decimal(&mut out, *i);
            assert(out@ =~= value_text(v@));
            out
        },
        JsonValue::Number(JsonNumber::Float(t)) => t.clone(),
        JsonValue::Bool(b) => {
            if *b {
                string_of("true")
            } else {
                string_of("false")
            }
        },
        JsonValue::Null => string_of("null"),
        _ => json_to_text(v),
    }
}

fn row_line(row: &JsonValue) -> (r: String)
    ensures
        r@ == row_text(row@),
{
    match row {
        JsonValue::Object(map) => {
            proof {
                row.lemma_view_object();
            }
            let ghost e = entry_views(map@);
            let ghost pairs = Seq::new(e.len(), |i: int| e[i].0 + ": "@ + value_text(e[i].1));
            let mut out = String::new();
            let mut i: usize = 0;
            assert(pairs.take(0) =~= Seq::<Seq<char>>::empty());
            while i < map.len()
                invariant
                    e == entry_views(map@),
                    pairs == Seq::new(e.len(), |i: int| e[i].0 + ": "@ + value_text(e[i].1)),
                    i <= map.len(),
                    out@ == join(pairs.take(i as int), ", "@),
                decreases map.len() - i,
            {
                if i > 0 {
                    push_str(&mut out, ", ");
                }
                push_str(&mut out, map[i].0.as_str());
                push_str(&mut out, ": ");
                let t = format_value(&map[i].1);
                push_str(&mut out, t.as_str());
                proof {
                    let p = pairs.take(i + 1);
                    assert(p.drop_last() =~= pairs.take(i as int));
                    assert(p.last() == pairs[i as int]);
                    if i == 0 {
                        assert(join(p, ", "@) == p[0]);
                    }
                    assert(out@ =~= join(p, ", "@));
                }
                i = i + 1;
            }
            assert(pairs.take(map.len() as int) =~= pairs);
            out
        },
        _ => String::new(),
    }
}

/// Formats flattened rows as human-readable text, one `key: value, ...` line per row.
pub fn format_rows_as_text(rows: &[JsonValue]) -> (r: String)
    ensures
        r@ == rows_text(views(rows@)),
{
    if rows.len() == 0 {
        return string_of("No results found.");
    }
    let ghost rv = views(rows@);
    let ghost lines = Seq::new(rv.len(), |i: int| row_text(rv[i]));
    let mut output = String::new();
    let mut i: usize = 0;
    assert(lines.take(0) =~= Seq::<Seq<char>>::empty());
    while i < rows.len()
        invariant
            rv == views(rows@),
            lines == Seq::new(rv.len(), |i: int| row_text(rv[i])),
            i <= rows.len(),
            output@ == join(lines.take(i as int), "\n"@),
        decreases rows.len() - i,
    {
        if i > 0 {
            push_str(&mut output, "\n");
        }
        let line = row_line(&rows[i]);
        push_str(&mut output, line.as_str());
        proof {
            let p = lines.take(i + 1);
            assert(p.drop_last() =~= lines.take(i as int));
            assert(p.last() == lines[i as int]);
            if i == 0 {
                assert(join(p, "\n"@) == p[0]);
            }
            assert(output@ =~= join(p, "\n"@));
        }
        i = i + 1;
    }
    assert(lines.take(rows.len() as int) =~= lines);
    output
}

} // verus!
