//! A JSON value type of the library, its mathematical model, and the
//! accessors that the response and error logic reads it with.

use vstd::prelude::*;

use serde_json::Value;

use crate::text::{lemma_str_lt_total, lemma_str_lt_transitive, str_eq, str_less, str_lt};

verus! {

/// A JSON number as `serde_json` keeps it: a non-negative integer, a negative
/// integer, or a finite float held as the text that `serde_json` prints for it.
#[derive(Debug)]
pub enum JsonNumber {
    PosInt(u64),
    NegInt(i64),
    Float(String),
}

/// A JSON document. Object members keep the order in which they are listed.
#[derive(Debug)]
pub enum JsonValue {
    Null,
    Bool(bool),
    Number(JsonNumber),
    String(String),
    Array(Vec<JsonValue>),
    Object(Vec<(String, JsonValue)>),
}

/// Model of a JSON number.
pub enum Num {
    Pos(u64),
    Neg(i64),
    Float(Seq<char>),
}

/// Model of a JSON document.
pub enum Json {
    Null,
    Bool(bool),
    Num(Num),
    Str(Seq<char>),
    Arr(Seq<Json>),
    Obj(Seq<(Seq<char>, Json)>),
}

impl JsonNumber {
    pub open spec fn view(&self) -> Num {
        match self {
            JsonNumber::PosInt(u) => Num::Pos(*u),
            JsonNumber::NegInt(i) => Num::Neg(*i),
            JsonNumber::Float(t) => Num::Float(t@),
        }
    }
}

impl JsonValue {
    pub open spec fn view(&self) -> Json
        decreases self,
    {
        match self {
            JsonValue::Null => Json::Null,
            JsonValue::Bool(b) => Json::Bool(*b),
            JsonValue::Number(n) => Json::Num(n.view()),
            JsonValue::String(s) => Json::Str(s@),
            JsonValue::Array(a) => Json::Arr(
                Seq::new(
                    a@.len(),
                    |i: int|
                        if 0 <= i < a@.len() {
                            a@[i].view()
                        } else {
                            Json::Null
                        },
                ),
            ),
            JsonValue::Object(o) => Json::Obj(
                Seq::new(
                    o@.len(),
                    |i: int|
                        if 0 <= i < o@.len() {
                            (o@[i].0@, o@[i].1.view())
                        } else {
                            (Seq::empty(), Json::Null)
                        },
                ),
            ),
        }
    }
}

/// The models of a list of values.
pub open spec fn views(a: Seq<JsonValue>) -> Seq<Json> {
    Seq::new(a.len(), |i: int| a[i].view())
}

/// The models of a list of object members.
pub open spec fn entry_views(o: Seq<(String, JsonValue)>) -> Seq<(Seq<char>, Json)> {
    Seq::new(o.len(), |i: int| (o[i].0@, o[i].1.view()))
}

/// The value of the first member named `k`, if any.
pub open spec fn entries_get(e: Seq<(Seq<char>, Json)>, k: Seq<char>) -> Option<Json>
    decreases e.len(),
{
    if e.len() == 0 {
        None
    } else if e[0].0 == k {
        Some(e[0].1)
    } else {
        entries_get(e.drop_first(), k)
    }
}

impl Json {
    /// Member `k` of an object; `None` for a missing member or a value that is not an object.
    pub open spec fn get(self, k: Seq<char>) -> Option<Json> {
        match self {
            Json::Obj(e) => entries_get(e, k),
            _ => None,
        }
    }

    /// Member `k` of an object, or `null`, as `value["k"]` reads it.
    pub open spec fn member(self, k: Seq<char>) -> Json {
        match self.get(k) {
            Some(v) => v,
            None => Json::Null,
        }
    }

    pub open spec fn as_str(self) -> Option<Seq<char>> {
        match self {
            Json::Str(s) => Some(s),
            _ => None,
        }
    }

    pub open spec fn as_array(self) -> Option<Seq<Json>> {
        match self {
            Json::Arr(a) => Some(a),
            _ => None,
        }
    }

    pub open spec fn as_bool(self) -> Option<bool> {
        match self {
            Json::Bool(b) => Some(b),
            _ => None,
        }
    }

    pub open spec fn as_u64(self) -> Option<u64> {
        match self {
            Json::Num(Num::Pos(u)) => Some(u),
            _ => None,
        }
    }

    pub open spec fn as_i64(self) -> Option<i64> {
        match self {
            Json::Num(Num::Pos(u)) => if u <= i64::MAX {
                Some(u as i64)
            } else {
                None
            },
            Json::Num(Num::Neg(i)) => Some(i),
            _ => None,
        }
    }

    pub open spec fn is_object(self) -> bool {
        self is Obj
    }
}

proof fn lemma_entries_get_skip(e: Seq<(Seq<char>, Json)>, k: Seq<char>, i: int)
    requires
        0 <= i <= e.len(),
        forall|j: int| 0 <= j < i ==> (#[trigger] e[j]).0 != k,
    ensures
        entries_get(e, k) == entries_get(e.subrange(i, e.len() as int), k),
    decreases i,
{
    if i > 0 {
        lemma_entries_get_skip(e.drop_first(), k, i - 1);
        assert(e.drop_first().subrange(i - 1, e.drop_first().len() as int) =~= e.subrange(
            i,
            e.len() as int,
        ));
    } else {
        assert(e.subrange(0, e.len() as int) =~= e);
    }
}

impl JsonValue {
    pub proof fn lemma_view_array(&self)
        requires
            self is Array,
        ensures
            self@ == Json::Arr(views(self->Array_0@)),
    {
        assert(self@->Arr_0 =~= views(self->Array_0@));
    }

    pub proof fn lemma_view_object(&self)
        requires
            self is Object,
        ensures
            self@ == Json::Obj(entry_views(self->Object_0@)),
    {
        assert(self@->Obj_0 =~= entry_views(self->Object_0@));
    }

    /// Member `key` of an object, as `Value::get` with a string index.
    pub fn get(&self, key: &str) -> (r: Option<&JsonValue>)
        ensures
            match r {
                Some(v) => self@.get(key@) == Some(v@),
                None => self@.get(key@) is None,
            },
    {
        match self {
            JsonValue::Object(o) => {
                proof {
                    self.lemma_view_object();
                }
                let ghost e = entry_views(o@);
                let mut i: usize = 0;
                while i < o.len()
                    invariant
                        e == entry_views(o@),
                        self@ == Json::Obj(e),
                        i <= o.len(),
                        forall|j: int| 0 <= j < i ==> (#[trigger] e[j]).0 != key@,
                    decreases o.len() - i,
                {
                    if str_eq(o[i].0.as_str(), key) {
                        proof {
                            lemma_entries_get_skip(e, key@, i as int);
                            let sub = e.subrange(i as int, e.len() as int);
                            assert(sub[0] == e[i as int]);
                            assert(e[i as int] == (o@[i as int].0@, o@[i as int].1.view()));
                            assert(sub[0].0 == key@);
                            assert(entries_get(sub, key@) == Some(sub[0].1));
                        }
                        return Some(&o[i].1);
                    }
                    i = i + 1;
                }
                proof {
                    lemma_entries_get_skip(e, key@, i as int);
                }
                None
            },
            _ => None,
        }
    }

    pub fn as_str(&self) -> (r: Option<&str>)
        ensures
            match r {
                Some(s) => self@.as_str() == Some(s@),
                None => self@.as_str() is None,
            },
    {
        match self {
            JsonValue::String(s) => Some(s.as_str()),
            _ => None,
        }
    }

    pub fn as_array(&self) -> (r: Option<&Vec<JsonValue>>)
        ensures
            match r {
                Some(a) => self@.as_array() == Some(views(a@)),
                None => self@.as_array() is None,
            },
    {
        match self {
            JsonValue::Array(a) => {
                proof {
                    self.lemma_view_array();
                }
                Some(a)
            },
            _ => None,
        }
    }

    pub fn as_bool(&self) -> (r: Option<bool>)
        ensures
            r == self@.as_bool(),
    {
        match self {
            JsonValue::Bool(b) => Some(*b),
            _ => None,
        }
    }

    pub fn as_u64(&self) -> (r: Option<u64>)
        ensures
            r == self@.as_u64(),
    {
        match self {
            JsonValue::Number(JsonNumber::PosInt(u)) => Some(*u),
            _ => None,
        }
    }

    pub fn as_i64(&self) -> (r: Option<i64>)
        ensures
            r == self@.as_i64(),
    {
        match self {
            JsonValue::Number(JsonNumber::PosInt(u)) => {
                if *u <= 0x7fff_ffff_ffff_ffffu64 {
                    Some(*u as i64)
                } else {
                    None
                }
            },
            JsonValue::Number(JsonNumber::NegInt(i)) => Some(*i),
            _ => None,
        }
    }

    pub fn is_object(&self) -> (r: bool)
        ensures
            r == self@.is_object(),
    {
        match self {
            JsonValue::Object(_) => true,
            _ => false,
        }
    }

    /// A copy of the whole document.
    pub fn copy(&self) -> (r: JsonValue)
        ensures
            r@ == self@,
        decreases self,
    {
        match self {
            JsonValue::Null => JsonValue::Null,
            JsonValue::Bool(b) => JsonValue::Bool(*b),
            JsonValue::Number(JsonNumber::PosInt(u)) => JsonValue::Number(JsonNumber::PosInt(*u)),
            JsonValue::Number(JsonNumber::NegInt(i)) => JsonValue::Number(JsonNumber::NegInt(*i)),
            JsonValue::Number(JsonNumber::Float(t)) => JsonValue::Number(
                JsonNumber::Float(t.clone()),
            ),
            JsonValue::String(s) => JsonValue::String(s.clone()),
            JsonValue::Array(a) => {
                let mut out: Vec<JsonValue> = Vec::new();
                let mut i: usize = 0;
                assert forall|j: int| 0 <= j < a@.len() implies decreases_to!(*self => a@[j]) by {
                    assert(decreases_to!(*self => *a));
                    assert(decreases_to!(*a => a@));
                    assert(decreases_to!(a@ => a@[j]));
                }
                while i < a.len()
                    invariant
                        forall|j: int| 0 <= j < a@.len() ==> decreases_to!(*self => a@[j]),
                        i <= a.len(),
                        out.len() == i,
                        forall|j: int| 0 <= j < i ==> (#[trigger] out@[j]).view() == a@[j].view(),
                    decreases a.len() - i,
                {
                    let c = a[i].copy();
                    out.push(c);
                    i = i + 1;
                }
                let r = JsonValue::Array(out);
                proof {
                    r.lemma_view_array();
                    self.lemma_view_array();
                    assert(views(out@) =~= views(a@));
                }
                r
            },
            JsonValue::Object(o) => {
                let mut out: Vec<(String, JsonValue)> = Vec::new();
                let mut i: usize = 0;
                assert forall|j: int| 0 <= j < o@.len() implies decreases_to!(*self => o@[j].1) by {
                    assert(decreases_to!(*self => *o));
                    assert(decreases_to!(*o => o@));
                    assert(decreases_to!(o@ => o@[j]));
                    assert(decreases_to!(o@[j] => o@[j].1));
                }
                while i < o.len()
                    invariant
                        forall|j: int| 0 <= j < o@.len() ==> decreases_to!(*self => o@[j].1),
                        i <= o.len(),
                        out.len() == i,
                        forall|j: int|
                            0 <= j < i ==> (#[trigger] out@[j]).0@ == o@[j].0@ && out@[j].1.view()
                                == o@[j].1.view(),
                    decreases o.len() - i,
                {
                    let c = o[i].1.copy();
                    out.push((o[i].0.clone(), c));
                    i = i + 1;
                }
                let r = JsonValue::Object(out);
                proof {
                    r.lemma_view_object();
                    self.lemma_view_object();
                    assert(entry_views(out@) =~= entry_views(o@));
                }
                r
            },
        }
    }
}

/// Inserting a member as `serde_json::Map` (a `BTreeMap`) does: a member with that key
/// gets the new value in place, else the member goes before the first key that sorts
/// after it.
pub open spec fn sorted_insert(e: Seq<(Seq<char>, Json)>, k: Seq<char>, v: Json) -> Seq<(Seq<char>, Json)>
    decreases e.len(),
{
    if e.len() == 0 {
        seq![(k, v)]
    } else if e[0].0 == k {
        e.update(0, (k, v))
    } else if str_lt(k, e[0].0) {
        seq![(k, v)] + e
    } else {
        seq![e[0]] + sorted_insert(e.drop_first(), k, v)
    }
}

proof fn lemma_sorted_insert_skip(e: Seq<(Seq<char>, Json)>, k: Seq<char>, v: Json, i: int)
    requires
        0 <= i <= e.len(),
        forall|j: int| 0 <= j < i ==> (#[trigger] e[j]).0 != k && !str_lt(k, e[j].0),
    ensures
        sorted_insert(e, k, v) == e.take(i) + sorted_insert(e.skip(i), k, v),
    decreases i,
{
    if i > 0 {
        lemma_sorted_insert_skip(e.drop_first(), k, v, i - 1);
        assert(e.drop_first().skip(i - 1) =~= e.skip(i));
        assert(e.take(i) =~= seq![e[0]] + e.drop_first().take(i - 1));
    } else {
        assert(e.skip(0) =~= e);
    }
}

/// Reading a member back after an insert gives the inserted value, and every other member
/// reads as before (`Map::insert`, then `Map::get`).
pub proof fn lemma_get_after_insert(e: Seq<(Seq<char>, Json)>, k: Seq<char>, v: Json, k2: Seq<char>)
    ensures
        entries_get(sorted_insert(e, k, v), k2) == if k2 == k {
            Some(v)
        } else {
            entries_get(e, k2)
        },
    decreases e.len(),
{
    let r = sorted_insert(e, k, v);
    if e.len() == 0 {
        assert(r.drop_first() =~= Seq::<(Seq<char>, Json)>::empty());
        assert(entries_get(r.drop_first(), k2) is None);
        assert(r[0] == (k, v));
    } else if e[0].0 == k {
        assert(r.drop_first() =~= e.drop_first());
        assert(r[0] == (k, v));
    } else if str_lt(k, e[0].0) {
        assert(r.drop_first() =~= e);
        assert(r[0] == (k, v));
    } else {
        lemma_get_after_insert(e.drop_first(), k, v, k2);
        assert(r.drop_first() =~= sorted_insert(e.drop_first(), k, v));
        assert(r[0] == e[0]);
    }
}

/// The members are in strictly increasing key order, as a `serde_json::Map` keeps them.
pub open spec fn keys_sorted(e: Seq<(Seq<char>, Json)>) -> bool {
    forall|i: int, j: int| 0 <= i < j < e.len() ==> str_lt(#[trigger] e[i].0, #[trigger] e[j].0)
}

/// Inserting keeps the members in strictly increasing key order.
pub proof fn lemma_insert_keeps_keys_sorted(e: Seq<(Seq<char>, Json)>, k: Seq<char>, v: Json)
    requires
        keys_sorted(e),
    ensures
        keys_sorted(sorted_insert(e, k, v)),
    decreases e.len(),
{
    let r = sorted_insert(e, k, v);
    if e.len() == 0 {
    } else if e[0].0 == k {
        assert forall|i: int, j: int| 0 <= i < j < r.len() implies str_lt(#[trigger] r[i].0, #[trigger] r[j].0) by {
            assert(e[i].0 == r[i].0 && e[j].0 == r[j].0);
        }
    } else if str_lt(k, e[0].0) {
        assert forall|i: int, j: int| 0 <= i < j < r.len() implies str_lt(#[trigger] r[i].0, #[trigger] r[j].0) by {
            if i == 0 {
                if j > 1 {
                    lemma_str_lt_transitive(k, e[0].0, e[j - 1].0);
                }
            } else {
                assert(r[i] == e[i - 1] && r[j] == e[j - 1]);
            }
        }
    } else {
        let t = e.drop_first();
        lemma_insert_keeps_keys_sorted(t, k, v);
        let rt = sorted_insert(t, k, v);
        lemma_str_lt_total(k, e[0].0);
        assert(str_lt(e[0].0, k));
        assert forall|x: int| 0 <= x < rt.len() implies str_lt(e[0].0, #[trigger] rt[x].0) by {
            lemma_member_of_insert(t, k, v, x);
            if rt[x].0 != k {
                let y = choose|y: int| 0 <= y < t.len() && t[y].0 == rt[x].0;
                assert(e[y + 1] == t[y]);
            }
        }
        assert forall|i: int, j: int| 0 <= i < j < r.len() implies str_lt(#[trigger] r[i].0, #[trigger] r[j].0) by {
            if i == 0 {
                assert(r[j] == rt[j - 1]);
            } else {
                assert(r[i] == rt[i - 1] && r[j] == rt[j - 1]);
            }
        }
    }
}

/// Each key after an insert is the inserted key or a key that was there before.
proof fn lemma_member_of_insert(e: Seq<(Seq<char>, Json)>, k: Seq<char>, v: Json, x: int)
    requires
        0 <= x < sorted_insert(e, k, v).len(),
    ensures
        sorted_insert(e, k, v)[x].0 == k || exists|y: int| 0 <= y < e.len() && e[y].0 == sorted_insert(e, k, v)[x].0,
    decreases e.len(),
{
    let r = sorted_insert(e, k, v);
    if e.len() == 0 {
    } else if e[0].0 == k {
        if x > 0 {
            assert(e[x].0 == r[x].0);
        }
    } else if str_lt(k, e[0].0) {
        if x > 0 {
            assert(e[x - 1].0 == r[x].0);
        }
    } else {
        if x == 0 {
            assert(e[0].0 == r[0].0);
        } else {
            let t = e.drop_first();
            lemma_member_of_insert(t, k, v, x - 1);
            assert(r[x] == sorted_insert(t, k, v)[x - 1]);
            if r[x].0 != k {
                let y = choose|y: int| 0 <= y < t.len() && t[y].0 == r[x].0;
                assert(e[y + 1] == t[y]);
            }
        }
    }
}

/// Inserts a member into an object's member list, as `serde_json::Map::insert` does.
pub fn insert_member(entries: &mut Vec<(String, JsonValue)>, key: String, value: JsonValue)
    ensures
        entry_views(final(entries)@) == sorted_insert(entry_views(old(entries)@), key@, value@),
{
    let ghost e = entry_views(entries@);
    let ghost k = key@;
    let ghost v = value@;
    let n = entries.len();
    let mut i: usize = 0;
    while i < n
        invariant
            n == entries@.len(),
            e == entry_views(entries@),
            e == entry_views(old(entries)@),
            k == key@,
            v == value@,
            i <= n,
            forall|j: int| 0 <= j < i ==> (#[trigger] e[j]).0 != k && !str_lt(k, e[j].0),
        decreases n - i,
    {
        if str_eq(entries[i].0.as_str(), key.as_str()) {
            proof {
                lemma_sorted_insert_skip(e, k, v, i as int);
                assert(e.skip(i as int)[0] == e[i as int]);
            }
            entries.set(i, (key, value));
            assert(entry_views(entries@) =~= e.take(i as int) + e.skip(i as int).update(0, (k, v)));
            return;
        }
        if str_less(key.as_str(), entries[i].0.as_str()) {
            proof {
                lemma_sorted_insert_skip(e, k, v, i as int);
                assert(e.skip(i as int)[0] == e[i as int]);
            }
            entries.insert(i, (key, value));
            assert(entry_views(entries@) =~= e.take(i as int) + (seq![(k, v)] + e.skip(i as int)));
            return;
        }
        i = i + 1;
    }
    proof {
        lemma_sorted_insert_skip(e, k, v, n as int);
        assert(e.skip(n as int) =~= Seq::<(Seq<char>, Json)>::empty());
    }
    entries.push((key, value));
    assert(entry_views(entries@) =~= e.take(n as int) + seq![(k, v)]);
}

#[verifier::external_type_specification]
#[verifier::external_body]
pub struct ExSerdeJsonValue(Value);

/// What `serde_json::from_str::<serde_json::Value>` gives for a text: the model of the
/// document it parses, or the message of the error it reports.
pub uninterp spec fn json_parse(text: Seq<char>) -> Result<Json, Seq<char>>;

/// The compact text that `serde_json` writes for a document (`Value`'s `Display`).
pub uninterp spec fn json_text(v: Json) -> Seq<char>;

/// Carries a `serde_json::Value` over into a `JsonValue`, one node for one node; objects
/// keep the member order of `serde_json::Map`, numbers are told apart by
/// `Number::as_u64` and `Number::as_i64`, and a float keeps the text `serde_json` prints for it.
#[verifier::external_body]
fn from_serde(v: Value) -> JsonValue {
    match v {
        Value::Null => JsonValue::Null,
        Value::Bool(b) => JsonValue::Bool(b),
        Value::Number(n) => JsonValue::Number(match (n.as_u64(), n.as_i64()) {
            (Some(u), _) => JsonNumber::PosInt(u),
            (None, Some(i)) => JsonNumber::NegInt(i),
            _ => JsonNumber::Float(n.to_string()),
        }),
        Value::String(s) => JsonValue::String(s),
        Value::Array(a) => JsonValue::Array(a.into_iter().map(from_serde).collect()),
        Value::Object(m) => JsonValue::Object(m.into_iter().map(|(k, x)| (k, from_serde(x))).collect()),
    }
}

/// Carries a `JsonValue` over into a `serde_json::Value`, one node for one node; a float
/// is read back from its text with `serde_json::Number`'s `FromStr`.
#[verifier::external_body]
fn to_serde(v: &JsonValue) -> Value {
    match v {
        JsonValue::Null => Value::Null,
        JsonValue::Bool(b) => Value::Bool(*b),
        JsonValue::Number(JsonNumber::PosInt(u)) => Value::from(*u),
        JsonValue::Number(JsonNumber::NegInt(i)) => Value::from(*i),
        JsonValue::Number(JsonNumber::Float(t)) => t.parse().map_or(Value::Null, Value::Number),
        JsonValue::String(s) => Value::String(s.clone()),
        JsonValue::Array(a) => Value::Array(a.iter().map(to_serde).collect()),
        JsonValue::Object(o) => Value::Object(o.iter().map(|(k, x)| (k.clone(), to_serde(x))).collect()),
    }
}

/// Parses `text` with `serde_json::from_str::<serde_json::Value>`: the parsed document, or
/// the message (`Display`) of serde_json's error. The contract names the result
/// `json_parse`; parsing is deterministic, so the same text always gives the same result.
#[verifier::external_body]
pub(crate) fn parse_json(text: &str) -> (r: Result<JsonValue, String>)
    ensures
        match r {
            Ok(v) => json_parse(text@) == Ok::<Json, Seq<char>>(v@),
            Err(m) => json_parse(text@) == Err::<Json, Seq<char>>(m@),
        },
{
    serde_json::from_str::<Value>(text).map(from_serde).map_err(|e| e.to_string())
}

/// The compact JSON text of a document, through `serde_json::Value`'s `Display`
/// (`serde_json::to_string`); the contract names the result `json_text`.
#[verifier::external_body]
pub(crate) fn json_to_text(v: &JsonValue) -> (r: String)
    ensures
        r@ == json_text(v@),
{
    to_serde(v).to_string()
}

/// The indented JSON text that `serde_json::to_string_pretty` writes for a document.
pub uninterp spec fn json_pretty_text(v: Json) -> Seq<char>;

/// The indented JSON text of a document (`serde_json::to_string_pretty` on the
/// `serde_json::Value`, which cannot fail on a `Value`); the contract names the result
/// `json_pretty_text`.
#[verifier::external_body]
pub(crate) fn json_to_pretty_text(v: &JsonValue) -> (r: String)
    ensures
        r@ == json_pretty_text(v@),
{
    serde_json::to_string_pretty(&to_serde(v)).unwrap_or_default()
}

} // verus!
