//! A JSON value model that verified code can read and build.
//!
//! `Json` holds what the agent logic reads of a JSON document (tool
//! arguments, tool results, schemas, user responses); `JsonV` is its
//! mathematical view. Text conversion goes through `serde_json`.
use vstd::prelude::*;
use serde_json::Value;

verus! {

/// Mathematical view of a JSON value.
pub enum JsonV {
    Null,
    Bool(bool),
    /// A number, by its JSON text.
    Number(Seq<char>),
    Str(Seq<char>),
    Array(Seq<JsonV>),
    /// Members in order; a well-formed object has no repeated key.
    Object(Seq<(Seq<char>, JsonV)>),
}

/// A JSON value.
#[derive(Debug, PartialEq)]
pub enum Json {
    Null,
    Bool(bool),
    /// A number, kept as its JSON text (for example `42` or `1.5`).
    Number(String),
    Str(String),
    Array(Vec<Json>),
    /// Members in order.
    Object(Vec<(String, Json)>),
}

/// The view of a member list.
pub open spec fn members_view(v: Seq<(String, Json)>) -> Seq<(Seq<char>, JsonV)> {
    Seq::new(v.len(), |i: int| (v[i].0@, v[i].1@))
}

impl Json {
    pub open spec fn to_v(&self) -> JsonV
        decreases self,
    {
        match self {
            Json::Null => JsonV::Null,
            Json::Bool(b) => JsonV::Bool(*b),
            Json::Number(n) => JsonV::Number(n@),
            Json::Str(s) => JsonV::Str(s@),
            Json::Array(v) => JsonV::Array(
                Seq::new(
                    v@.len(),
                    |i: int|
                        if 0 <= i < v@.len() {
                            v@[i].to_v()
                        } else {
                            JsonV::Null
                        },
                ),
            ),
            Json::Object(v) => JsonV::Object(
                Seq::new(
                    v@.len(),
                    |i: int|
                        if 0 <= i < v@.len() {
                            (v@[i].0@, v@[i].1.to_v())
                        } else {
                            (Seq::empty(), JsonV::Null)
                        },
                ),
            ),
        }
    }
}

impl View for Json {
    type V = JsonV;

    open spec fn view(&self) -> JsonV {
        self.to_v()
    }
}

/// Unfolds the view of an array or an object one level.
pub proof fn lemma_view_unfold(j: Json)
    ensures
        j matches Json::Array(v) ==> j@ == JsonV::Array(Seq::new(v@.len(), |i: int| v@[i]@)),
        j matches Json::Object(v) ==> j@ == JsonV::Object(members_view(v@)),
{
    match j {
        Json::Array(v) => {
            assert(j@->Array_0 =~= Seq::new(v@.len(), |i: int| v@[i]@));
        },
        Json::Object(v) => {
            assert(j@->Object_0 =~= members_view(v@));
        },
        _ => {},
    }
}

/// The value of the first member named `k`, as `serde_json::Value::get` reads
/// an object (an object built by `serde_json` has no repeated key).
pub open spec fn lookup(m: Seq<(Seq<char>, JsonV)>, k: Seq<char>) -> Option<JsonV>
    decreases m.len(),
{
    if m.len() == 0 {
        None
    } else if m[0].0 == k {
        Some(m[0].1)
    } else {
        lookup(m.drop_first(), k)
    }
}

/// The value under `k` when `v` is an object holding that key.
pub open spec fn get_spec(v: JsonV, k: Seq<char>) -> Option<JsonV> {
    match v {
        JsonV::Object(m) => lookup(m, k),
        _ => None,
    }
}

/// The text of `v` when it is a JSON string.
pub open spec fn as_str_spec(v: JsonV) -> Option<Seq<char>> {
    match v {
        JsonV::Str(s) => Some(s),
        _ => None,
    }
}

/// `m` with `k` bound to `x`: the first member named `k` gets the new value,
/// or the pair is appended when no member has that name (map insertion).
pub open spec fn insert_spec(m: Seq<(Seq<char>, JsonV)>, k: Seq<char>, x: JsonV) -> Seq<
    (Seq<char>, JsonV),
>
    decreases m.len(),
{
    if m.len() == 0 {
        seq![(k, x)]
    } else if m[0].0 == k {
        m.update(0, (k, x))
    } else {
        seq![m[0]] + insert_spec(m.drop_first(), k, x)
    }
}

proof fn lemma_lookup_skip(m: Seq<(Seq<char>, JsonV)>, k: Seq<char>, i: int)
    requires
        0 <= i < m.len(),
        forall|j: int| 0 <= j < i ==> m[j].0 != k,
    ensures
        lookup(m, k) == lookup(m.skip(i), k),
    decreases i,
{
    if i > 0 {
        lemma_lookup_skip(m.drop_first(), k, i - 1);
        assert(m.drop_first().skip(i - 1) =~= m.skip(i));
    } else {
        assert(m.skip(0) =~= m);
    }
}

proof fn lemma_lookup_none(m: Seq<(Seq<char>, JsonV)>, k: Seq<char>)
    requires
        forall|j: int| 0 <= j < m.len() ==> m[j].0 != k,
    ensures
        lookup(m, k) is None,
    decreases m.len(),
{
    if m.len() > 0 {
        lemma_lookup_none(m.drop_first(), k);
    }
}

proof fn lemma_insert_at(m: Seq<(Seq<char>, JsonV)>, k: Seq<char>, x: JsonV, i: int)
    requires
        0 <= i < m.len(),
        m[i].0 == k,
        forall|j: int| 0 <= j < i ==> m[j].0 != k,
    ensures
        insert_spec(m, k, x) == m.update(i, (k, x)),
    decreases i,
{
    if i > 0 {
        lemma_insert_at(m.drop_first(), k, x, i - 1);
        assert(m.update(i, (k, x)) =~= seq![m[0]] + m.drop_first().update(i - 1, (k, x)));
    }
}

proof fn lemma_insert_new(m: Seq<(Seq<char>, JsonV)>, k: Seq<char>, x: JsonV)
    requires
        forall|j: int| 0 <= j < m.len() ==> m[j].0 != k,
    ensures
        insert_spec(m, k, x) == m.push((k, x)),
    decreases m.len(),
{
    if m.len() > 0 {
        lemma_insert_new(m.drop_first(), k, x);
        assert(m.push((k, x)) =~= seq![m[0]] + m.drop_first().push((k, x)));
    }
}

/// Binds `k` to `x` in a member list: the first member named `k` gets the
/// new value, or the member is appended.
pub fn insert_member(m: &mut Vec<(String, Json)>, k: String, x: Json)
    ensures
        members_view(final(m)@) == insert_spec(members_view(old(m)@), k@, x@),
{
    let ghost mv = members_view(m@);
    let n = m.len();
    for i in 0..n
        invariant
            n == m@.len(),
            mv == members_view(m@),
            mv == members_view(old(m)@),
            forall|j: int| 0 <= j < i ==> mv[j].0 != k@,
    {
        if crate::text::str_eq(m[i].0.as_str(), k.as_str()) {
            proof {
                lemma_insert_at(mv, k@, x@, i as int);
            }
            let ghost kv = k@;
            let ghost xv = x@;
            m.set(i, (k, x));
            proof {
                assert(members_view(m@) =~= mv.update(i as int, (kv, xv)));
            }
            return;
        }
    }
    proof {
        lemma_insert_new(mv, k@, x@);
    }
    let ghost kv = k@;
    let ghost xv = x@;
    m.push((k, x));
    proof {
        assert(members_view(m@) =~= mv.push((kv, xv)));
    }
}

impl Json {
    /// The text when this is a JSON string.
    pub fn as_str(&self) -> (r: Option<&String>)
        ensures
            match r {
                Some(s) => as_str_spec(self@) == Some(s@),
                None => as_str_spec(self@) is None,
            },
    {
        match self {
            Json::Str(s) => Some(s),
            _ => None,
        }
    }

    /// The value of member `key` when this is an object.
    pub fn get(&self, key: &str) -> (r: Option<&Json>)
        ensures
            match r {
                Some(x) => get_spec(self@, key@) == Some(x@),
                None => get_spec(self@, key@) is None,
            },
    {
        match self {
            Json::Object(m) => {
                proof {
                    lemma_view_unfold(*self);
                }
                let ghost mv = members_view(m@);
                assert(self@ == JsonV::Object(mv));
                for i in 0..m.len()
                    invariant
                        mv == members_view(m@),
                        self@ == JsonV::Object(mv),
                        forall|j: int| 0 <= j < i ==> mv[j].0 != key@,
                {
                    if crate::text::str_eq(m[i].0.as_str(), key) {
                        proof {
                            lemma_lookup_skip(mv, key@, i as int);
                            assert(mv.skip(i as int)[0] == mv[i as int]);
                            assert(mv[i as int] == (m@[i as int].0@, m@[i as int].1@));
                        }
                        return Some(&m[i].1);
                    }
                }
                proof {
                    lemma_lookup_none(mv, key@);
                }
                None
            },
            _ => None,
        }
    }
}

} // verus!

verus! {

#[verifier::external_type_specification]
#[verifier::external_body]
pub struct ExSerdeValue(Value);

/// Converts a library value into the `serde_json` value with the same shape,
/// one node for one node. A `Number` whose text `serde_json` does not read as
/// a number becomes a string holding that text.
#[verifier::external_body]
fn into_serde(j: &Json) -> Value {
    match j {
        Json::Null => Value::Null,
        Json::Bool(b) => Value::Bool(*b),
        Json::Number(t) => match serde_json::from_str::<serde_json::Number>(t) {
            Ok(n) => Value::Number(n),
            Err(_) => Value::String(t.clone()),
        },
        Json::Str(s) => Value::String(s.clone()),
        Json::Array(v) => Value::Array(v.iter().map(into_serde).collect()),
        Json::Object(m) => Value::Object(m.iter().map(|p| (p.0.clone(), into_serde(&p.1))).collect()),
    }
}

/// Converts a `serde_json` value into the library value with the same shape,
/// one node for one node; a number keeps the text `serde_json` prints for it.
#[verifier::external_body]
fn from_serde(v: &Value) -> Json {
    match v {
        Value::Null => Json::Null,
        Value::Bool(b) => Json::Bool(*b),
        Value::Number(n) => Json::Number(n.to_string()),
        Value::String(s) => Json::Str(s.clone()),
        Value::Array(a) => Json::Array(a.iter().map(from_serde).collect()),
        Value::Object(m) => Json::Object(m.iter().map(|(k, x)| (k.clone(), from_serde(x))).collect()),
    }
}

/// The compact JSON text that `serde_json` prints for a value
/// (`serde_json::Value`'s `Display`, as `to_string` gives it).
pub uninterp spec fn json_text(v: JsonV) -> Seq<char>;

/// What `serde_json::from_str::<serde_json::Value>` reads from a text:
/// `None` when the text is not a JSON document.
pub uninterp spec fn json_parse(s: Seq<char>) -> Option<JsonV>;

/// Calls `serde_json::Value::to_string` on the value; its text is named `json_text`.
#[verifier::external_body]
pub(crate) fn to_json_string(j: &Json) -> (s: String)
    ensures
        s@ == json_text(j@),
{
    into_serde(j).to_string()
}

/// Calls `serde_json::from_str::<serde_json::Value>`; its outcome is named `json_parse`.
#[verifier::external_body]
pub(crate) fn parse_json(s: &str) -> (r: Option<Json>)
    ensures
        match r {
            Some(j) => json_parse(s@) == Some(j@),
            None => json_parse(s@) is None,
        },
{
    match serde_json::from_str::<Value>(s) {
        Ok(v) => Some(from_serde(&v)),
        Err(_) => None,
    }
}

} // verus!
