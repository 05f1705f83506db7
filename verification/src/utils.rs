//! A terse rendering of JSON schemas for prompts: each property becomes
//! `name` (or `name?` when optional) with its type as `<type>`, enum values
//! as `<enum: a | b>`, arrays as a one-item list, nested objects likewise.
use vstd::prelude::*;
use crate::json::{as_str_spec, get_spec, insert_spec, lookup, members_view, to_json_string, json_text, Json, JsonV};
use crate::text::{chars_of, owned, push_chars, push_str, string_from_chars};

verus! {

/// The size of a JSON value counting object members (arrays count as one).
pub open spec fn jsize(v: JsonV) -> nat
    decreases v,
{
    match v {
        JsonV::Object(m) => 1 + msize(m),
        _ => 1,
    }
}

/// The size of a member list.
pub open spec fn msize(m: Seq<(Seq<char>, JsonV)>) -> nat
    decreases m,
{
    if m.len() == 0 {
        0
    } else {
        msize(m.drop_last()) + 1 + jsize(m.last().1)
    }
}

pub proof fn lemma_member_size(m: Seq<(Seq<char>, JsonV)>, i: int)
    requires
        0 <= i < m.len(),
    ensures
        jsize(m[i].1) < msize(m),
    decreases m.len(),
{
    if i < m.len() - 1 {
        lemma_member_size(m.drop_last(), i);
    }
}

pub proof fn lemma_lookup_size(m: Seq<(Seq<char>, JsonV)>, k: Seq<char>)
    ensures
        lookup(m, k) matches Some(x) ==> jsize(x) < msize(m),
    decreases m.len(),
{
    if m.len() > 0 {
        if m[0].0 == k {
            lemma_member_size(m, 0);
        } else {
            lemma_lookup_size(m.drop_first(), k);
            lemma_msize_drop_first(m);
        }
    }
}

pub proof fn lemma_msize_drop_first(m: Seq<(Seq<char>, JsonV)>)
    requires
        m.len() > 0,
    ensures
        msize(m.drop_first()) < msize(m),
    decreases m.len(),
{
    if m.len() > 1 {
        lemma_msize_drop_first(m.drop_last());
        assert(m.drop_first().drop_last() =~= m.drop_last().drop_first());
        assert(m.drop_first().last() == m.last());
    } else {
        assert(m.drop_first() =~= Seq::<(Seq<char>, JsonV)>::empty());
    }
}

/// The text of member `k` of `v` when it is a string.
pub open spec fn str_member(v: JsonV, k: Seq<char>) -> Option<Seq<char>> {
    match get_spec(v, k) {
        Some(x) => as_str_spec(x),
        None => None,
    }
}

/// Whether the schema lists `name` among its required properties.
pub open spec fn is_required(schema: JsonV, name: Seq<char>) -> bool {
    match get_spec(schema, "required"@) {
        Some(JsonV::Array(a)) => a.contains(JsonV::Str(name)),
        _ => false,
    }
}

/// The key of a property: its name, with `?` when it is not required.
pub open spec fn terse_key(schema: JsonV, name: Seq<char>) -> Seq<char> {
    if is_required(schema, name) {
        name
    } else {
        name.push('?')
    }
}

/// The terse form of a schema: an object schema with properties becomes
/// an object from keys to terse properties; anything else stays as it is.
pub open spec fn terse(v: JsonV) -> JsonV
    decreases jsize(v), 2nat, 0nat,
{
    match v {
        JsonV::Object(m) => if str_member(v, "type"@) == Some("object"@) {
            match lookup(m, "properties"@) {
                Some(JsonV::Object(ps)) => {
                    proof {
                        lemma_lookup_size(m, "properties"@);
                    }
                    JsonV::Object(terse_members(v, ps, ps.len() as int))
                },
                _ => v,
            }
        } else {
            v
        },
        _ => v,
    }
}

/// The terse members of the first `k` properties `ps` of `schema`, each
/// inserted in turn.
pub open spec fn terse_members(schema: JsonV, ps: Seq<(Seq<char>, JsonV)>, k: int) -> Seq<
    (Seq<char>, JsonV),
>
    decreases msize(ps), 1nat, k,
{
    if k <= 0 || k > ps.len() {
        Seq::empty()
    } else {
        proof {
            lemma_member_size(ps, k - 1);
        }
        insert_spec(
            terse_members(schema, ps, k - 1),
            terse_key(schema, ps[k - 1].0),
            terse_property(ps[k - 1].1),
        )
    }
}

/// `s` without any `"`.
pub open spec fn strip_quotes(s: Seq<char>) -> Seq<char> {
    s.filter(|c: char| c != '"')
}

/// The comment after a property's type: ` // ` and its description, or nothing.
pub open spec fn comment_of(prop: JsonV) -> Seq<char> {
    match str_member(prop, "description"@) {
        Some(d) => if d.len() == 0 {
            Seq::empty()
        } else {
            " // "@ + d
        },
        None => Seq::empty(),
    }
}

/// The type name of a property: its `format`, else its `type`, else `any`.
pub open spec fn type_name_of(prop: JsonV) -> Seq<char> {
    match str_member(prop, "format"@) {
        Some(f) => f,
        None => match str_member(prop, "type"@) {
            Some(t) => t,
            None => "any"@,
        },
    }
}

/// The values of an enum, as their JSON texts without quotes.
pub open spec fn enum_texts(a: Seq<JsonV>) -> Seq<Seq<char>> {
    a.map_values(|x: JsonV| strip_quotes(json_text(x)))
}

/// The terse form of one property.
pub open spec fn terse_property(prop: JsonV) -> JsonV
    decreases jsize(prop), 3nat, 0nat,
{
    match prop {
        JsonV::Object(m) => if str_member(prop, "type"@) == Some("object"@) {
            terse(prop)
        } else {
            match lookup(m, "enum"@) {
                Some(JsonV::Array(a)) => JsonV::Str(
                    "<enum: "@ + crate::text::join(enum_texts(a), " | "@) + ">"@ + comment_of(prop),
                ),
                _ => if str_member(prop, "type"@) == Some("array"@) && lookup(m, "items"@) is Some {
                    proof {
                        lemma_lookup_size(m, "items"@);
                    }
                    JsonV::Array(seq![terse_property(lookup(m, "items"@).unwrap())])
                } else {
                    JsonV::Str("<"@ + type_name_of(prop) + ">"@ + comment_of(prop))
                },
            }
        },
        _ => JsonV::Str("<any>"@ + comment_of(prop)),
    }
}

fn str_member_of<'a>(v: &'a Json, k: &str) -> (r: Option<&'a String>)
    ensures
        match r {
            Some(s) => str_member(v@, k@) == Some(s@),
            None => str_member(v@, k@) is None,
        },
{
    match v.get(k) {
        Some(x) => x.as_str(),
        None => None,
    }
}

fn str_member_is(v: &Json, k: &str, want: &str) -> (b: bool)
    ensures
        b == (str_member(v@, k@) == Some(want@)),
{
    match str_member_of(v, k) {
        Some(s) => crate::text::str_eq(s.as_str(), want),
        None => false,
    }
}

fn required_in(schema: &Json, name: &str) -> (b: bool)
    ensures
        b == is_required(schema@, name@),
{
    match schema.get("required") {
        Some(Json::Array(a)) => {
            proof {
                crate::json::lemma_view_unfold(Json::Array(*a));
            }
            let ghost av = Seq::new(a@.len(), |i: int| a@[i]@);
            assert(get_spec(schema@, "required"@) == Some(JsonV::Array(av)));
            for i in 0..a.len()
                invariant
                    av == Seq::new(a@.len(), |i: int| a@[i]@),
                    get_spec(schema@, "required"@) == Some(JsonV::Array(av)),
                    forall|j: int| 0 <= j < i ==> av[j] != JsonV::Str(name@),
            {
                match &a[i] {
                    Json::Str(s) => {
                        if crate::text::str_eq(s.as_str(), name) {
                            proof {
                                assert(av[i as int] == JsonV::Str(name@));
                                assert(av.contains(JsonV::Str(name@)));
                            }
                            return true;
                        }
                    },
                    _ => {},
                }
            }
            proof {
                if av.contains(JsonV::Str(name@)) {
                    let j = choose|j: int| 0 <= j < av.len() && av[j] == JsonV::Str(name@);
                    assert(av[j] != JsonV::Str(name@));
                }
            }
            false
        },
        _ => false,
    }
}

fn strip_quote_chars(s: &[char]) -> (r: Vec<char>)
    ensures
        r@ == strip_quotes(s@),
{
    let mut r: Vec<char> = Vec::new();
    proof {
        reveal(Seq::filter);
        assert(s@.take(0) =~= Seq::<char>::empty());
    }
    for i in 0..s.len()
        invariant
            r@ == s@.take(i as int).filter(|c: char| c != '"'),
    {
        proof {
            assert(s@.take(i + 1) =~= s@.take(i as int).push(s@[i as int]));
            s@.take(i as int).lemma_filter_push(s@[i as int], |c: char| c != '"');
        }
        if s[i] != '"' {
            r.push(s[i]);
        }
    }
    proof {
        assert(s@.take(s@.len() as int) =~= s@);
    }
    r
}

fn comment_text(prop: &Json) -> (r: Vec<char>)
    ensures
        r@ == comment_of(prop@),
{
    match str_member_of(prop, "description") {
        Some(d) => {
            if d.as_str().is_empty() {
                Vec::new()
            } else {
                let mut r = chars_of(" // ");
                let dc = chars_of(d.as_str());
                crate::text::push_all(&mut r, dc.as_slice());
                r
            }
        },
        None => Vec::new(),
    }
}

fn angle(head: &str, body: &[char], comment: &[char]) -> (r: String)
    ensures
        r@ == head@ + body@ + ">"@ + comment@,
{
    let mut r = owned(head);
    push_chars(&mut r, body);
    push_str(&mut r, ">");
    push_chars(&mut r, comment);
    r
}

/// The terse form of a schema.
pub fn to_terse_json(schema: &Json) -> (r: Json)
    ensures
        r@ == terse(schema@),
    decreases jsize(schema@), 2nat, 0nat,
{
    match schema {
        Json::Object(m) => {
            proof {
                crate::json::lemma_view_unfold(*schema);
            }
            if !str_member_is(schema, "type", "object") {
                return clone_json(schema);
            }
            match schema.get("properties") {
                Some(Json::Object(ps)) => {
                    let ghost psv = members_view(ps@);
                    proof {
                        crate::json::lemma_view_unfold(Json::Object(*ps));
                        lemma_lookup_size(members_view(m@), "properties"@);
                    }
                    let mut out: Vec<(String, Json)> = Vec::new();
                    proof {
                        assert(members_view(out@) =~= terse_members(schema@, psv, 0));
                    }
                    for i in 0..ps.len()
                        invariant
                            psv == members_view(ps@),
                            msize(psv) < jsize(schema@),
                            members_view(out@) == terse_members(schema@, psv, i as int),
                    {
                        proof {
                            lemma_member_size(psv, i as int);
                            assert(psv[i as int] == (ps@[i as int].0@, ps@[i as int].1@));
                        }
                        let name = &ps[i].0;
                        let mut key = owned(name.as_str());
                        if !required_in(schema, name.as_str()) {
                            crate::text::push_char(&mut key, '?');
                        }
                        let val = format_property(&ps[i].1);
                        crate::json::insert_member(&mut out, key, val);
                    }
                    let r = Json::Object(out);
                    proof {
                        crate::json::lemma_view_unfold(r);
                    }
                    r
                },
                _ => clone_json(schema),
            }
        },
        _ => clone_json(schema),
    }
}

/// The terse form of one property.
pub fn format_property(prop: &Json) -> (r: Json)
    ensures
        r@ == terse_property(prop@),
    decreases jsize(prop@), 3nat, 0nat,
{
    let comment = comment_text(prop);
    match prop {
        Json::Object(m) => {
            proof {
                crate::json::lemma_view_unfold(*prop);
            }
            if str_member_is(prop, "type", "object") {
                return to_terse_json(prop);
            }
            let out = match prop.get("enum") {
                Some(Json::Array(a)) => {
                    proof {
                        crate::json::lemma_view_unfold(Json::Array(*a));
                    }
                    let ghost av = Seq::new(a@.len(), |i: int| a@[i]@);
                    let mut vals: Vec<String> = Vec::new();
                    for i in 0..a.len()
                        invariant
                            av == Seq::new(a@.len(), |i: int| a@[i]@),
                            crate::text::views(vals@) == enum_texts(av).take(i as int),
                    {
                        let t = to_json_string(&a[i]);
                        let tc = chars_of(t.as_str());
                        let st = strip_quote_chars(tc.as_slice());
                        let ghost before = crate::text::views(vals@);
                        let sts = string_from_chars(st.as_slice());
                        vals.push(sts);
                        proof {
                            assert(crate::text::views(vals@) =~= before.push(st@));
                            assert(enum_texts(av).take(i + 1) =~= enum_texts(av).take(i as int).push(
                                strip_quotes(json_text(a@[i as int]@)),
                            ));
                        }
                    }
                    proof {
                        assert(enum_texts(av).take(a@.len() as int) =~= enum_texts(av));
                    }
                    let joined = crate::text::join_strings(&vals, " | ");
                    let jc = chars_of(joined.as_str());
                    let r = Json::Str(angle("<enum: ", jc.as_slice(), comment.as_slice()));
                    assert(lookup(members_view(m@), "enum"@) == Some(JsonV::Array(av)));
                    assert(r@ == terse_property(prop@));
                    r
                },
                _ => {
                    if str_member_is(prop, "type", "array") {
                        match prop.get("items") {
                            Some(items) => {
                                proof {
                                    lemma_lookup_size(members_view(m@), "items"@);
                                }
                                let inner = format_property(items);
                                let r = Json::Array(vec![inner]);
                                proof {
                                    crate::json::lemma_view_unfold(r);
                                    assert(r@ == JsonV::Array(seq![inner@])) by {
                                        assert(r@->Array_0 =~= seq![inner@]);
                                    }
                                }
                                return r;
                            },
                            None => {},
                        }
                    }
                    let ty = match str_member_of(prop, "format") {
                        Some(f) => chars_of(f.as_str()),
                        None => match str_member_of(prop, "type") {
                            Some(t) => chars_of(t.as_str()),
                            None => chars_of("any"),
                        },
                    };
                    let r = Json::Str(angle("<", ty.as_slice(), comment.as_slice()));
                    assert(ty@ == type_name_of(prop@));
                    assert(r@ == terse_property(prop@));
                    r
                },
            };
            assert(out@ == terse_property(prop@));
            out
        },
        _ => {
            let any = chars_of("any");
            proof {
                reveal_strlit("<any>");
                reveal_strlit("<");
                reveal_strlit("any");
                reveal_strlit(">");
                assert("<any>"@ =~= "<"@ + "any"@ + ">"@);
            }
            Json::Str(angle("<", any.as_slice(), comment.as_slice()))
        },
    }
}

/// A copy of a JSON value.
pub fn clone_json(j: &Json) -> (r: Json)
    ensures
        r@ == j@,
    decreases j,
{
    match j {
        Json::Null => Json::Null,
        Json::Bool(b) => Json::Bool(*b),
        Json::Number(n) => Json::Number(owned(n.as_str())),
        Json::Str(s) => Json::Str(owned(s.as_str())),
        Json::Array(v) => {
            let mut out: Vec<Json> = Vec::new();
            for i in 0..v.len()
                invariant
                    *j == Json::Array(*v),
                    out@.len() == i,
                    forall|k: int| 0 <= k < i ==> (#[trigger] out@[k])@ == v@[k]@,
            {
                proof {
                    assert(*j == Json::Array(*v));
                    assert(decreases_to!(*j => (*j)->Array_0));
                    assert(decreases_to!((*j)->Array_0 => (*j)->Array_0@));
                    assert(decreases_to!(*j => v@[i as int]));
                }
                out.push(clone_json(&v[i]));
            }
            let r = Json::Array(out);
            proof {
                crate::json::lemma_view_unfold(r);
                crate::json::lemma_view_unfold(*j);
                assert(r@->Array_0 =~= j@->Array_0);
            }
            r
        },
        Json::Object(m) => {
            let mut out: Vec<(String, Json)> = Vec::new();
            for i in 0..m.len()
                invariant
                    *j == Json::Object(*m),
                    out@.len() == i,
                    forall|k: int|
                        0 <= k < i ==> (#[trigger] out@[k]).0@ == m@[k].0@ && out@[k].1@ == m@[k].1@,
            {
                proof {
                    assert(*j == Json::Object(*m));
                    assert(decreases_to!(*j => (*j)->Object_0));
                    assert(decreases_to!((*j)->Object_0 => (*j)->Object_0@));
                    assert(decreases_to!(m@ => m@[i as int]));
                    assert(decreases_to!(m@[i as int] => m@[i as int].1));
                    assert(decreases_to!(*j => m@[i as int].1));
                }
                out.push((owned(m[i].0.as_str()), clone_json(&m[i].1)));
            }
            let r = Json::Object(out);
            proof {
                crate::json::lemma_view_unfold(r);
                crate::json::lemma_view_unfold(*j);
                assert(r@->Object_0 =~= j@->Object_0);
            }
            r
        },
    }
}

} // verus!
