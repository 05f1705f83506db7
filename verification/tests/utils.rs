use agentsdk::json::Json;
use agentsdk::utils::to_terse_json;

fn obj(m: Vec<(&str, Json)>) -> Json {
    Json::Object(m.into_iter().map(|(k, v)| (k.to_string(), v)).collect())
}

fn s(t: &str) -> Json {
    Json::Str(t.into())
}

#[test]
fn properties_become_terse_types() {
    let schema = obj(vec![
        ("type", s("object")),
        (
            "properties",
            obj(vec![
                ("path", obj(vec![("type", s("string")), ("description", s("File path"))])),
                ("count", obj(vec![("type", s("integer")), ("format", s("uint"))])),
                ("mode", obj(vec![("enum", Json::Array(vec![s("a"), s("b")]))])),
                ("tags", obj(vec![("type", s("array")), ("items", obj(vec![("type", s("string"))]))])),
                ("inner", obj(vec![("type", s("object")), ("properties", obj(vec![("x", obj(vec![("type", s("boolean"))]))]))])),
                ("free", s("not an object")),
            ]),
        ),
        ("required", Json::Array(vec![s("path"), s("tags")])),
    ]);
    let t = to_terse_json(&schema);
    assert_eq!(t.get("path"), Some(&s("<string> // File path")));
    assert_eq!(t.get("count?"), Some(&s("<uint>")));
    assert_eq!(t.get("mode?"), Some(&s("<enum: a | b>")));
    assert_eq!(t.get("tags"), Some(&Json::Array(vec![s("<string>")])));
    assert_eq!(t.get("inner?"), Some(&obj(vec![("x?", s("<boolean>"))])));
    assert_eq!(t.get("free?"), Some(&s("<any>")));
}

#[test]
fn non_object_schemas_are_kept() {
    let schema = obj(vec![("type", s("string"))]);
    assert_eq!(to_terse_json(&schema), obj(vec![("type", s("string"))]));
    assert_eq!(to_terse_json(&Json::Null), Json::Null);
}

#[test]
fn numbers_in_enums_keep_their_text() {
    let schema = obj(vec![
        ("type", s("object")),
        ("properties", obj(vec![("n", obj(vec![("enum", Json::Array(vec![Json::Number("1".into()), s("x")]))]))])),
    ]);
    assert_eq!(to_terse_json(&schema).get("n?"), Some(&s("<enum: 1 | x>")));
}
