use nexbox::json::{number_string, to_json_string, Json, JsonNumber};

fn conv(v: &serde_json::Value) -> Json {
    match v {
        serde_json::Value::Null => Json::Null,
        serde_json::Value::Bool(b) => Json::Bool(*b),
        serde_json::Value::Number(n) => {
            if let Some(u) = n.as_u64() {
                Json::Num(JsonNumber::PosInt(u))
            } else if let Some(i) = n.as_i64() {
                Json::Num(JsonNumber::NegInt(i))
            } else {
                Json::Num(JsonNumber::Float(n.to_string(), n.as_f64().unwrap_or(0.0) > 0.0))
            }
        }
        serde_json::Value::String(s) => Json::Str(s.clone()),
        serde_json::Value::Array(a) => Json::Arr(a.iter().map(conv).collect()),
        serde_json::Value::Object(m) => Json::Obj(m.iter().map(|(k, v)| (k.clone(), conv(v))).collect()),
    }
}

fn j(text: &str) -> Json {
    conv(&serde_json::from_str::<serde_json::Value>(text).expect("test JSON"))
}

#[test]
fn reading_members() {
    let v = j(r#"{"a": 1, "b": "x", "c": [true, null], "d": -5, "e": 1.5}"#);
    assert_eq!(v.get("a").and_then(|x| x.as_u64()), Some(1));
    assert_eq!(v.get("b").and_then(|x| x.as_str()).map(|s| s.as_str()), Some("x"));
    assert_eq!(v.get("c").and_then(|x| x.as_array()).map(|a| a.len()), Some(2));
    assert_eq!(v.get("d").and_then(|x| x.as_i64()), Some(-5));
    assert_eq!(v.get("d").and_then(|x| x.as_u64()), None);
    assert!(v.get("e").map(|x| x.is_positive()).unwrap_or(false));
    assert!(v.get("zz").is_none());
    assert!(j("[1]").get("a").is_none());
}

#[test]
fn numbers_print_as_json_does() {
    assert_eq!(number_string(&JsonNumber::PosInt(42)), "42");
    assert_eq!(number_string(&JsonNumber::NegInt(i64::MIN)), "-9223372036854775808");
    assert_eq!(number_string(&JsonNumber::Float("1.5".to_string(), true)), "1.5");
}

#[test]
fn compact_text_matches_serde_json() {
    let text = r#"{"a":[1,-2,"q\"\\\n\u0001"],"b":{"c":null,"d":true}}"#;
    let value: serde_json::Value = serde_json::from_str(text).unwrap();
    assert_eq!(to_json_string(&conv(&value)), value.to_string());
}
