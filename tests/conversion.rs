use rsjson::codec::RsJson;
use rsjson::convert::{json_to_lua_value, lua_value_to_json, number_from_parts, ConversionError};
use rsjson::host::{LuaKey, LuaValue};
use rsjson::json::{Json, JsonNumber};

fn s(text: &str) -> LuaValue {
    LuaValue::String(text.as_bytes().to_vec())
}

fn show(j: &Json) -> String {
    format!("{:?}", j)
}

fn to_serde(j: &Json) -> serde_json::Value {
    match j {
        Json::Null => serde_json::Value::Null,
        Json::Bool(b) => serde_json::Value::Bool(*b),
        Json::Number(JsonNumber::Int(i)) => serde_json::Value::from(*i),
        Json::Number(JsonNumber::Float(bits)) => serde_json::Value::from(f64::from_bits(*bits)),
        Json::Str(t) => serde_json::Value::String(t.clone()),
        Json::Array(items) => serde_json::Value::Array(items.iter().map(to_serde).collect()),
        Json::Object(members) => {
            let mut m = serde_json::Map::new();
            for (k, v) in members {
                m.insert(k.clone(), to_serde(v));
            }
            serde_json::Value::Object(m)
        }
    }
}

fn from_serde(v: &serde_json::Value) -> Json {
    match v {
        serde_json::Value::Null => Json::Null,
        serde_json::Value::Bool(b) => Json::Bool(*b),
        serde_json::Value::Number(n) => {
            Json::Number(number_from_parts(n.as_i64(), n.as_f64().map(f64::to_bits)).unwrap())
        }
        serde_json::Value::String(t) => Json::Str(t.clone()),
        serde_json::Value::Array(items) => Json::Array(items.iter().map(from_serde).collect()),
        serde_json::Value::Object(m) => {
            Json::Object(m.iter().map(|(k, v)| (k.clone(), from_serde(v))).collect())
        }
    }
}

#[test]
fn sequential_keys_make_an_array() {
    let t = LuaValue::Table(vec![
        (LuaKey::Integer(1), s("x")),
        (LuaKey::Integer(2), LuaValue::Integer(7)),
        (LuaKey::Integer(3), LuaValue::Boolean(false)),
    ]);
    let j = lua_value_to_json(&t).unwrap();
    assert_eq!(show(&j), r#"Array([Str("x"), Number(Int(7)), Bool(false)])"#);
}

#[test]
fn gap_in_keys_makes_an_object() {
    let t = LuaValue::Table(vec![
        (LuaKey::Integer(1), s("a")),
        (LuaKey::Integer(2), s("b")),
        (LuaKey::Integer(4), s("d")),
    ]);
    let j = lua_value_to_json(&t).unwrap();
    assert_eq!(
        show(&j),
        r#"Object([("1", Str("a")), ("2", Str("b")), ("4", Str("d"))])"#
    );
    assert_eq!(RsJson::stringify(&to_serde(&j)).unwrap(), r#"{"1":"a","2":"b","4":"d"}"#);
}

#[test]
fn keys_one_and_three_make_an_object() {
    let t = LuaValue::Table(vec![(LuaKey::Integer(1), s("a")), (LuaKey::Integer(3), s("c"))]);
    let j = lua_value_to_json(&t).unwrap();
    assert_eq!(show(&j), r#"Object([("1", Str("a")), ("3", Str("c"))])"#);
}

#[test]
fn out_of_order_keys_make_an_object() {
    let t = LuaValue::Table(vec![(LuaKey::Integer(2), s("b")), (LuaKey::Integer(1), s("a"))]);
    let j = lua_value_to_json(&t).unwrap();
    assert_eq!(show(&j), r#"Object([("2", Str("b")), ("1", Str("a"))])"#);
}

#[test]
fn mixed_keys_make_an_object() {
    let t = LuaValue::Table(vec![
        (LuaKey::String(b"name".to_vec()), s("n")),
        (LuaKey::Integer(-5), LuaValue::Nil),
        (LuaKey::Other("true".to_string()), LuaValue::Integer(1)),
    ]);
    let j = lua_value_to_json(&t).unwrap();
    assert_eq!(
        show(&j),
        r#"Object([("name", Str("n")), ("-5", Null), ("true", Number(Int(1)))])"#
    );
}

#[test]
fn same_key_text_keeps_first_place() {
    let t = LuaValue::Table(vec![
        (LuaKey::String(b"k".to_vec()), LuaValue::Integer(1)),
        (LuaKey::Other("k".to_string()), LuaValue::Integer(2)),
    ]);
    let j = lua_value_to_json(&t).unwrap();
    assert_eq!(show(&j), r#"Object([("k", Number(Int(2)))])"#);
}

#[test]
fn empty_table_is_an_empty_array() {
    let j = lua_value_to_json(&LuaValue::Table(vec![])).unwrap();
    assert_eq!(show(&j), "Array([])");
    assert_eq!(RsJson::stringify(&to_serde(&j)).unwrap(), "[]");
}

#[test]
fn non_finite_floats_are_rejected() {
    for f in [f64::INFINITY, f64::NEG_INFINITY, f64::NAN] {
        let r = lua_value_to_json(&LuaValue::Number(f.to_bits()));
        assert!(matches!(r, Err(ConversionError::NonFinite)));
    }
    let nested = LuaValue::Table(vec![(LuaKey::Integer(1), LuaValue::Number(f64::NAN.to_bits()))]);
    assert!(matches!(lua_value_to_json(&nested), Err(ConversionError::NonFinite)));
}

#[test]
fn finite_float_is_kept() {
    let bits = 2.5f64.to_bits();
    let j = lua_value_to_json(&LuaValue::Number(bits)).unwrap();
    assert!(matches!(j, Json::Number(JsonNumber::Float(b)) if b == bits));
    assert_eq!(RsJson::stringify(&to_serde(&j)).unwrap(), "2.5");
}

#[test]
fn invalid_text_is_rejected() {
    let bad = LuaValue::String(vec![0xc3, 0x28]);
    assert!(matches!(lua_value_to_json(&bad), Err(ConversionError::InvalidText)));
    let bad_key = LuaValue::Table(vec![(LuaKey::String(vec![0xff]), LuaValue::Nil)]);
    assert!(matches!(lua_value_to_json(&bad_key), Err(ConversionError::InvalidText)));
}

#[test]
fn unsupported_value_is_rejected() {
    let f = LuaValue::Unsupported("function".to_string());
    match lua_value_to_json(&f) {
        Err(ConversionError::Unsupported(name)) => assert_eq!(name, "function"),
        other => panic!("unexpected {:?}", other),
    }
}

#[test]
fn scalars_convert() {
    assert_eq!(show(&lua_value_to_json(&LuaValue::Nil).unwrap()), "Null");
    assert_eq!(show(&lua_value_to_json(&LuaValue::Boolean(true)).unwrap()), "Bool(true)");
    assert_eq!(
        show(&lua_value_to_json(&LuaValue::Integer(i64::MIN)).unwrap()),
        "Number(Int(-9223372036854775808))"
    );
    assert_eq!(show(&lua_value_to_json(&s("héllo")).unwrap()), r#"Str("héllo")"#);
}

#[test]
fn number_fidelity() {
    let v = RsJson::parse("42").unwrap();
    let j = from_serde(&v);
    assert!(matches!(json_to_lua_value(&j), LuaValue::Integer(42)));
    let v = RsJson::parse("42.5").unwrap();
    let j = from_serde(&v);
    match json_to_lua_value(&j) {
        LuaValue::Number(bits) => assert_eq!(f64::from_bits(bits), 42.5),
        other => panic!("unexpected {:?}", other),
    }
}

#[test]
fn number_parts_policy() {
    assert!(matches!(number_from_parts(Some(42), Some(42.0f64.to_bits())), Ok(JsonNumber::Int(42))));
    let bits = 1.8e19f64.to_bits();
    assert!(matches!(number_from_parts(None, Some(bits)), Ok(JsonNumber::Float(b)) if b == bits));
    assert!(matches!(number_from_parts(None, None), Err(ConversionError::InvalidNumber)));
}

#[test]
fn encode_table_end_to_end() {
    let t = LuaValue::Table(vec![(LuaKey::Integer(1), s("a")), (LuaKey::Integer(2), s("b"))]);
    let j = lua_value_to_json(&t).unwrap();
    let v = to_serde(&j);
    assert_eq!(RsJson::stringify(&v).unwrap(), r#"["a","b"]"#);
    let pretty = RsJson::stringify_pretty(&v).unwrap();
    assert_eq!(pretty, "[\n  \"a\",\n  \"b\"\n]");
    let back: serde_json::Value = serde_json::from_str(&pretty).unwrap();
    assert_eq!(back, v);
}

#[test]
fn decode_text_end_to_end() {
    let v = RsJson::parse(r#"{"x":1,"y":[true,null]}"#).unwrap();
    let host = json_to_lua_value(&from_serde(&v));
    match host {
        LuaValue::Table(pairs) => {
            assert_eq!(pairs.len(), 2);
            assert!(matches!(&pairs[0], (LuaKey::String(k), LuaValue::Integer(1)) if k == b"x"));
            match &pairs[1] {
                (LuaKey::String(k), LuaValue::Table(inner)) => {
                    assert_eq!(k, b"y");
                    assert_eq!(inner.len(), 2);
                    assert!(matches!(&inner[0], (LuaKey::Integer(1), LuaValue::Boolean(true))));
                    assert!(matches!(&inner[1], (LuaKey::Integer(2), LuaValue::Nil)));
                }
                other => panic!("unexpected {:?}", other),
            }
        }
        other => panic!("unexpected {:?}", other),
    }
}

#[test]
fn round_trip_through_host() {
    let text = r#"{"a":[1,2.5,"s",null,false],"b":{"c":[]},"d":"é"}"#;
    let j = from_serde(&RsJson::parse(text).unwrap());
    let back = lua_value_to_json(&json_to_lua_value(&j)).unwrap();
    assert_eq!(show(&back), show(&j));
    assert_eq!(RsJson::stringify(&to_serde(&back)).unwrap(), text);
}

#[test]
fn empty_object_comes_back_as_array() {
    let j = Json::Object(vec![]);
    let back = lua_value_to_json(&json_to_lua_value(&j)).unwrap();
    assert_eq!(show(&back), "Array([])");
}
