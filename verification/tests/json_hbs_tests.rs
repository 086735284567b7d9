use aipack::hbs::hbs_render;
use aipack::jsoncodec::parse;
use serde_json::Number;
use serde_json::Value;

fn john() -> Value {
    let mut obj = serde_json::Map::new();
    obj.insert("name".to_string(), Value::String("John".to_string()));
    obj.insert("age".to_string(), Value::Number(Number::from(30)));
    Value::Object(obj)
}

fn john_complex() -> Value {
    let mut address = serde_json::Map::new();
    address.insert("street".to_string(), Value::String("123 Main St".to_string()));
    address.insert("city".to_string(), Value::String("New York".to_string()));

    let hobbies = Value::Array(vec![
        Value::String("reading".to_string()),
        Value::String("gaming".to_string()),
    ]);

    let mut obj = serde_json::Map::new();
    obj.insert("name".to_string(), Value::String("John".to_string()));
    obj.insert("age".to_string(), Value::Number(Number::from(30)));
    obj.insert("address".to_string(), Value::Object(address));
    obj.insert("hobbies".to_string(), hobbies);
    Value::Object(obj)
}

#[test]
fn test_lua_json_parse_simple() {
    let content = r#"{"name": "John", "age": 30}"#;
    let res = parse(content).expect("should parse");
    assert_eq!(res["name"], "John");
    assert_eq!(res["age"], 30);
}

#[test]
fn test_lua_json_parse_invalid() {
    let content = "{invalid_json}";
    let err = parse(content).expect_err("expected error");
    assert!(
        err.message().contains("json.parse failed"),
        "unexpected message: {}",
        err.message()
    );
}

#[test]
fn test_lua_json_stringify_pretty() {
    let res = aipack::jsoncodec::stringify(&john()).expect("should stringify");
    let parsed: Value = serde_json::from_str(&res).expect("should parse back");
    assert_eq!(parsed["name"], "John");
    assert_eq!(parsed["age"], 30);
    assert!(res.contains('\n'), "expected pretty formatting with newlines");
    assert!(res.contains("  "), "expected pretty formatting with indentation");
}

#[test]
fn test_lua_json_stringify_complex() {
    let res = aipack::jsoncodec::stringify(&john_complex()).expect("should stringify");
    let parsed: Value = serde_json::from_str(&res).expect("should parse back");
    assert_eq!(parsed["name"], "John");
    assert_eq!(parsed["age"], 30);
    assert_eq!(parsed["address"]["street"], "123 Main St");
    assert_eq!(parsed["hobbies"][0], "reading");
    assert!(res.contains('\n'), "expected pretty formatting with newlines");
    assert!(res.contains("  "), "expected pretty formatting with indentation");
}

#[test]
fn test_lua_json_stringify_to_line() {
    let res = aipack::jsoncodec::stringify_to_line(&john_complex()).expect("should stringify");
    assert!(res.contains(r#""name":"John""#));
    assert!(!res.contains('\n'));
    assert!(!res.contains("  "));
}

#[test]
fn test_json_round_trip() {
    let v = john_complex();
    let line = aipack::jsoncodec::stringify_to_line(&v).expect("should stringify");
    let back = parse(&line).expect("should parse");
    assert_eq!(back, v, "round trip must be deep-equal");

    let pretty = aipack::jsoncodec::stringify(&v).expect("should stringify");
    let back = parse(&pretty).expect("should parse");
    assert_eq!(back, v, "round trip must be deep-equal");
}

#[test]
fn test_lua_hbs_render() {
    let mut data = serde_json::Map::new();
    data.insert("name".to_string(), Value::String("Alice".to_string()));
    let result = hbs_render("Hello, {{name}}!", &Value::Object(data)).expect("should render");
    assert_eq!(result, "Hello, Alice!");
}

#[test]
fn test_hbs_render_rejects_non_object() {
    let err = hbs_render("Hello, {{name}}!", &Value::String("Alice".to_string()))
        .expect_err("should fail");
    assert!(
        err.message().starts_with("utils.hbs.render failed: "),
        "unexpected message: {}",
        err.message()
    );
}
