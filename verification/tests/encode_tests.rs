use orjson::EncodeError;
use orjson::Fallback;
use orjson::NoFallback;
use orjson::Value;
use orjson::serialize;
use orjson::STRICT_INTEGER;

fn encode_plain(v: &Value, opts: u8) -> Result<String, EncodeError> {
    serialize::<NoFallback>(v, None, opts)
}

fn float_value(x: f64) -> Value {
    Value::Float(serde_json::to_string(&x).unwrap())
}

#[test]
fn test_scalars() {
    assert_eq!(encode_plain(&Value::Null, 0).unwrap(), "null");
    assert_eq!(encode_plain(&Value::Bool(true), 0).unwrap(), "true");
    assert_eq!(encode_plain(&Value::Bool(false), 0).unwrap(), "false");
    assert_eq!(encode_plain(&Value::Int(0), 0).unwrap(), "0");
    assert_eq!(encode_plain(&Value::Int(-42), 0).unwrap(), "-42");
    assert_eq!(
        encode_plain(&Value::Int(i64::MIN), 0).unwrap(),
        "-9223372036854775808"
    );
    assert_eq!(
        encode_plain(&Value::Int(i64::MAX), 0).unwrap(),
        "9223372036854775807"
    );
    assert_eq!(
        encode_plain(&Value::Str(String::from("hello")), 0).unwrap(),
        "\"hello\""
    );
    assert_eq!(encode_plain(&float_value(2.5), 0).unwrap(), "2.5");
}

#[test]
fn test_string_escaping() {
    let v = Value::Str(String::from("a\"b\\c\nd\te\u{01}f\u{08}g\u{0C}h\rü"));
    assert_eq!(
        encode_plain(&v, 0).unwrap(),
        "\"a\\\"b\\\\c\\nd\\te\\u0001f\\bg\\fh\\rü\""
    );
}

#[test]
fn test_map_scenario() {
    let inner = Value::List(vec![Value::Bool(true), Value::Null, float_value(2.5)]);
    let v = Value::Dict(vec![
        (Value::Str(String::from("a")), Value::Int(1)),
        (Value::Str(String::from("b")), inner),
    ]);
    assert_eq!(
        encode_plain(&v, 0).unwrap(),
        "{\"a\":1,\"b\":[true,null,2.5]}"
    );
}

#[test]
fn test_roundtrip_preserves_values_and_order() {
    let v = Value::Dict(vec![
        (Value::Str(String::from("z")), Value::Int(3)),
        (
            Value::Str(String::from("a")),
            Value::List(vec![
                Value::Str(String::from("x")),
                Value::Bool(false),
                Value::Null,
            ]),
        ),
        (
            Value::Str(String::from("m")),
            Value::Dict(vec![(Value::Str(String::from("k")), Value::Int(-7))]),
        ),
    ]);
    let text = encode_plain(&v, 0).unwrap();
    let parsed: serde_json::Value = serde_json::from_str(&text).unwrap();

    let mut expected_map = serde_json::Map::new();
    expected_map.insert(String::from("z"), serde_json::Value::from(3i64));
    expected_map.insert(
        String::from("a"),
        serde_json::Value::Array(vec![
            serde_json::Value::String(String::from("x")),
            serde_json::Value::Bool(false),
            serde_json::Value::Null,
        ]),
    );
    let mut inner_map = serde_json::Map::new();
    inner_map.insert(String::from("k"), serde_json::Value::from(-7i64));
    expected_map.insert(String::from("m"), serde_json::Value::Object(inner_map));
    let expected = serde_json::Value::Object(expected_map);

    assert_eq!(parsed, expected);
    let keys: Vec<&String> = parsed.as_object().unwrap().keys().collect();
    assert_eq!(keys, vec!["z", "a", "m"]);
}

#[test]
fn test_strict_integer_boundary() {
    let max_exact = Value::Int(9007199254740991);
    assert_eq!(
        encode_plain(&max_exact, STRICT_INTEGER).unwrap(),
        "9007199254740991"
    );
    let min_exact = Value::Int(-9007199254740991);
    assert_eq!(
        encode_plain(&min_exact, STRICT_INTEGER).unwrap(),
        "-9007199254740991"
    );
    let over = Value::Int(9007199254740992);
    assert!(matches!(
        encode_plain(&over, STRICT_INTEGER),
        Err(EncodeError::IntegerRangeExceeded)
    ));
    let under = Value::Int(-9007199254740992);
    assert!(matches!(
        encode_plain(&under, STRICT_INTEGER),
        Err(EncodeError::IntegerRangeExceeded)
    ));
    let over_lax = Value::Int(9007199254740992);
    assert_eq!(encode_plain(&over_lax, 0).unwrap(), "9007199254740992");
}

fn nested_lists(depth: usize) -> Value {
    let mut v = Value::Int(1);
    for _ in 0..depth {
        v = Value::List(vec![v]);
    }
    v
}

#[test]
fn test_depth_boundary() {
    let ok = encode_plain(&nested_lists(255), 0).unwrap();
    let mut expected = String::new();
    for _ in 0..255 {
        expected.push('[');
    }
    expected.push('1');
    for _ in 0..255 {
        expected.push(']');
    }
    assert_eq!(ok, expected);
    assert!(matches!(
        encode_plain(&nested_lists(256), 0),
        Err(EncodeError::RecursionLimitReached)
    ));
}

#[test]
fn test_non_string_key() {
    let v = Value::Dict(vec![(Value::Int(1), Value::Int(2))]);
    assert!(matches!(
        encode_plain(&v, 0),
        Err(EncodeError::NonStringKey)
    ));
}

#[test]
fn test_invalid_string_value_and_key() {
    assert!(matches!(
        encode_plain(&Value::StrInvalid, 0),
        Err(EncodeError::InvalidString)
    ));
    let v = Value::Dict(vec![(Value::StrInvalid, Value::Int(2))]);
    assert!(matches!(
        encode_plain(&v, 0),
        Err(EncodeError::InvalidString)
    ));
}

#[test]
fn test_integer_overflow() {
    assert!(matches!(
        encode_plain(&Value::IntBig, 0),
        Err(EncodeError::IntegerOverflow)
    ));
}

struct ReplaceWithX;

impl Fallback for ReplaceWithX {
    fn call(&self, _v: &Value) -> Option<Value> {
        Some(Value::Str(String::from("X")))
    }
}

struct RefuseAll;

impl Fallback for RefuseAll {
    fn call(&self, _v: &Value) -> Option<Value> {
        None
    }
}

struct AlwaysUnrecognized;

impl Fallback for AlwaysUnrecognized {
    fn call(&self, _v: &Value) -> Option<Value> {
        Some(Value::Unrecognized(String::from("spam")))
    }
}

#[test]
fn test_unrecognized_without_hook() {
    let v = Value::Unrecognized(String::from("frozenset"));
    match encode_plain(&v, 0) {
        Err(EncodeError::TypeNotSerializable(name)) => assert_eq!(name, "frozenset"),
        other => panic!("expected TypeNotSerializable, got {:?}", other),
    }
}

#[test]
fn test_unrecognized_with_hook() {
    let v = Value::Unrecognized(String::from("frozenset"));
    let hook = ReplaceWithX;
    assert_eq!(serialize(&v, Some(&hook), 0).unwrap(), "\"X\"");
}

#[test]
fn test_hook_failure() {
    let v = Value::Unrecognized(String::from("frozenset"));
    let hook = RefuseAll;
    match serialize(&v, Some(&hook), 0) {
        Err(EncodeError::FallbackHookFailed(name)) => assert_eq!(name, "frozenset"),
        other => panic!("expected FallbackHookFailed, got {:?}", other),
    }
}

#[test]
fn test_hook_recursion_limit() {
    let v = Value::Unrecognized(String::from("spam"));
    let hook = AlwaysUnrecognized;
    assert!(matches!(
        serialize(&v, Some(&hook), 0),
        Err(EncodeError::FallbackRecursionLimitReached)
    ));
}

#[test]
fn test_hook_inside_container() {
    let v = Value::List(vec![Value::Int(1), Value::Unrecognized(String::from("set"))]);
    let hook = ReplaceWithX;
    assert_eq!(serialize(&v, Some(&hook), 0).unwrap(), "[1,\"X\"]");
    assert!(matches!(
        encode_plain(&v, 0),
        Err(EncodeError::TypeNotSerializable(_))
    ));
}

#[test]
fn test_empty_containers() {
    assert_eq!(encode_plain(&Value::List(vec![]), 0).unwrap(), "[]");
    assert_eq!(encode_plain(&Value::Tuple(vec![]), 0).unwrap(), "[]");
    assert_eq!(encode_plain(&Value::Dict(vec![]), 0).unwrap(), "{}");
}

#[test]
fn test_tuple_renders_as_array() {
    let v = Value::Tuple(vec![Value::Int(1), Value::Str(String::from("two"))]);
    assert_eq!(encode_plain(&v, 0).unwrap(), "[1,\"two\"]");
}

struct ChainHook;

impl Fallback for ChainHook {
    fn call(&self, v: &Value) -> Option<Value> {
        match v {
            Value::Unrecognized(name) if name == "first" => {
                Some(Value::Unrecognized(String::from("second")))
            }
            Value::Unrecognized(name) if name == "second" => Some(Value::Int(5)),
            _ => None,
        }
    }
}

#[test]
fn test_hook_chain() {
    let v = Value::Unrecognized(String::from("first"));
    let hook = ChainHook;
    assert_eq!(serialize(&v, Some(&hook), 0).unwrap(), "5");
}

#[test]
fn test_record_output_parses() {
    let v = Value::Record(vec![
        (String::from("k one"), Value::Str(String::from("v\n1"))),
        (String::from("k2"), Value::List(vec![Value::Int(1), Value::Int(2)])),
    ]);
    let text = serialize::<NoFallback>(&v, None, orjson::SERIALIZE_DATACLASS).unwrap();
    let parsed: serde_json::Value = serde_json::from_str(&text).unwrap();
    let obj = parsed.as_object().unwrap();
    assert_eq!(obj["k one"], serde_json::Value::String(String::from("v\n1")));
    assert_eq!(obj["k2"].as_array().unwrap().len(), 2);
}

#[test]
fn test_error_messages() {
    assert_eq!(
        EncodeError::NonStringKey.message(),
        "Dict key must be str"
    );
    assert_eq!(
        EncodeError::IntegerRangeExceeded.message(),
        "Integer exceeds 53-bit range"
    );
    assert_eq!(
        EncodeError::TypeNotSerializable(String::from("frozenset")).message(),
        "Type is not JSON serializable: frozenset"
    );
    assert_eq!(
        EncodeError::TimeMustNotHaveTimezone.message(),
        "datetime.time must not have tzinfo set"
    );
}
