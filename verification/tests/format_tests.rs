use orjson::Date;
use orjson::DateTime;
use orjson::EncodeError;
use orjson::NoFallback;
use orjson::SemanticKind;
use orjson::Time;
use orjson::Value;
use orjson::Zone;
use orjson::classify;
use orjson::serialize;
use orjson::SERIALIZE_DATACLASS;
use orjson::SERIALIZE_UUID;

fn encode_plain(v: &Value, opts: u8) -> Result<String, EncodeError> {
    serialize::<NoFallback>(v, None, opts)
}

#[test]
fn test_date_format() {
    let v = Value::Date(Date { year: 2024, month: 1, day: 5 });
    assert_eq!(encode_plain(&v, 0).unwrap(), "\"2024-01-05\"");
    let early = Value::Date(Date { year: 1, month: 12, day: 31 });
    assert_eq!(encode_plain(&early, 0).unwrap(), "\"0001-12-31\"");
}

#[test]
fn test_time_format() {
    let plain = Value::Time(Time {
        hour: 12,
        minute: 3,
        second: 9,
        microsecond: 0,
        has_tzinfo: false,
    });
    assert_eq!(encode_plain(&plain, 0).unwrap(), "\"12:03:09\"");
    let fractional = Value::Time(Time {
        hour: 0,
        minute: 0,
        second: 0,
        microsecond: 42,
        has_tzinfo: false,
    });
    assert_eq!(encode_plain(&fractional, 0).unwrap(), "\"00:00:00.000042\"");
}

#[test]
fn test_time_with_timezone_rejected() {
    let v = Value::Time(Time {
        hour: 1,
        minute: 2,
        second: 3,
        microsecond: 4,
        has_tzinfo: true,
    });
    assert!(matches!(
        encode_plain(&v, 0),
        Err(EncodeError::TimeMustNotHaveTimezone)
    ));
}

fn sample_datetime(zone: Zone) -> Value {
    Value::DateTime(DateTime {
        year: 2023,
        month: 7,
        day: 4,
        hour: 23,
        minute: 59,
        second: 1,
        microsecond: 0,
        zone,
    })
}

#[test]
fn test_datetime_formats() {
    assert_eq!(
        encode_plain(&sample_datetime(Zone::Naive), 0).unwrap(),
        "\"2023-07-04T23:59:01\""
    );
    assert_eq!(
        encode_plain(&sample_datetime(Zone::Utc), 0).unwrap(),
        "\"2023-07-04T23:59:01Z\""
    );
    assert_eq!(
        encode_plain(&sample_datetime(Zone::Fixed(330)), 0).unwrap(),
        "\"2023-07-04T23:59:01+05:30\""
    );
    assert_eq!(
        encode_plain(&sample_datetime(Zone::Fixed(-180)), 0).unwrap(),
        "\"2023-07-04T23:59:01-03:00\""
    );
    let micro = Value::DateTime(DateTime {
        year: 2023,
        month: 7,
        day: 4,
        hour: 1,
        minute: 2,
        second: 3,
        microsecond: 456789,
        zone: Zone::Utc,
    });
    assert_eq!(
        encode_plain(&micro, 0).unwrap(),
        "\"2023-07-04T01:02:03.456789Z\""
    );
}

#[test]
fn test_unsupported_timezone_rejected() {
    assert!(matches!(
        encode_plain(&sample_datetime(Zone::Unsupported), 0),
        Err(EncodeError::UnsupportedTimezoneLibrary)
    ));
}

#[test]
fn test_identifier_format() {
    let v = Value::Identifier(0x00010203_0405_0607_0809_0a0b0c0d0e0f_u128);
    assert_eq!(
        encode_plain(&v, SERIALIZE_UUID).unwrap(),
        "\"00010203-0405-0607-0809-0a0b0c0d0e0f\""
    );
    let max = Value::Identifier(u128::MAX);
    assert_eq!(
        encode_plain(&max, SERIALIZE_UUID).unwrap(),
        "\"ffffffff-ffff-ffff-ffff-ffffffffffff\""
    );
}

#[test]
fn test_identifier_gated_by_option() {
    let v = Value::Identifier(1);
    match encode_plain(&v, 0) {
        Err(EncodeError::TypeNotSerializable(name)) => assert_eq!(name, "UUID"),
        other => panic!("expected TypeNotSerializable, got {:?}", other),
    }
}

#[test]
fn test_formatting_idempotent() {
    let v = Value::DateTime(DateTime {
        year: 2020,
        month: 2,
        day: 29,
        hour: 6,
        minute: 7,
        second: 8,
        microsecond: 9,
        zone: Zone::Fixed(60),
    });
    let first = encode_plain(&v, 0).unwrap();
    let second = encode_plain(&v, 0).unwrap();
    assert_eq!(first, second);
    let u = Value::Identifier(0xdeadbeef);
    assert_eq!(
        encode_plain(&u, SERIALIZE_UUID).unwrap(),
        encode_plain(&u, SERIALIZE_UUID).unwrap()
    );
    let d = Value::Date(Date { year: 1999, month: 12, day: 31 });
    assert_eq!(encode_plain(&d, 0).unwrap(), encode_plain(&d, 0).unwrap());
    let t = Value::Time(Time {
        hour: 1,
        minute: 2,
        second: 3,
        microsecond: 400000,
        has_tzinfo: false,
    });
    assert_eq!(encode_plain(&t, 0).unwrap(), encode_plain(&t, 0).unwrap());
}

#[test]
fn test_record_serialization() {
    let v = Value::Record(vec![
        (String::from("name"), Value::Str(String::from("ada"))),
        (String::from("age"), Value::Int(36)),
    ]);
    assert_eq!(
        encode_plain(&v, SERIALIZE_DATACLASS).unwrap(),
        "{\"name\":\"ada\",\"age\":36}"
    );
}

#[test]
fn test_record_gated_by_option() {
    let v = Value::Record(vec![(String::from("a"), Value::Int(1))]);
    match encode_plain(&v, 0) {
        Err(EncodeError::TypeNotSerializable(name)) => assert_eq!(name, "dataclass"),
        other => panic!("expected TypeNotSerializable, got {:?}", other),
    }
}

#[test]
fn test_error_deep_in_record() {
    let v = Value::Record(vec![
        (String::from("good"), Value::Int(1)),
        (String::from("bad"), Value::StrInvalid),
    ]);
    assert!(matches!(
        encode_plain(&v, SERIALIZE_DATACLASS),
        Err(EncodeError::InvalidString)
    ));
}

#[test]
fn test_error_deep_in_dict_value() {
    let v = Value::Dict(vec![
        (Value::Str(String::from("a")), Value::Int(1)),
        (
            Value::Str(String::from("b")),
            Value::List(vec![Value::IntBig]),
        ),
    ]);
    assert!(matches!(
        encode_plain(&v, 0),
        Err(EncodeError::IntegerOverflow)
    ));
}

#[test]
fn test_tuple_counts_toward_depth_limit() {
    let mut v = Value::Tuple(vec![Value::Int(1)]);
    for _ in 0..255 {
        v = Value::List(vec![v]);
    }
    assert!(matches!(
        encode_plain(&v, 0),
        Err(EncodeError::RecursionLimitReached)
    ));
}

#[test]
fn test_classify_is_pure() {
    let v = Value::Identifier(7);
    let first = classify(&v, SERIALIZE_UUID);
    let second = classify(&v, SERIALIZE_UUID);
    assert_eq!(first, second);
    assert_eq!(first, SemanticKind::Identifier);
    assert_eq!(classify(&v, 0), SemanticKind::Unrecognized);

    let r = Value::Record(vec![]);
    assert_eq!(classify(&r, SERIALIZE_DATACLASS), SemanticKind::Record);
    assert_eq!(classify(&r, 0), SemanticKind::Unrecognized);

    let s = Value::Str(String::from("x"));
    assert_eq!(classify(&s, 0), classify(&s, 0));
    assert_eq!(classify(&s, 0), SemanticKind::Str);
    assert_eq!(classify(&Value::Bool(true), 0), SemanticKind::Bool);
    assert_eq!(classify(&Value::Int(5), 0), SemanticKind::Int);
    assert_eq!(classify(&Value::StrInvalid, 0), SemanticKind::Str);
    assert_eq!(classify(&Value::IntBig, 0), SemanticKind::Int);
}
