use bios_basic::dto::JsonValue;
use bios_basic::enumeration::BasicQueryOpKind;
use bios_basic::helper::db_helper::{json_to_sea_orm_value, str_to_datetime, DbValue};

fn text(v: &DbValue) -> Option<&str> {
    match v {
        DbValue::String(s) => Some(s.as_str()),
        _ => None,
    }
}

#[test]
fn test_str_to_datetime() {
    assert_eq!(str_to_datetime("2024-01-02T03:04:05Z"), Some((1704164645, 0)));
    assert_eq!(str_to_datetime("2024-01-02T03:04:05.5+01:00"), Some((1704164645 - 3600, 500_000_000)));
    assert_eq!(str_to_datetime("2024-01-02"), None);
}

#[test]
fn test_json_to_sea_orm_value() {
    assert!(json_to_sea_orm_value(JsonValue::Null, BasicQueryOpKind::Eq).is_none());
    assert!(matches!(json_to_sea_orm_value(JsonValue::Bool(true), BasicQueryOpKind::Eq).unwrap()[..], [DbValue::Bool(true)]));
    assert!(matches!(json_to_sea_orm_value(JsonValue::PosInt(7), BasicQueryOpKind::Eq).unwrap()[..], [DbValue::BigInt(7)]));
    assert!(matches!(json_to_sea_orm_value(JsonValue::PosInt(u64::MAX), BasicQueryOpKind::Eq).unwrap()[..], [DbValue::BigUnsigned(u64::MAX)]));
    assert!(matches!(json_to_sea_orm_value(JsonValue::NegInt(-3), BasicQueryOpKind::Eq).unwrap()[..], [DbValue::BigInt(-3)]));
    // texts: a date and time, a pattern for `Like`, else the text
    let v = json_to_sea_orm_value(JsonValue::String("abc".to_string()), BasicQueryOpKind::Like).unwrap();
    assert_eq!(text(&v[0]), Some("%abc%"));
    let v = json_to_sea_orm_value(JsonValue::String("abc".to_string()), BasicQueryOpKind::Eq).unwrap();
    assert_eq!(text(&v[0]), Some("abc"));
    let v = json_to_sea_orm_value(JsonValue::String("2024-01-02T03:04:05Z".to_string()), BasicQueryOpKind::Like).unwrap();
    assert!(matches!(v[..], [DbValue::DateTimeUtc { secs: 1704164645, nanos: 0 }]));
    // arrays: the elements in turn; none when empty or when an element has none
    let v = json_to_sea_orm_value(
        JsonValue::Array(vec![JsonValue::PosInt(1), JsonValue::Array(vec![JsonValue::String("x".to_string()), JsonValue::Bool(false)])]),
        BasicQueryOpKind::In,
    )
    .unwrap();
    assert_eq!(v.len(), 3);
    assert!(matches!(v[0], DbValue::BigInt(1)));
    assert_eq!(text(&v[1]), Some("x"));
    assert!(json_to_sea_orm_value(JsonValue::Array(vec![]), BasicQueryOpKind::In).is_none());
    assert!(json_to_sea_orm_value(JsonValue::Array(vec![JsonValue::PosInt(1), JsonValue::Null]), BasicQueryOpKind::In).is_none());
    assert!(matches!(json_to_sea_orm_value(JsonValue::Object(vec![]), BasicQueryOpKind::Eq).unwrap()[..], [DbValue::Json(JsonValue::Object(_))]));
}
