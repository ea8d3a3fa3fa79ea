use bios_basic::dto::{BasicQueryCondInfo, JsonValue};
use bios_basic::enumeration::BasicQueryOpKind;

fn s(v: &str) -> JsonValue {
    JsonValue::String(v.to_string())
}

fn cond(field: &str, op: BasicQueryOpKind, value: JsonValue) -> BasicQueryCondInfo {
    BasicQueryCondInfo { field: field.to_string(), op, value }
}

fn vars(entries: Vec<(&str, JsonValue)>) -> Vec<(String, JsonValue)> {
    entries.into_iter().map(|(k, v)| (k.to_string(), v)).collect()
}

#[test]
fn test_check_or_and_conds() {
    assert!(BasicQueryCondInfo::check_or_and_conds(&vec![vec![]], &vec![]));
    assert!(!BasicQueryCondInfo::check_or_and_conds(&vec![vec![cond("name", BasicQueryOpKind::Eq, s("gdxr"))]], &vec![]));
    // eq
    assert!(BasicQueryCondInfo::check_or_and_conds(
        &vec![vec![cond("name", BasicQueryOpKind::Eq, s("gdxr"))]],
        &vars(vec![("name", s("gdxr"))])
    ));
    // gt
    assert!(BasicQueryCondInfo::check_or_and_conds(&vec![vec![cond("gt", BasicQueryOpKind::Gt, JsonValue::PosInt(0))]], &vars(vec![("gt", JsonValue::PosInt(1))])));
    assert!(!BasicQueryCondInfo::check_or_and_conds(&vec![vec![cond("gt", BasicQueryOpKind::Gt, JsonValue::PosInt(0))]], &vars(vec![("gt", JsonValue::NegInt(-1))])));
    // ge
    assert!(BasicQueryCondInfo::check_or_and_conds(&vec![vec![cond("ge", BasicQueryOpKind::Ge, JsonValue::PosInt(0))]], &vars(vec![("ge", JsonValue::PosInt(0))])));
    assert!(!BasicQueryCondInfo::check_or_and_conds(&vec![vec![cond("ge", BasicQueryOpKind::Ge, JsonValue::PosInt(0))]], &vars(vec![("ge", JsonValue::NegInt(-1))])));
    // lt
    assert!(BasicQueryCondInfo::check_or_and_conds(&vec![vec![cond("lt", BasicQueryOpKind::Lt, JsonValue::PosInt(0))]], &vars(vec![("lt", JsonValue::NegInt(-1))])));
    assert!(!BasicQueryCondInfo::check_or_and_conds(&vec![vec![cond("lt", BasicQueryOpKind::Lt, JsonValue::PosInt(0))]], &vars(vec![("lt", JsonValue::PosInt(1))])));
    // le
    assert!(BasicQueryCondInfo::check_or_and_conds(&vec![vec![cond("le", BasicQueryOpKind::Le, JsonValue::PosInt(0))]], &vars(vec![("le", JsonValue::PosInt(0))])));
    assert!(!BasicQueryCondInfo::check_or_and_conds(&vec![vec![cond("le", BasicQueryOpKind::Le, JsonValue::PosInt(0))]], &vars(vec![("le", JsonValue::PosInt(1))])));
    assert!(!BasicQueryCondInfo::check_or_and_conds(&vec![vec![cond("le", BasicQueryOpKind::Le, s("ssss"))]], &vars(vec![("le", JsonValue::PosInt(1))])));
    // like
    assert!(BasicQueryCondInfo::check_or_and_conds(&vec![vec![cond("like", BasicQueryOpKind::Like, s("dx"))]], &vars(vec![("like", s("gdxr"))])));
    assert!(!BasicQueryCondInfo::check_or_and_conds(&vec![vec![cond("like", BasicQueryOpKind::Like, s("ddd"))]], &vars(vec![("like", s("gdxr"))])));
    assert!(!BasicQueryCondInfo::check_or_and_conds(&vec![vec![cond("like", BasicQueryOpKind::Like, JsonValue::PosInt(111))]], &vars(vec![("like", s("dx"))])));
    assert!(!BasicQueryCondInfo::check_or_and_conds(&vec![vec![cond("like", BasicQueryOpKind::Like, s("gdxr"))]], &vars(vec![("like", JsonValue::PosInt(1))])));
    // In
    assert!(BasicQueryCondInfo::check_or_and_conds(
        &vec![vec![cond("in", BasicQueryOpKind::In, s("gdxr"))]],
        &vars(vec![("in", JsonValue::Array(vec![s("gdxr"), s("ddd")]))])
    ));
    assert!(!BasicQueryCondInfo::check_or_and_conds(&vec![vec![cond("in", BasicQueryOpKind::In, s("gdxr"))]], &vars(vec![("in", s("gdxr"))])));
    assert!(!BasicQueryCondInfo::check_or_and_conds(&vec![vec![cond("in", BasicQueryOpKind::In, JsonValue::Array(vec![s("gdxr")]))]], &vars(vec![("in", s("gdxr"))])));
    // and
    assert!(BasicQueryCondInfo::check_or_and_conds(
        &vec![vec![cond("in", BasicQueryOpKind::In, s("gdxr")), cond("like", BasicQueryOpKind::Like, s("dx"))]],
        &vars(vec![("in", JsonValue::Array(vec![s("gdxr")])), ("like", s("gdxr"))])
    ));
    assert!(!BasicQueryCondInfo::check_or_and_conds(
        &vec![vec![cond("in", BasicQueryOpKind::In, s("gdxr")), cond("like", BasicQueryOpKind::Like, s("dx"))]],
        &vars(vec![("in", JsonValue::Array(vec![s("gdxr")]))])
    ));
    assert!(!BasicQueryCondInfo::check_or_and_conds(
        &vec![vec![cond("in", BasicQueryOpKind::In, s("gdxr")), cond("like", BasicQueryOpKind::Like, s("dx11"))]],
        &vars(vec![("in", JsonValue::Array(vec![s("gdxr")])), ("like", s("gdxr"))])
    ));
    // or
    assert!(BasicQueryCondInfo::check_or_and_conds(
        &vec![vec![cond("in", BasicQueryOpKind::In, s("gdxr"))], vec![cond("like", BasicQueryOpKind::Like, s("dx"))]],
        &vars(vec![("in", JsonValue::Array(vec![s("gdxr")])), ("like", s("gdxr"))])
    ));
    assert!(BasicQueryCondInfo::check_or_and_conds(
        &vec![vec![cond("in", BasicQueryOpKind::In, s("gdxr"))], vec![cond("like", BasicQueryOpKind::Like, s("dx"))]],
        &vars(vec![("in", JsonValue::Array(vec![s("gdxr")]))])
    ));
    assert!(BasicQueryCondInfo::check_or_and_conds(
        &vec![vec![cond("in", BasicQueryOpKind::In, JsonValue::Array(vec![s("gdxr")]))], vec![cond("like", BasicQueryOpKind::Like, s("dx"))]],
        &vars(vec![("in", JsonValue::Array(vec![s("gdxr")])), ("like", s("gdxr"))])
    ));
    assert!(!BasicQueryCondInfo::check_or_and_conds(
        &vec![vec![cond("in", BasicQueryOpKind::In, s("gdxr1"))], vec![cond("like", BasicQueryOpKind::Like, s("dx"))]],
        &vars(vec![("in", JsonValue::Array(vec![s("gdxr")]))])
    ));
}

#[test]
fn test_json_equality_of_objects_and_numbers() {
    let a = JsonValue::Object(vec![("a".to_string(), JsonValue::PosInt(1)), ("b".to_string(), JsonValue::Null)]);
    let b = JsonValue::Object(vec![("a".to_string(), JsonValue::PosInt(1)), ("b".to_string(), JsonValue::Null)]);
    let c = JsonValue::Object(vec![("a".to_string(), JsonValue::PosInt(2)), ("b".to_string(), JsonValue::Null)]);
    assert!(bios_basic::dto::json_eq(&a, &b));
    assert!(!bios_basic::dto::json_eq(&a, &c));
    // a non-negative integer is never equal to a floating-point number
    assert!(!bios_basic::dto::json_eq(&JsonValue::PosInt(1), &JsonValue::Float(1)));
    assert!(!bios_basic::dto::json_eq(&JsonValue::Bool(true), &JsonValue::Bool(false)));
}

#[test]
fn test_number_comparisons_across_kinds() {
    // floats compare by their order keys
    assert!(BasicQueryCondInfo::check_or_and_conds(&vec![vec![cond("f", BasicQueryOpKind::Gt, JsonValue::Float(10))]], &vars(vec![("f", JsonValue::Float(11))])));
    // a float never compares with an integer
    assert!(!BasicQueryCondInfo::check_or_and_conds(&vec![vec![cond("f", BasicQueryOpKind::Gt, JsonValue::PosInt(0))]], &vars(vec![("f", JsonValue::Float(11))])));
    // a large unsigned number compares with another one, not with a negative one
    assert!(BasicQueryCondInfo::check_or_and_conds(
        &vec![vec![cond("u", BasicQueryOpKind::Lt, JsonValue::PosInt(u64::MAX))]],
        &vars(vec![("u", JsonValue::PosInt(u64::MAX - 1))])
    ));
    assert!(!BasicQueryCondInfo::check_or_and_conds(
        &vec![vec![cond("u", BasicQueryOpKind::Gt, JsonValue::NegInt(-1))]],
        &vars(vec![("u", JsonValue::PosInt(u64::MAX))])
    ));
    assert!(BasicQueryCondInfo::check_or_and_conds(&vec![vec![cond("u", BasicQueryOpKind::Gt, JsonValue::NegInt(-1))]], &vars(vec![("u", JsonValue::PosInt(5))])));
    // Ne, and the operators that never hold
    assert!(BasicQueryCondInfo::check_or_and_conds(&vec![vec![cond("n", BasicQueryOpKind::Ne, s("a"))]], &vars(vec![("n", s("b"))])));
    assert!(!BasicQueryCondInfo::check_or_and_conds(&vec![vec![cond("n", BasicQueryOpKind::IsNull, JsonValue::Null)]], &vars(vec![("n", JsonValue::Null)])));
    // NotLike and NotIn check as Like and In do
    assert!(BasicQueryCondInfo::check_or_and_conds(&vec![vec![cond("like", BasicQueryOpKind::NotLike, s("dx"))]], &vars(vec![("like", s("gdxr"))])));
    assert!(BasicQueryCondInfo::check_or_and_conds(
        &vec![vec![cond("in", BasicQueryOpKind::NotIn, s("gdxr"))]],
        &vars(vec![("in", JsonValue::Array(vec![s("gdxr")]))])
    ));
}
