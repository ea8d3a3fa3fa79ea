use bios_basic::error::BasicError;
use bios_basic::rbum::dto::rbum_rel_dto::RbumRelEnvCheckReq;
use bios_basic::rbum::rbum_enumeration::{RbumRelEnvKind, RbumRelFromKind};
use bios_basic::rbum::dto::rbum_filer_dto::{RbumBasicFilterReq, RbumRelFilterReq};
use bios_basic::rbum::serv::rbum_rel_serv::{parse_i64, RbumRelServ, RelEnvCond, RelRow, StoredRel, StoredRelAttr, StoredRelEnv};

fn env(kind: RbumRelEnvKind, value: &str) -> RbumRelEnvCheckReq {
    RbumRelEnvCheckReq { kind, value: value.to_string() }
}

#[test]
fn test_parse_i64() {
    assert_eq!(parse_i64("0"), Some(0));
    assert_eq!(parse_i64("+42"), Some(42));
    assert_eq!(parse_i64("-42"), Some(-42));
    assert_eq!(parse_i64("9223372036854775807"), Some(i64::MAX));
    assert_eq!(parse_i64("-9223372036854775808"), Some(i64::MIN));
    assert_eq!(parse_i64("9223372036854775808"), None);
    assert_eq!(parse_i64("-9223372036854775809"), None);
    assert_eq!(parse_i64("99999999999999999999999"), None);
    assert_eq!(parse_i64(""), None);
    assert_eq!(parse_i64("-"), None);
    assert_eq!(parse_i64(" 1"), None);
    assert_eq!(parse_i64("1a"), None);
    for s in ["17", "-3", "+8", "x", "", "123456789012"] {
        assert_eq!(parse_i64(s), s.parse::<i64>().ok());
    }
}

#[test]
fn test_package_check_query() {
    let from_attrs = vec![("name".to_string(), "jzy".to_string())];
    let to_attrs = vec![("age".to_string(), "30".to_string())];
    let envs = vec![env(RbumRelEnvKind::DatetimeRange, "100"), env(RbumRelEnvKind::CallCount, "5"), env(RbumRelEnvKind::Ips, "10.0.0.1")];
    let q = RbumRelServ::package_check_query(
        "tag1",
        Some(vec![RbumRelFromKind::Item]),
        Some(vec!["f01".to_string()]),
        Some("t01".to_string()),
        &from_attrs,
        &to_attrs,
        &envs,
        "a/b",
    )
    .unwrap();
    assert_eq!(q.tag, "tag1");
    assert_eq!(q.own_paths, "a/b");
    assert_eq!(q.attr_conds.len(), 2);
    assert!(q.attr_conds[0].is_from && q.attr_conds[0].name == "name" && q.attr_conds[0].value == "jzy");
    assert!(!q.attr_conds[1].is_from && q.attr_conds[1].name == "age");
    assert!(matches!(q.env_conds[0], RelEnvCond::InRange { kind: RbumRelEnvKind::DatetimeRange, num: 100 }));
    assert!(matches!(q.env_conds[1], RelEnvCond::AtLeast { kind: RbumRelEnvKind::CallCount, num: 5 }));
    assert!(matches!(&q.env_conds[2], RelEnvCond::Contains { kind: RbumRelEnvKind::Ips, text } if text == "10.0.0.1"));
    let bad = vec![env(RbumRelEnvKind::TimeRange, "noon")];
    let r = RbumRelServ::package_check_query("tag1", None, None, None, &vec![], &vec![], &bad, "");
    assert_eq!(r.err(), Some(BasicError::EnvValueNotNumber));
    // an IP list value is never read as a number
    let ips = vec![env(RbumRelEnvKind::Ips, "noon")];
    assert!(RbumRelServ::package_check_query("tag1", None, None, None, &vec![], &vec![], &ips, "").is_ok());
}

#[test]
fn test_set_check_from_ids() {
    assert!(RbumRelServ::checks_sets_of(RbumRelFromKind::Item));
    assert!(RbumRelServ::checks_sets_of(RbumRelFromKind::SetCate));
    assert!(!RbumRelServ::checks_sets_of(RbumRelFromKind::Cert));
    assert_eq!(
        RbumRelServ::set_check_from_ids(RbumRelFromKind::Item, "i1", vec!["p1".to_string(), "p2".to_string()], "s1".to_string()),
        vec!["i1", "p1", "p2", "s1"]
    );
    assert_eq!(RbumRelServ::set_check_from_ids(RbumRelFromKind::SetCate, "c1", vec!["p1".to_string()], "s1".to_string()), vec!["p1", "s1"]);
    assert_eq!(RbumRelServ::set_check_from_kinds(), vec![RbumRelFromKind::SetCate, RbumRelFromKind::RbumSet]);
}

fn stored(attrs: Vec<StoredRelAttr>, envs: Vec<StoredRelEnv>) -> StoredRel {
    StoredRel {
        tag: "tag1".to_string(),
        from_rbum_kind: RbumRelFromKind::Item,
        from_rbum_id: "f01".to_string(),
        to_rbum_item_id: "t01".to_string(),
        own_paths: "t1/a1".to_string(),
        to_own_paths: "t2".to_string(),
        attrs,
        envs,
    }
}

fn attr(name: &str, value: &str, is_from: bool, record_only: bool) -> StoredRelAttr {
    StoredRelAttr { name: name.to_string(), value: value.to_string(), is_from, record_only }
}

fn stored_env(kind: RbumRelEnvKind, value1: &str, value2: &str) -> StoredRelEnv {
    StoredRelEnv { kind, value1: value1.to_string(), value2: value2.to_string() }
}

#[test]
fn test_do_check_rel() {
    let from_attrs = vec![("name".to_string(), "jzy".to_string())];
    let to_attrs = vec![("age".to_string(), "30".to_string())];
    let envs = vec![env(RbumRelEnvKind::DatetimeRange, "100"), env(RbumRelEnvKind::CallCount, "5"), env(RbumRelEnvKind::Ips, "10.0.0.1")];
    let q = RbumRelServ::package_check_query("tag1", Some(vec![RbumRelFromKind::Item]), Some(vec!["f01".to_string()]), Some("t01".to_string()), &from_attrs, &to_attrs, &envs, "t1")
        .unwrap();
    // attributes and environments all met
    let ok = stored(
        vec![attr("name", "jzy", true, false), attr("age", "30", false, false), attr("memo", "x", true, true)],
        vec![
            stored_env(RbumRelEnvKind::DatetimeRange, "50", "150"),
            stored_env(RbumRelEnvKind::CallCount, "10", ""),
            stored_env(RbumRelEnvKind::Ips, "10.0.0.1,10.0.0.2", ""),
        ],
    );
    assert!(RbumRelServ::rel_passes(&q, &ok));
    // an attribute that no condition meets
    let mut bad = ok.clone();
    bad.attrs.push(attr("age", "31", false, false));
    assert!(!RbumRelServ::rel_passes(&q, &bad));
    // an attribute on the wrong side
    let mut bad = ok.clone();
    bad.attrs[0].is_from = false;
    assert!(!RbumRelServ::rel_passes(&q, &bad));
    // a range that does not hold the number, a count under it, an IP list without it
    for e in [
        stored_env(RbumRelEnvKind::DatetimeRange, "101", "150"),
        stored_env(RbumRelEnvKind::CallCount, "4", ""),
        stored_env(RbumRelEnvKind::Ips, "10.0.0.2", ""),
        stored_env(RbumRelEnvKind::TimeRange, "0", "200"),
    ] {
        let mut bad = ok.clone();
        bad.envs.push(e);
        assert!(!RbumRelServ::rel_passes(&q, &bad));
    }
    // own paths of the target also qualify; other own paths do not
    let mut other = ok.clone();
    other.own_paths = "t9".to_string();
    assert!(!RbumRelServ::rel_passes(&q, &other));
    other.to_own_paths = "t1/x".to_string();
    assert!(RbumRelServ::rel_passes(&q, &other));
    // the tag, source and target
    let mut other = ok.clone();
    other.tag = "tag2".to_string();
    assert!(!RbumRelServ::rel_passes(&q, &other));
    let mut other = ok.clone();
    other.from_rbum_id = "f02".to_string();
    assert!(!RbumRelServ::rel_passes(&q, &other));
    // without conditions, a relationship must have no attributes and no environments
    let plain = RbumRelServ::package_check_query("tag1", None, None, None, &vec![], &vec![], &vec![], "").unwrap();
    assert!(RbumRelServ::rel_passes(&plain, &stored(vec![attr("memo", "x", true, true)], vec![])));
    assert!(!RbumRelServ::rel_passes(&plain, &ok));
    assert!(RbumRelServ::do_check_rel(&q, &vec![bad.clone(), ok.clone()]));
    assert!(!RbumRelServ::do_check_rel(&q, &vec![bad]));
    assert!(!RbumRelServ::do_check_rel(&q, &vec![]));
}

#[test]
fn test_check_rel_like_patterns() {
    // `_` in the own paths of the query matches any character, as SQL `LIKE` does
    let q = RbumRelServ::package_check_query("tag1", None, None, None, &vec![], &vec![], &vec![env(RbumRelEnvKind::Ips, "10.0.0._")], "t_").unwrap();
    let mut r = stored(vec![], vec![stored_env(RbumRelEnvKind::Ips, "10.0.0.7,10.0.1.1", "")]);
    r.own_paths = "tx/a".to_string();
    assert!(RbumRelServ::rel_passes(&q, &r));
    r.own_paths = "t".to_string();
    r.to_own_paths = "u".to_string();
    assert!(!RbumRelServ::rel_passes(&q, &r));
}

#[test]
fn test_rel_package_query() {
    let row = RelRow {
        tag: "tag1".to_string(),
        from_rbum_kind: RbumRelFromKind::Item,
        from_rbum_id: "f01".to_string(),
        to_rbum_item_id: "t01".to_string(),
        to_own_paths: "t1".to_string(),
        ext: "{\"a\":1}".to_string(),
        from_item_scope_level: Some(1),
        to_item_scope_level: None,
    };
    let mut f = RbumRelFilterReq {
        basic: RbumBasicFilterReq::default(),
        tag: Some("tag1".to_string()),
        from_rbum_kind: Some(RbumRelFromKind::Item),
        from_rbum_id: Some("f01".to_string()),
        from_rbum_scope_levels: Some(vec![0, 1]),
        to_rbum_item_id: Some("t01".to_string()),
        to_rbum_item_scope_levels: None,
        to_own_paths: Some("t1".to_string()),
        ext_eq: None,
        ext_like: Some("a".to_string()),
    };
    assert!(RbumRelServ::package_query(&f, &row));
    f.ext_like = Some("b".to_string());
    assert!(!RbumRelServ::package_query(&f, &row));
    f.ext_like = None;
    f.to_rbum_item_scope_levels = Some(vec![0, 1, 2]);
    // a missing target item has no level in any list
    assert!(!RbumRelServ::package_query(&f, &row));
    f.to_rbum_item_scope_levels = None;
    f.from_rbum_scope_levels = Some(vec![2]);
    assert!(!RbumRelServ::package_query(&f, &row));
    f.from_rbum_scope_levels = None;
    f.tag = Some("tag2".to_string());
    assert!(!RbumRelServ::package_query(&f, &row));
}
