use bios_basic::enumeration::{ApiTag, BasicQueryOpKind};
use bios_basic::rbum::rbum_config::{RbumConfig, RbumConfigManager};
use bios_basic::rbum::rbum_enumeration::{RbumCertStatusKind, RbumRelEnvKind, RbumRelFromKind, RbumScopeLevelKind};

#[test]
fn test_config_manager() {
    let mut m = RbumConfigManager::new();
    assert!(m.try_get_config("a", |c| c.set_cate_sys_code_node_len).is_none());
    let mut conf = RbumConfig::default();
    conf.set_cate_sys_code_node_len = 5;
    m.add("a", conf);
    assert_eq!(m.get_config("a", |c| c.set_cate_sys_code_node_len), 5);
    assert_eq!(m.try_get_config("a", |c| c.head_key_bios_ctx.clone()), Some("Bios-Ctx".to_string()));
    // a later add replaces the configuration
    let mut conf2 = RbumConfig::default();
    conf2.set_cate_sys_code_node_len = 6;
    m.add("a", conf2);
    assert_eq!(m.get_config("a", |c| c.set_cate_sys_code_node_len), 6);
    // events: the table name holds ``rbum_`` and the operations hold the operation
    assert!(m.match_event("a", "rbum_item", "c"));
    assert!(m.match_event("a", "iam_rbum_cert", "d"));
    assert!(!m.match_event("a", "iam_account", "c"));
    assert!(!m.match_event("a", "rbum_item", "x"));
}

#[test]
fn test_enumerations() {
    assert_eq!(BasicQueryOpKind::IsNullOrEmpty.to_sql(), "IS NULL");
    assert_eq!(BasicQueryOpKind::NotLike.to_sql(), "NOT LIKE");
    assert_eq!(RbumScopeLevelKind::Private.to_int(), -1);
    assert_eq!(RbumScopeLevelKind::from_int(2).unwrap(), RbumScopeLevelKind::L2);
    assert!(RbumScopeLevelKind::from_int(9).is_err());
    assert_eq!(RbumCertStatusKind::from_int(RbumCertStatusKind::Pending.to_int()).unwrap(), RbumCertStatusKind::Pending);
    assert_eq!(RbumRelFromKind::from_int(RbumRelFromKind::Cert.to_int()).unwrap(), RbumRelFromKind::Cert);
    assert_eq!(RbumRelEnvKind::from_int(RbumRelEnvKind::CallCount.to_int()).unwrap(), RbumRelEnvKind::CallCount);
    let _ = ApiTag::Common;
}
