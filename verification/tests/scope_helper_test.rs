use bios_basic::error::BasicError;
use bios_basic::rbum::dto::rbum_filer_dto::RbumBasicFilterReq;
use bios_basic::rbum::helper::rbum_scope_helper::{
    check_scope, check_without_owner_and_unsafe_fill_ctx, degrade_own_paths, extend_roles, get_max_level_id_by_context, get_path_item, get_pre_paths,
    get_scope_level_by_context, unsafe_fill_ctx, unsafe_fill_groups_only, unsafe_fill_owner_only, unsafe_fill_roles_only, BasicContext,
};
use bios_basic::rbum::rbum_enumeration::RbumScopeLevelKind;

fn ctx(own_paths: &str) -> BasicContext {
    BasicContext { own_paths: own_paths.to_string(), ak: String::new(), owner: String::new(), roles: vec![], groups: vec![] }
}

#[test]
fn test_get_pre_paths() {
    assert_eq!(get_pre_paths(0, "a/b/c"), Some("".to_string()));
    assert_eq!(get_pre_paths(0, "a/b/c/"), Some("".to_string()));
    assert_eq!(get_pre_paths(1, "a/b/c"), Some("a".to_string()));
    assert_eq!(get_pre_paths(2, "a/b/c"), Some("a/b".to_string()));
    assert_eq!(get_pre_paths(3, "a/b/c"), Some("a/b/c".to_string()));
    assert_eq!(get_pre_paths(4, "a/b/c"), None);
    assert_eq!(get_pre_paths(-1, "a/b/c"), None);
}

#[test]
fn test_get_path_item() {
    assert_eq!(get_path_item(0, "a/b/c"), None);
    assert_eq!(get_path_item(0, "a/b/c/"), None);
    assert_eq!(get_path_item(1, "a/b/c"), Some("a".to_string()));
    assert_eq!(get_path_item(2, "a/b/c"), Some("b".to_string()));
    assert_eq!(get_path_item(3, "a/b/c"), Some("c".to_string()));
    assert_eq!(get_path_item(4, "a/b/c"), None);
}

#[test]
fn test_get_max_level_id_by_context() {
    assert_eq!(get_max_level_id_by_context(&ctx("")), None);
    assert_eq!(get_max_level_id_by_context(&ctx("a")), Some("a".to_string()));
    assert_eq!(get_max_level_id_by_context(&ctx("a/b/c")), Some("c".to_string()));
    assert_eq!(get_max_level_id_by_context(&ctx("a/b/c/")), Some("c".to_string()));
}

#[test]
fn test_get_scope_level_by_context() {
    assert_eq!(get_scope_level_by_context(&ctx("")).unwrap(), RbumScopeLevelKind::Root);
    assert_eq!(get_scope_level_by_context(&ctx("a")).unwrap(), RbumScopeLevelKind::L1);
    assert_eq!(get_scope_level_by_context(&ctx("a/b")).unwrap(), RbumScopeLevelKind::L2);
    assert_eq!(get_scope_level_by_context(&ctx("a/b/c")).unwrap(), RbumScopeLevelKind::L3);
    assert_eq!(get_scope_level_by_context(&ctx("a/b/c/d")), Err(BasicError::InvalidEnumValue));
}

#[test]
fn test_degrade_own_paths() {
    let degraded = degrade_own_paths(ctx("a/b"), "a/b/c").unwrap();
    assert_eq!(degraded.own_paths, "a/b/c");
    assert_eq!(degrade_own_paths(ctx("a/b"), "a/c").err(), Some(BasicError::DowngradeNotQualified));
}

#[test]
fn test_check_scope_by_table() {
    let filter = RbumBasicFilterReq::default();
    // own paths 'AAAA', visited from level 1 'AAAA/BBBB'
    assert!(check_scope("AAAA", Some(1), &filter, "AAAA/BBBB"));
    assert!(check_scope("AAAA", Some(2), &filter, "AAAA/BBBB"));
    assert!(!check_scope("AAAA", Some(2), &filter, "BBBB"));
    assert!(check_scope("AAAA/BBBB", Some(2), &filter, "AAAA/BBBB/CCCC"));
    assert!(check_scope("AAAA/BBBB", Some(3), &filter, "AAAA/BBBB/CCCC"));
    assert!(!check_scope("AAAA/BBBB", Some(2), &filter, "AAAA/CCCC"));
    assert!(check_scope("AAAA/BBBB", Some(1), &filter, "AAAA/CCCC"));
    // global
    assert!(check_scope("AAAA/BBBB", Some(0), &filter, "CCCC"));
    // private
    assert!(!check_scope("AAAA", Some(-1), &filter, "AAAA/BBBB"));
    assert!(check_scope("AAAA", Some(-1), &filter, "AAAA"));
    // without scope level only the same paths
    assert!(!check_scope("AAAA", None, &filter, "AAAA/BBBB"));
    // sub own paths
    let with_sub = RbumBasicFilterReq { with_sub_own_paths: true, ..RbumBasicFilterReq::default() };
    assert!(check_scope("AAAA/BBBB", None, &with_sub, "AAAA"));
    // ignored scope
    let ignore = RbumBasicFilterReq { ignore_scope: true, ..RbumBasicFilterReq::default() };
    assert!(!check_scope("AAAA/BBBB", Some(0), &ignore, "CCCC"));
}

#[test]
fn test_extend_roles() {
    let roles = vec!["admin:app1".to_string(), "user".to_string(), "a:b:c".to_string()];
    assert_eq!(extend_roles(&roles), vec!["admin:app1", "user", "a:b:c", "admin", "a"]);
}

#[test]
fn test_unsafe_fill_ctx() {
    let request = BasicContext {
        own_paths: "a/b".to_string(),
        ak: "ak1".to_string(),
        owner: "o1".to_string(),
        roles: vec!["r:x".to_string()],
        groups: vec!["g1".to_string()],
    };
    let mut current = ctx("a");
    current.ak = "ak0".to_string();
    unsafe_fill_ctx(Some(request.clone()), &mut current).unwrap();
    assert_eq!(current.owner, "o1");
    assert_eq!(current.own_paths, "a/b");
    assert_eq!(current.ak, "ak0");
    assert_eq!(current.roles, vec!["r:x", "r"]);
    assert_eq!(current.groups, vec!["g1"]);
    // outside the current own paths
    let mut other = ctx("z");
    assert_eq!(unsafe_fill_ctx(Some(request.clone()), &mut other), Err(BasicError::ContextPermissionDenied));
    // missing context of the request
    let mut empty = ctx("");
    assert_eq!(unsafe_fill_ctx(None, &mut empty), Err(BasicError::ContextMissing));
    let mut set = ctx("a");
    assert_eq!(unsafe_fill_ctx(None, &mut set), Ok(()));
    // single fields
    let mut only_owner = ctx("a");
    unsafe_fill_owner_only(Some(request.clone()), &mut only_owner).unwrap();
    assert_eq!(only_owner.owner, "o1");
    assert_eq!(only_owner.own_paths, "a");
    let mut only_roles = ctx("a");
    unsafe_fill_roles_only(Some(request.clone()), &mut only_roles).unwrap();
    assert_eq!(only_roles.roles, vec!["r:x", "r"]);
    assert!(only_roles.owner.is_empty());
    let mut only_groups = ctx("a");
    unsafe_fill_groups_only(Some(request.clone()), &mut only_groups).unwrap();
    assert_eq!(only_groups.groups, vec!["g1"]);
    // a context with an owner is refused
    let mut owned = ctx("a");
    owned.owner = "me".to_string();
    assert_eq!(check_without_owner_and_unsafe_fill_ctx(Some(request), &mut owned), Err(BasicError::ContextOwnerNotEmpty));
}
