use bios_basic::error::BasicError;
use bios_basic::rbum::dto::rbum_filer_dto::{RbumBasicFilterReq, RbumSetCateFilterReq, RbumSetItemFilterReq, RbumSetTreeFilterReq};
use bios_basic::rbum::dto::rbum_set_dto::RbumSetCateSummaryResp;
use bios_basic::rbum::dto::rbum_set_item_dto::{RbumSetItemDetailResp, RbumSetItemSummaryResp};
use bios_basic::rbum::rbum_enumeration::{RbumScopeLevelKind, RbumSetCateLevelQueryKind};
use bios_basic::rbum::serv::rbum_set_serv::{level_query_selects, SetItemRow, sort_set_cates, RbumSetCateServ, RbumSetItemServ, RbumSetServ};

fn cate(id: &str, sys_code: &str, sort: i64) -> RbumSetCateSummaryResp {
    RbumSetCateSummaryResp {
        id: id.to_string(),
        sys_code: sys_code.to_string(),
        bus_code: String::new(),
        name: format!("n-{id}"),
        icon: String::new(),
        sort,
        ext: String::new(),
        rel_rbum_set_id: "s1".to_string(),
        own_paths: String::new(),
        owner: String::new(),
        scope_level: RbumScopeLevelKind::Root,
        create_time: sort * 10,
        update_time: sort * 10 + 1,
    }
}

fn item(id: &str, cate_id: Option<&str>, item_id: &str, kind: &str) -> RbumSetItemDetailResp {
    RbumSetItemDetailResp {
        id: id.to_string(),
        sort: 0,
        rel_rbum_set_id: "s1".to_string(),
        rel_rbum_set_cate_id: cate_id.map(|c| c.to_string()),
        rel_rbum_set_cate_sys_code: None,
        rel_rbum_set_cate_name: None,
        rel_rbum_item_id: item_id.to_string(),
        rel_rbum_item_code: String::new(),
        rel_rbum_item_name: String::new(),
        rel_rbum_item_kind_id: kind.to_string(),
        rel_rbum_item_domain_id: "d".to_string(),
        rel_rbum_item_owner: String::new(),
        rel_rbum_item_create_time: 0,
        rel_rbum_item_update_time: 0,
        rel_rbum_item_disabled: false,
        rel_rbum_item_scope_level: RbumScopeLevelKind::Root,
        own_paths: String::new(),
        owner: String::new(),
        owner_name: None,
        create_time: 0,
        update_time: 0,
    }
}

fn filter(fetch: bool, hide: bool) -> RbumSetTreeFilterReq {
    RbumSetTreeFilterReq {
        sys_codes: None,
        sys_code_query_kind: None,
        sys_code_query_depth: None,
        cate_exts: None,
        fetch_cate_item: fetch,
        hide_item_with_disabled: false,
        hide_cate_with_empty_item: hide,
        rel_rbum_item_ids: None,
        rel_rbum_item_kind_ids: None,
        rel_rbum_item_domain_ids: None,
    }
}

fn cates() -> Vec<RbumSetCateSummaryResp> {
    vec![cate("c2", "0001", 0), cate("c3", "00000000", 0), cate("c1", "0000", 0), cate("c4", "00010000", 1), cate("c5", "000000000000", 0)]
}

#[test]
fn test_sort_set_cates() {
    let sorted = sort_set_cates(cates());
    let ids: Vec<&str> = sorted.iter().map(|c| c.id.as_str()).collect();
    // by sort, then by sys_code
    assert_eq!(ids, vec!["c1", "c3", "c5", "c2", "c4"]);
    // equal keys keep their order
    let same = sort_set_cates(vec![cate("x", "0000", 0), cate("y", "0000", 0)]);
    assert_eq!(same[0].id, "x");
    assert_eq!(same[1].id, "y");
}

#[test]
fn test_get_tree_main() {
    let tree = RbumSetServ::get_tree(cates(), vec![], &filter(false, false), 4);
    assert!(tree.ext.is_none());
    let pids: Vec<(String, Option<String>)> = tree.main.iter().map(|n| (n.id.clone(), n.pid.clone())).collect();
    assert_eq!(
        pids,
        vec![
            ("c1".to_string(), None),
            ("c3".to_string(), Some("c1".to_string())),
            ("c5".to_string(), Some("c3".to_string())),
            ("c2".to_string(), None),
            ("c4".to_string(), Some("c2".to_string())),
        ]
    );
    assert_eq!(tree.main[0].name, "n-c1");
    assert_eq!(tree.main[1].create_time, cates()[2].create_time);
    assert_eq!(tree.main[1].update_time, cates()[2].update_time);
}

#[test]
fn test_get_tree_with_items() {
    let items = vec![
        item("i1", Some("c5"), "r1", "k1"),
        item("i2", Some("c5"), "r2", "k1"),
        item("i3", Some("c3"), "r1", "k2"),
        item("i4", None, "r9", "k2"),
        item("i5", None, "r8", "k2"),
    ];
    let tree = RbumSetServ::get_tree(cates(), items, &filter(true, false), 4);
    assert_eq!(tree.main.len(), 5);
    let ext = tree.ext.unwrap();
    let keys: Vec<&str> = ext.items.iter().map(|e| e.0.as_str()).collect();
    assert_eq!(keys, vec!["c1", "c3", "c5", "c2", "c4", ""]);
    let c5 = &ext.items[2].1;
    assert_eq!(c5.iter().map(|i| i.id.as_str()).collect::<Vec<_>>(), vec!["i1", "i2"]);
    assert_eq!(ext.items[5].1.len(), 2);
    assert_eq!(ext.items[5].1[0].rel_rbum_item_id, "r9");
    // the counts of c1 cover its sub tree: c1, c3 (k2: r1), c5 (k1: r1, r2)
    let c1_counts = &ext.item_number_agg[0];
    assert_eq!(c1_counts.0, "c1");
    assert_eq!(c1_counts.1, vec![("k2".to_string(), 1), ("k1".to_string(), 2)]);
    // the root counts every distinct item of each kind: k2 (r1, r9, r8), k1 (r1, r2)
    let root = ext.item_number_agg.last().unwrap();
    assert_eq!(root.0, "");
    assert_eq!(root.1, vec![("k2".to_string(), 3), ("k1".to_string(), 2)]);
    assert_eq!(ext.item_kind_ids, vec!["k2", "k1"]);
    assert_eq!(ext.item_domain_ids, vec!["d"]);
}

#[test]
fn test_get_tree_hide_empty() {
    let items = vec![item("i1", Some("c3"), "r1", "k1")];
    let tree = RbumSetServ::get_tree(cates(), items, &filter(true, true), 4);
    let ids: Vec<&str> = tree.main.iter().map(|n| n.id.as_str()).collect();
    // c3 holds an item: it and its parent c1 stay
    assert_eq!(ids, vec!["c1", "c3"]);
    assert_eq!(tree.ext.unwrap().items.len(), 3);
}

#[test]
fn test_get_parent_sys_codes() {
    assert_eq!(RbumSetCateServ::get_parent_sys_codes("aaaabbbbcccc", 4), vec!["aaaabbbb", "aaaa"]);
    assert_eq!(RbumSetCateServ::get_parent_sys_codes("aaaa", 4), Vec::<String>::new());
}

#[test]
fn test_get_max_sys_code_by_level() {
    assert_eq!(RbumSetCateServ::get_max_sys_code_by_level(None, None, 4).unwrap(), "0000");
    assert_eq!(RbumSetCateServ::get_max_sys_code_by_level(None, Some("0001"), 4).unwrap(), "00010000");
    assert_eq!(RbumSetCateServ::get_max_sys_code_by_level(Some("0009".to_string()), None, 4).unwrap(), "000a");
    assert_eq!(RbumSetCateServ::get_max_sys_code_by_level(Some("000z".to_string()), None, 4).unwrap(), "0010");
    assert_eq!(RbumSetCateServ::get_max_sys_code_by_level(Some("00010009".to_string()), Some("0001"), 4).unwrap(), "0001000a");
    assert_eq!(RbumSetCateServ::get_max_sys_code_by_level(Some("azzzy".to_string()), None, 5).unwrap(), "azzzz");
    assert_eq!(RbumSetCateServ::get_max_sys_code_by_level(Some("zzzz".to_string()), None, 4), Err(BasicError::SysCodeSaturated));
    assert_eq!(RbumSetCateServ::get_max_sys_code_by_level(Some("0001zzzz".to_string()), Some("0001"), 4), Err(BasicError::SysCodeSaturated));
}

fn set_item(item_id: &str, code: Option<&str>) -> RbumSetItemSummaryResp {
    RbumSetItemSummaryResp {
        id: format!("si-{item_id}"),
        sort: 0,
        rel_rbum_set_id: "s1".to_string(),
        rel_rbum_set_cate_id: None,
        rel_rbum_set_cate_sys_code: code.map(|c| c.to_string()),
        rel_rbum_set_cate_name: None,
        rel_rbum_item_id: item_id.to_string(),
        rel_rbum_item_name: String::new(),
        own_paths: String::new(),
        owner: String::new(),
        create_time: 0,
        update_time: 0,
    }
}

#[test]
fn test_check_a_and_b() {
    let items = vec![set_item("a", Some("0000")), set_item("b", Some("00000001")), set_item("c", Some("0000")), set_item("d", Some("0001"))];
    assert!(RbumSetItemServ::check_a_is_parent_of_b(&items, "a", "b"));
    assert!(!RbumSetItemServ::check_a_is_parent_of_b(&items, "a", "c"));
    assert!(RbumSetItemServ::check_a_is_sibling_of_b(&items, "a", "c"));
    assert!(!RbumSetItemServ::check_a_is_sibling_of_b(&items, "a", "b"));
    assert!(RbumSetItemServ::check_a_is_parent_or_sibling_of_b(&items, "a", "b"));
    assert!(RbumSetItemServ::check_a_is_parent_or_sibling_of_b(&items, "a", "c"));
    assert!(!RbumSetItemServ::check_a_is_parent_or_sibling_of_b(&items, "a", "d"));
    // neither parent nor sibling
    assert!(RbumSetItemServ::check_a_and_b(&items, "a", "d", false, false));
    assert!(!RbumSetItemServ::check_a_and_b(&items, "a", "b", false, false));
    // an item without a category sits on the root
    let rooted = vec![set_item("r", None), set_item("x", Some("0000"))];
    assert!(RbumSetItemServ::check_a_is_parent_of_b(&rooted, "r", "x"));
}

fn codes(v: &[&str]) -> Vec<String> {
    v.iter().map(|s| s.to_string()).collect()
}

#[test]
fn test_level_query_selects() {
    let q = codes(&["0000"]);
    let sel = |code: &str, kind: Option<RbumSetCateLevelQueryKind>, depth: Option<i16>| level_query_selects(&code.to_string(), &q, kind, depth, 4);
    // the current level is the default
    assert!(sel("0000", None, None));
    assert!(!sel("00000000", None, None));
    // current and below, with and without a depth
    assert!(sel("0000", Some(RbumSetCateLevelQueryKind::CurrentAndSub), None));
    assert!(sel("000000010000", Some(RbumSetCateLevelQueryKind::CurrentAndSub), None));
    assert!(sel("00000001", Some(RbumSetCateLevelQueryKind::CurrentAndSub), Some(1)));
    assert!(!sel("000000010000", Some(RbumSetCateLevelQueryKind::CurrentAndSub), Some(1)));
    assert!(!sel("0001", Some(RbumSetCateLevelQueryKind::CurrentAndSub), None));
    // strictly below
    assert!(!sel("0000", Some(RbumSetCateLevelQueryKind::Sub), None));
    assert!(sel("00000001", Some(RbumSetCateLevelQueryKind::Sub), Some(1)));
    assert!(!sel("000000010000", Some(RbumSetCateLevelQueryKind::Sub), Some(1)));
    // ancestors
    let deep = codes(&["000000010002"]);
    let up = |code: &str, kind: RbumSetCateLevelQueryKind| level_query_selects(&code.to_string(), &deep, Some(kind), None, 4);
    assert!(up("0000", RbumSetCateLevelQueryKind::Parent));
    assert!(up("00000001", RbumSetCateLevelQueryKind::Parent));
    assert!(!up("000000010002", RbumSetCateLevelQueryKind::Parent));
    assert!(up("000000010002", RbumSetCateLevelQueryKind::CurrentAndParent));
    assert!(!up("0001", RbumSetCateLevelQueryKind::CurrentAndParent));
    // no queried code: the current level is the first one, other kinds take all
    let none: Vec<String> = vec![];
    assert!(level_query_selects(&"0003".to_string(), &none, None, None, 4));
    assert!(!level_query_selects(&"00030000".to_string(), &none, None, None, 4));
    assert!(level_query_selects(&"00030000".to_string(), &none, Some(RbumSetCateLevelQueryKind::Sub), None, 4));
    // any of several codes
    let two = codes(&["0000", "0001"]);
    assert!(level_query_selects(&"0001".to_string(), &two, None, None, 4));
}

#[test]
fn test_find_set_paths() {
    let cs = vec![cate("c", "000000000000", 0), cate("a", "0000", 0), cate("x", "0001", 0), cate("b", "00000000", 0)];
    let paths = RbumSetItemServ::find_set_paths(&codes(&["", "000000000000", "0001"]), &cs, 4);
    assert_eq!(paths.len(), 3);
    assert!(paths[0].is_empty());
    let ids: Vec<&str> = paths[1].iter().map(|p| p.id.as_str()).collect();
    assert_eq!(ids, vec!["a", "b", "c"]);
    assert_eq!(paths[1][0].name, "n-a");
    let ids: Vec<&str> = paths[2].iter().map(|p| p.id.as_str()).collect();
    assert_eq!(ids, vec!["x"]);
}

#[test]
fn test_level_kinds_split() {
    let q = codes(&["00000001"]);
    for code in ["0000", "00000001", "000000010000", "000000010000abcd", "00000002", "0001"] {
        let code = code.to_string();
        let sel = |kind: RbumSetCateLevelQueryKind, depth: Option<i16>| level_query_selects(&code, &q, Some(kind), depth, 4);
        for depth in [None, Some(0), Some(1), Some(2)] {
            assert_eq!(
                sel(RbumSetCateLevelQueryKind::CurrentAndSub, depth),
                sel(RbumSetCateLevelQueryKind::Current, depth) || sel(RbumSetCateLevelQueryKind::Sub, depth)
            );
            assert_eq!(
                sel(RbumSetCateLevelQueryKind::CurrentAndParent, depth),
                sel(RbumSetCateLevelQueryKind::Current, depth) || sel(RbumSetCateLevelQueryKind::Parent, depth)
            );
        }
    }
}

#[test]
fn test_next_sys_code_after_max() {
    for max in ["0000", "0009", "00z9", "0zzy", "00010000", "0001000z", "0002z0zz"] {
        let next = RbumSetCateServ::get_max_sys_code_by_level(Some(max.to_string()), None, 4).unwrap();
        assert!(next.as_str() > max);
        assert_eq!(next.len(), max.len());
        assert_eq!(next[..max.len() - 4], max[..max.len() - 4]);
    }
}

#[test]
fn test_item_number_agg_alternating_kinds() {
    let items = vec![
        item("i1", Some("c1"), "r1", "k1"),
        item("i2", Some("c1"), "r2", "k2"),
        item("i3", Some("c1"), "r3", "k1"),
        item("i4", Some("c1"), "r1", "k1"),
    ];
    let tree = RbumSetServ::get_tree(cates(), items, &filter(true, false), 4);
    let ext = tree.ext.unwrap();
    let c1_counts = &ext.item_number_agg[0];
    assert_eq!(c1_counts.0, "c1");
    assert_eq!(c1_counts.1, vec![("k1".to_string(), 2), ("k2".to_string(), 1)]);
}

#[test]
fn test_cate_package_query() {
    let cs = vec![cate("a", "0000", 5), cate("b", "00000000", 1), cate("c", "0001", 3), cate("d", "000000000000", 1)];
    let mut f = RbumSetCateFilterReq {
        basic: RbumBasicFilterReq::default(),
        rel: None,
        rel_rbum_set_id: None,
        sys_codes: Some(vec!["0000".to_string()]),
        sys_code_query_kind: Some(RbumSetCateLevelQueryKind::CurrentAndSub),
        sys_code_query_depth: None,
        cate_exts: None,
    };
    let ids = |r: Vec<bios_basic::rbum::dto::rbum_set_dto::RbumSetCateSummaryResp>| r.iter().map(|c| c.id.clone()).collect::<Vec<_>>();
    // selected by the level query, ordered by sort (then code)
    assert_eq!(ids(RbumSetCateServ::package_query(cs.clone(), &f, 4)), vec!["b", "d", "a"]);
    f.sys_code_query_depth = Some(1);
    assert_eq!(ids(RbumSetCateServ::package_query(cs.clone(), &f, 4)), vec!["b", "a"]);
    f.sys_codes = None;
    assert_eq!(ids(RbumSetCateServ::package_query(cs.clone(), &f, 4)), vec!["b", "d", "c", "a"]);
    // the extensions and the set
    let mut cs2 = cs.clone();
    cs2[0].ext = "x".to_string();
    cs2[2].rel_rbum_set_id = "s2".to_string();
    f.cate_exts = Some(vec!["x".to_string()]);
    assert_eq!(ids(RbumSetCateServ::package_query(cs2.clone(), &f, 4)), vec!["a"]);
    f.cate_exts = None;
    f.rel_rbum_set_id = Some("s1".to_string());
    assert_eq!(ids(RbumSetCateServ::package_query(cs2.clone(), &f, 4)), vec!["b", "d", "a"]);
}

fn item_filter() -> RbumSetItemFilterReq {
    RbumSetItemFilterReq {
        basic: RbumBasicFilterReq::default(),
        rel_rbum_set_id: Some("s1".to_string()),
        sys_code_query_kind: None,
        sys_code_query_depth: None,
        rel_rbum_set_cate_sys_codes: None,
        rel_rbum_set_cate_ids: None,
        rel_rbum_set_item_cate_code: None,
        rel_rbum_item_can_not_exist: None,
        rel_rbum_item_ids: None,
        rel_rbum_item_scope_level: None,
        rel_rbum_item_kind_ids: None,
        rel_rbum_item_domain_ids: None,
        rel_rbum_item_disabled: None,
    }
}

fn row(code: &str, cate_id: Option<&str>) -> SetItemRow {
    SetItemRow {
        rel_rbum_set_id: "s1".to_string(),
        rel_rbum_set_cate_code: code.to_string(),
        rel_rbum_set_cate_id: cate_id.map(|c| c.to_string()),
        rel_rbum_item_id: "r1".to_string(),
        rel_rbum_item_scope_level: RbumScopeLevelKind::Root,
        rel_rbum_item_disabled: false,
        rel_rbum_item_domain_id: "d".to_string(),
        rel_rbum_item_kind_id: "k1".to_string(),
    }
}

#[test]
fn test_set_item_package_query() {
    let mut f = item_filter();
    // by default the categories are joined left: items without a category stay
    let q = RbumSetItemServ::package_query(&f, 4, "t1");
    assert!(q.cate_join_left);
    assert_eq!(q.sys_code_query_kind, RbumSetCateLevelQueryKind::Current);
    assert!(RbumSetItemServ::set_item_passes(&q, &row("", None)));
    f.rel_rbum_item_can_not_exist = Some(true);
    assert!(RbumSetItemServ::package_query(&f, 4, "t1").cate_join_left);
    f.rel_rbum_item_can_not_exist = Some(false);
    let q = RbumSetItemServ::package_query(&f, 4, "t1");
    assert!(!q.cate_join_left);
    assert!(!RbumSetItemServ::set_item_passes(&q, &row("", None)));
    assert!(RbumSetItemServ::set_item_passes(&q, &row("0000", Some("c1"))));
    // the level query over the category codes
    let mut f = item_filter();
    f.rel_rbum_set_cate_sys_codes = Some(vec!["0000".to_string()]);
    f.sys_code_query_kind = Some(RbumSetCateLevelQueryKind::Sub);
    let q = RbumSetItemServ::package_query(&f, 4, "t1");
    assert!(RbumSetItemServ::set_item_passes(&q, &row("00000001", Some("c2"))));
    assert!(!RbumSetItemServ::set_item_passes(&q, &row("0000", Some("c1"))));
    // the other conditions
    let mut f = item_filter();
    f.rel_rbum_item_kind_ids = Some(vec!["k2".to_string()]);
    assert!(!RbumSetItemServ::set_item_passes(&RbumSetItemServ::package_query(&f, 4, "t1"), &row("0000", Some("c1"))));
    let mut f = item_filter();
    f.rel_rbum_set_cate_ids = Some(vec!["c1".to_string()]);
    let q = RbumSetItemServ::package_query(&f, 4, "t1");
    assert!(RbumSetItemServ::set_item_passes(&q, &row("0000", Some("c1"))));
    assert!(!RbumSetItemServ::set_item_passes(&q, &row("0000", None)));
    let mut f = item_filter();
    f.rel_rbum_set_id = Some("s2".to_string());
    assert!(!RbumSetItemServ::set_item_passes(&RbumSetItemServ::package_query(&f, 4, "t1"), &row("0000", Some("c1"))));
}

#[test]
fn test_items_without_category_key() {
    // only items with no category are listed under the empty key
    let items = vec![item("i1", None, "r1", "k1"), item("i2", Some(""), "r2", "k1")];
    let tree = RbumSetServ::get_tree(cates(), items, &filter(true, false), 4);
    let ext = tree.ext.unwrap();
    let root = ext.items.last().unwrap();
    assert_eq!(root.0, "");
    assert_eq!(root.1.iter().map(|i| i.id.as_str()).collect::<Vec<_>>(), vec!["i1"]);
}
