//! Resource set item objects
use crate::rbum::rbum_enumeration::RbumScopeLevelKind;
use vstd::prelude::*;

verus! {

/// Add request of a set item
#[derive(Debug, Clone)]
pub struct RbumSetItemAddReq {
    pub sort: i64,
    pub rel_rbum_set_id: String,
    pub rel_rbum_set_cate_id: String,
    pub rel_rbum_item_id: String,
}

/// Modify request of a set item
#[derive(Debug, Clone)]
pub struct RbumSetItemModifyReq {
    pub rel_rbum_set_cate_id: Option<String>,
    pub sort: Option<i64>,
}

/// Set item summary; the times are UNIX timestamps in seconds
#[derive(Debug, Clone)]
pub struct RbumSetItemSummaryResp {
    pub id: String,
    pub sort: i64,
    pub rel_rbum_set_id: String,
    pub rel_rbum_set_cate_id: Option<String>,
    pub rel_rbum_set_cate_sys_code: Option<String>,
    pub rel_rbum_set_cate_name: Option<String>,
    pub rel_rbum_item_id: String,
    pub rel_rbum_item_name: String,
    pub own_paths: String,
    pub owner: String,
    pub create_time: i64,
    pub update_time: i64,
}

/// An item as a tree node holds it; the times are UNIX timestamps in seconds
#[derive(Debug, Clone)]
pub struct RbumSetItemRelInfoResp {
    pub id: String,
    pub sort: i64,
    pub rel_rbum_item_id: String,
    pub rel_rbum_item_code: String,
    pub rel_rbum_item_name: String,
    pub rel_rbum_item_kind_id: String,
    pub rel_rbum_item_domain_id: String,
    pub rel_rbum_item_owner: String,
    pub rel_rbum_item_create_time: i64,
    pub rel_rbum_item_update_time: i64,
    pub rel_rbum_item_disabled: bool,
    pub rel_rbum_item_scope_level: RbumScopeLevelKind,
    pub own_paths: String,
    pub owner: String,
}

/// Set item detail; the times are UNIX timestamps in seconds
#[derive(Debug, Clone)]
pub struct RbumSetItemDetailResp {
    pub id: String,
    pub sort: i64,
    pub rel_rbum_set_id: String,
    pub rel_rbum_set_cate_id: Option<String>,
    pub rel_rbum_set_cate_sys_code: Option<String>,
    pub rel_rbum_set_cate_name: Option<String>,
    pub rel_rbum_item_id: String,
    pub rel_rbum_item_code: String,
    pub rel_rbum_item_name: String,
    pub rel_rbum_item_kind_id: String,
    pub rel_rbum_item_domain_id: String,
    pub rel_rbum_item_owner: String,
    pub rel_rbum_item_create_time: i64,
    pub rel_rbum_item_update_time: i64,
    pub rel_rbum_item_disabled: bool,
    pub rel_rbum_item_scope_level: RbumScopeLevelKind,
    pub own_paths: String,
    pub owner: String,
    pub owner_name: Option<String>,
    pub create_time: i64,
    pub update_time: i64,
}

} // verus!
